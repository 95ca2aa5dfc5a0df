use screencast::geometry::{partition_rows, row_range, CanvasGeometry};

#[test]
fn partition_uneven_rows() {
    assert_eq!(partition_rows(3, 10), vec![(0, 3), (3, 6), (6, 10)]);
    assert_eq!(row_range(2, 3, 10), (6, 10));
}

#[test]
fn partition_single_worker() {
    assert_eq!(partition_rows(1, 150), vec![(0, 150)]);
}

#[test]
fn partition_more_workers_than_rows() {
    assert_eq!(partition_rows(4, 2), vec![(0, 0), (0, 1), (1, 1), (1, 2)]);
}

#[test]
fn partition_covers_every_row_once() {
    for n in 1..12usize {
        for h in [0u16, 1, 7, 150, 1080] {
            let parts = partition_rows(n, h);
            assert_eq!(parts.len(), n);
            assert_eq!(parts[0].0, 0);
            assert_eq!(parts[n - 1].1, h);
            for w in parts.windows(2) {
                assert_eq!(w[0].1, w[1].0);
            }
            if n <= h as usize {
                assert!(parts.iter().all(|&(a, b)| a < b));
            }
        }
    }
}

#[test]
fn frame_index_nearest_neighbour() {
    let g = CanvasGeometry::new(1920, 1080, 200, 150, 50, 50);
    assert_eq!(g.frame_index(0, 0), 0);
    assert_eq!(g.frame_index(1, 0), 9);
    assert_eq!(g.frame_index(0, 1), 7 * 1920);
    assert_eq!(g.frame_index(199, 149), 1072 * 1920 + 1910);
}

#[test]
fn frame_index_stays_in_frame() {
    let g = CanvasGeometry::new(7, 5, 13, 11, 0, 0);
    for y in 0..11u16 {
        for x in 0..13u16 {
            assert!(g.frame_index(x, y) < 35);
        }
    }
}

#[test]
fn frame_index_upscaling() {
    let g = CanvasGeometry::new(2, 2, 4, 4, 0, 0);
    assert_eq!(g.frame_index(3, 3), 3);
    assert_eq!(g.frame_index(1, 2), 2);
}

#[test]
fn target_adds_offset_after_scaling() {
    let g = CanvasGeometry::new(1920, 1080, 200, 150, 50, 60);
    assert_eq!(g.target_of(0, 0), (50, 60));
    assert_eq!(g.target_of(199, 149), (249, 209));
    let w = CanvasGeometry::new(1, 1, 1, 1, 65535, 2);
    assert_eq!(w.target_of(1, 0), (0, 2));
}
