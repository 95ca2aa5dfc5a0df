use screencast::frames::{blank_frame, copy_frame, swap_frames};
use screencast::wire::Pixel;

fn solid(v: u8, n: usize) -> Vec<Pixel> {
    (0..n).map(|_| Pixel { r: v, g: v, b: v }).collect()
}

#[test]
fn blank_frame_is_black() {
    let f = blank_frame(6);
    assert_eq!(f.len(), 6);
    assert!(f.iter().all(|p| *p == Pixel { r: 0, g: 0, b: 0 }));
}

#[test]
fn double_buffer_never_mixes_frames() {
    let first = solid(1, 64);
    let second = solid(2, 64);
    let mut active = blank_frame(64);
    let mut staging = blank_frame(64);

    copy_frame(&mut staging, &first);
    swap_frames(&mut staging, &mut active);
    assert_eq!(active, first);

    copy_frame(&mut staging, &second);
    assert_eq!(active, first);
    swap_frames(&mut staging, &mut active);
    assert_eq!(active, second);
    assert_eq!(staging, first);
}

#[test]
fn direct_overwrite_replaces_active() {
    let mut active = solid(1, 8);
    copy_frame(&mut active, &solid(3, 8));
    assert_eq!(active, solid(3, 8));
}
