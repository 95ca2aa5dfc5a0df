use screencast::wire::{encode_ascii, encode_binary, encode_pixel, Pixel};

fn px(r: u8, g: u8, b: u8) -> Pixel {
    Pixel { r, g, b }
}

#[test]
fn ascii_full_opacity_has_three_pairs() {
    let m = encode_ascii(1234, 7, px(1, 2, 255), 255);
    assert_eq!(m, b"PX 1234 7 0102FF\n".to_vec());
}

#[test]
fn ascii_alpha_appends_fourth_pair() {
    assert_eq!(encode_ascii(0, 0, px(0xAB, 0xCD, 0xEF), 128), b"PX 0 0 ABCDEF80\n".to_vec());
    assert_eq!(encode_ascii(0, 0, px(0, 0, 0), 0), b"PX 0 0 00000000\n".to_vec());
    assert_eq!(encode_ascii(0, 0, px(0, 0, 0), 254), b"PX 0 0 000000FE\n".to_vec());
}

#[test]
fn ascii_largest_coordinates() {
    let m = encode_ascii(65535, 65535, px(16, 15, 9), 255);
    assert_eq!(m, b"PX 65535 65535 100F09\n".to_vec());
}

#[test]
fn ascii_round_trip_reads_back() {
    for &(x, y, r, g, b) in &[(0u16, 0u16, 0u8, 0u8, 0u8), (9, 10, 1, 160, 255), (65535, 100, 7, 8, 9)] {
        let m = String::from_utf8(encode_ascii(x, y, px(r, g, b), 255)).unwrap();
        let fields: Vec<&str> = m.trim_end().split(' ').collect();
        assert_eq!(fields.len(), 4);
        assert_eq!(fields[0], "PX");
        assert_eq!(fields[1].parse::<u16>().unwrap(), x);
        assert_eq!(fields[2].parse::<u16>().unwrap(), y);
        let c = fields[3];
        assert_eq!(c.len(), 6);
        assert_eq!(u8::from_str_radix(&c[0..2], 16).unwrap(), r);
        assert_eq!(u8::from_str_radix(&c[2..4], 16).unwrap(), g);
        assert_eq!(u8::from_str_radix(&c[4..6], 16).unwrap(), b);
    }
}

#[test]
fn binary_record_layout() {
    let m = encode_binary(0x1234, 0xABCD, px(1, 2, 3), 255);
    assert_eq!(m, vec![b'P', b'B', 0x34, 0x12, 0xCD, 0xAB, 1, 2, 3, 255]);
    assert_eq!(m.len(), 10);
    assert_eq!((m[2] as u16) | ((m[3] as u16) << 8), 0x1234);
    assert_eq!((m[4] as u16) | ((m[5] as u16) << 8), 0xABCD);
}

#[test]
fn binary_keeps_alpha_at_full_opacity() {
    let m = encode_binary(0, 0, px(9, 9, 9), 255);
    assert_eq!(m[9], 255);
}

#[test]
fn encode_pixel_picks_mode() {
    assert_eq!(encode_pixel(false, 3, 4, px(0, 0, 0), 255), b"PX 3 4 000000\n".to_vec());
    assert_eq!(encode_pixel(true, 3, 4, px(0, 0, 0), 255).len(), 10);
}
