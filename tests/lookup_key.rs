use xbrz::lookup_key::{diff_key_555, diff_key_888, key_deltas_555, key_deltas_888};
use xbrz::pixel::{u5_to_u8, Rgb8, RGB555};

#[test]
fn large_key_round_trip() {
    for key in [0usize, 1, 0x7F, 0x80, 0xFF, 0x12_34_56, 0xFF_FF_FF, 0x80_00_7F] {
        let (dr, dg, db) = key_deltas_888(key);
        // Colours whose differences are the canonical ones meet at the key.
        let c1 = |d: i16| if d >= 0 { (d as u8, 0u8) } else { (0u8, (-d) as u8) };
        let (r1, r2) = c1(dr.max(-255));
        let (g1, g2) = c1(dg.max(-255));
        let (b1, b2) = c1(db.max(-255));
        if dr >= -255 && dg >= -255 && db >= -255 {
            assert_eq!(diff_key_888(Rgb8::from_parts(r1, g1, b1), Rgb8::from_parts(r2, g2, b2)), key);
        }
    }
    assert_eq!(key_deltas_888(0x01_FF_80), (2, -2, -256));
}

#[test]
fn small_key_round_trip() {
    for key in 0..0x8000usize {
        let (dr, dg, db) = key_deltas_555(key);
        assert!(dr % 16 == 0 && dg % 16 == 0 && db % 16 == 0);
    }
    assert_eq!(key_deltas_555(0b00001_11111_10000), (16, -16, -256));
    let white = Rgb8::from_parts(255, 255, 255);
    let black = Rgb8::from_parts(0, 0, 0);
    // 255 / 2 = 127 = 0b0111_1111: upper five bits 0b01111.
    assert_eq!(diff_key_555(white, black), 0b01111_01111_01111);
    // -127 is the byte 0b1000_0001: upper five bits 0b10000.
    assert_eq!(diff_key_555(black, white), 0b10000_10000_10000);
    assert_eq!(diff_key_888(white, black), 0x7F_7F_7F);
    assert_eq!(diff_key_888(black, white), 0x81_81_81);
}

#[test]
fn equal_colours_meet_at_key_zero() {
    let c = Rgb8::from_parts(12, 200, 77);
    assert_eq!(diff_key_888(c, c), 0);
    assert_eq!(diff_key_555(c, c), 0);
    assert_eq!(key_deltas_888(0), (0, 0, 0));
    assert_eq!(key_deltas_555(0), (0, 0, 0));
}

#[test]
fn halved_difference_truncates_toward_zero() {
    // 3 - 0 = 3 halves to 1; 0 - 3 = -3 halves to -1 (byte 0xFF).
    let a = Rgb8::from_parts(3, 0, 0);
    let b = Rgb8::from_parts(0, 0, 0);
    assert_eq!(diff_key_888(a, b), 0x01_00_00);
    assert_eq!(diff_key_888(b, a), 0xFF_00_00);
    // 1 - 0 halves to 0, and so does 0 - 1.
    let c = Rgb8::from_parts(0, 0, 1);
    assert_eq!(diff_key_888(c, b), 0);
    assert_eq!(diff_key_888(b, c), 0);
}

#[test]
fn rgb555_packs_and_widens() {
    let p = RGB555::from_parts(0xFF, 0x80, 0x07);
    assert_eq!(p.bits, 0b11111_10000_00000);
    assert_eq!(p.to_parts(), (0xFF, 0x84, 0x00));
    assert_eq!(u5_to_u8(0b10101), 0b1010_1101);
    assert_eq!(Rgb8::from_parts(1, 2, 3).to_parts(), (1, 2, 3));
}
