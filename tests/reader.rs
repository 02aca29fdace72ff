use xbrz::blend::Blend2x2;
use xbrz::decisions::{corner_kernels, pixel_kernels, BlendTests, Decisions, Diagonal};
use xbrz::kernel::{Kernel4x4, RotKernel3x3, Rotation};
use xbrz::oob_reader::OobReaderTransparent;
use xbrz::pixel::{u5_to_u8, Rgba8};
use xbrz::scaler::{blend_pixel, scale_image};

fn px(v: u8) -> Rgba8 {
    Rgba8 { r: v, g: v, b: v, a: 255 }
}

fn zero() -> Rgba8 {
    Rgba8 { r: 0, g: 0, b: 0, a: 0 }
}

/// A 3x2 image whose pixel (x, y) has grey level 10 * (y * 3 + x) + 10.
fn image() -> Vec<Rgba8> {
    (0..6).map(|k| px(10 * k as u8 + 10)).collect()
}

fn at(src: &[Rgba8], x: isize, y: isize) -> Rgba8 {
    if (0..3).contains(&x) && (0..2).contains(&y) {
        src[(y * 3 + x) as usize]
    } else {
        zero()
    }
}

fn expected_kernel(src: &[Rgba8], x: isize, y: isize) -> Kernel4x4 {
    let p = |dx: isize, dy: isize| at(src, x + dx, y + dy);
    Kernel4x4 {
        a: p(-1, -1),
        b: p(0, -1),
        c: p(1, -1),
        d: p(2, -1),
        e: p(-1, 0),
        f: p(0, 0),
        g: p(1, 0),
        h: p(2, 0),
        i: p(-1, 1),
        j: p(0, 1),
        k: p(1, 1),
        l: p(2, 1),
        m: p(-1, 2),
        n: p(0, 2),
        o: p(1, 2),
        p: p(2, 2),
    }
}

#[test]
fn reader_accepts_rows_far_outside() {
    let src = image();
    for y in [-100isize, -3, -2, -1, 0, 1, 2, 3, 50] {
        let oob = OobReaderTransparent::new(&src, 3, 2, y);
        let mut kernel = Kernel4x4::init_row(&oob);
        assert_eq!(kernel, expected_kernel(&src, -1, y));
        for x in 0..6isize {
            kernel.next_column(&oob, x);
            assert_eq!(kernel, expected_kernel(&src, x, y));
        }
    }
}

#[test]
fn fill_reads_zero_far_outside() {
    let src = image();
    let oob = OobReaderTransparent::new(&src, 3, 2, 0);
    let mut kernel = expected_kernel(&src, 0, 0);
    oob.fill_dhlp(&mut kernel, -40);
    assert_eq!((kernel.d, kernel.h, kernel.l, kernel.p), (zero(), zero(), zero(), zero()));
    oob.fill_dhlp(&mut kernel, 0);
    assert_eq!((kernel.d, kernel.h, kernel.l, kernel.p), (zero(), px(30), px(60), zero()));
    assert_eq!(kernel.f, px(10));
    oob.fill_dhlp(&mut kernel, 1000);
    assert_eq!(kernel.h, zero());
}

#[test]
fn kernels_come_in_decision_order() {
    let src = image();
    let corners = corner_kernels(&src, 3, 2);
    assert_eq!(corners.len(), 4 * 3);
    for y in -1..2isize {
        for x in -1..3isize {
            assert_eq!(corners[((y + 1) * 4 + (x + 1)) as usize], expected_kernel(&src, x, y));
        }
    }
    let pixels = pixel_kernels(&src, 3, 2);
    assert_eq!(pixels.len(), 6);
    for y in 0..2isize {
        for x in 0..3isize {
            assert_eq!(pixels[(y * 3 + x) as usize], expected_kernel(&src, x, y));
        }
    }
}

fn varied_decisions() -> Decisions {
    let verdicts = [Diagonal::JG { dominant: true }, Diagonal::Level, Diagonal::FK { dominant: false }];
    let t = |k: usize| BlendTests {
        eq_eg: k % 2 == 0,
        eq_ec: k % 3 == 0,
        eq_ei: k % 5 == 0,
        eq_gh: true,
        eq_hi: k % 4 != 3,
        eq_if: true,
        eq_fc: k % 7 != 0,
        eq_dg: k % 2 == 1,
        eq_bc: false,
        f_closer: k % 3 != 2,
        shallow_ratio: k % 2 == 0,
        steep_ratio: k % 5 < 2,
    };
    Decisions {
        corners: (0..12).map(|k| verdicts[k % 3]).collect(),
        blends: (0..24).map(t).collect(),
    }
}

#[test]
fn stripes_in_any_order_and_overlapping() {
    let src = image();
    let decisions = varied_decisions();
    for factor in 2..=6usize {
        let n = 3 * factor * 2 * factor;
        let mut whole = vec![zero(); n];
        scale_image(&src, &mut whole, 3, 2, factor, &decisions, 0..2).unwrap();
        let mut reversed = vec![px(7); n];
        scale_image(&src, &mut reversed, 3, 2, factor, &decisions, 1..2).unwrap();
        scale_image(&src, &mut reversed, 3, 2, factor, &decisions, 0..1).unwrap();
        assert_eq!(whole, reversed);
        let mut overlapping = vec![px(9); n];
        scale_image(&src, &mut overlapping, 3, 2, factor, &decisions, 0..2).unwrap();
        scale_image(&src, &mut overlapping, 3, 2, factor, &decisions, 1..2).unwrap();
        assert_eq!(whole, overlapping);
    }
}

#[test]
fn blend_window_needs_only_its_cells() {
    // The window of the last pixel of a row: (scale - 1) rows of the full
    // width and then `scale` cells.
    let c = px(200);
    let kernel = Kernel4x4 { a: c, b: c, c, d: c, e: c, f: c, g: zero(), h: c, i: c, j: c, k: c, l: c, m: c, n: c, o: c, p: c };
    let view = RotKernel3x3::new(&kernel, Rotation::Identity);
    let mut info = Blend2x2::none();
    info.bottom_right = xbrz::blend::BlendType::Dominant;
    let tests = BlendTests {
        eq_eg: false,
        eq_ec: false,
        eq_ei: false,
        eq_gh: false,
        eq_hi: false,
        eq_if: false,
        eq_fc: false,
        eq_dg: false,
        eq_bc: false,
        f_closer: true,
        shallow_ratio: false,
        steep_ratio: false,
    };
    let dest_width = 8;
    let cells = vec![c; (3 - 1) * dest_width + 3];
    let out = blend_pixel(&view, cells, dest_width, 3, info, tests);
    assert_eq!(out.len(), 2 * dest_width + 3);
    // Diagonal line at 3x: 1/8 at (1, 2) and (2, 1), 7/8 at (2, 2), of the
    // transparent view.f into opaque grey: the colour stays, alpha drops.
    assert_eq!(out[2 * dest_width + 2], Rgba8 { r: 200, g: 200, b: 200, a: 31 });
    assert_eq!(out[dest_width + 2], Rgba8 { r: 200, g: 200, b: 200, a: 223 });
    assert_eq!(out[2 * dest_width + 1], Rgba8 { r: 200, g: 200, b: 200, a: 223 });
    assert_eq!(out[0], c);
}

#[test]
fn widening_drops_bits_above_five() {
    assert_eq!(u5_to_u8(0x1F), 0xFF);
    assert_eq!(u5_to_u8(0xFF), 0xFF);
    assert_eq!(u5_to_u8(0x20), 0x08);
}
