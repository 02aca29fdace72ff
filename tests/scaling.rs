use xbrz::blend::{Blend2x2, BlendType};
use xbrz::decisions::{BlendTests, Decisions, Diagonal};
use xbrz::kernel::{Kernel4x4, Rotation};
use xbrz::matrix::rotate_index;
use xbrz::pixel::{gradient, rgba_from_bytes, Rgba8};
use xbrz::scaler::scale_image;
use xbrz::{scale_rgba, ScaleError};

fn px(r: u8, g: u8, b: u8, a: u8) -> Rgba8 {
    Rgba8 { r, g, b, a }
}

fn plain_tests() -> BlendTests {
    BlendTests {
        eq_eg: true,
        eq_ec: true,
        eq_ei: true,
        eq_gh: true,
        eq_hi: true,
        eq_if: true,
        eq_fc: true,
        eq_dg: true,
        eq_bc: true,
        f_closer: true,
        shallow_ratio: false,
        steep_ratio: false,
    }
}

fn level_decisions(width: usize, height: usize) -> Decisions {
    Decisions {
        corners: vec![Diagonal::Level; (width + 1) * (height + 1)],
        blends: vec![plain_tests(); width * height * 4],
    }
}

fn uniform_bytes(width: usize, height: usize, pixel: [u8; 4]) -> Vec<u8> {
    let mut bytes = Vec::new();
    for _ in 0..width * height {
        bytes.extend_from_slice(&pixel);
    }
    bytes
}

/// The outcomes the colour distance gives for a lone opaque pixel on the
/// transparent border: each 2x2 touching it favours the diagonal through
/// it, never dominantly, and every neighbour of it is far from it.
fn lone_pixel_decisions() -> Decisions {
    let lone = BlendTests {
        eq_eg: false,
        eq_ec: false,
        eq_ei: false,
        eq_gh: true,
        eq_hi: true,
        eq_if: true,
        eq_fc: true,
        eq_dg: true,
        eq_bc: true,
        f_closer: true,
        shallow_ratio: true,
        steep_ratio: true,
    };
    Decisions {
        corners: vec![
            Diagonal::JG { dominant: false },
            Diagonal::FK { dominant: false },
            Diagonal::FK { dominant: false },
            Diagonal::JG { dominant: false },
        ],
        blends: vec![lone; 4],
    }
}

#[test]
fn single_red_pixel_doubles() {
    let src = [0xFFu8, 0x00, 0x00, 0xFF];
    let out = scale_rgba(&src, 1, 1, 2, &lone_pixel_decisions()).unwrap();
    assert_eq!(out.len(), 16);
    for p in out.chunks(4) {
        assert_eq!(&p[..3], &[0xFF, 0x00, 0x00]);
    }
    // Three corners are rounded off with the transparent border at 21/100:
    // alpha 255 * 79 / 100. On the first column the engine carries the
    // top-right class of the 2x2 to the left into the top-left corner and
    // leaves the bottom-left corner unblended.
    let alphas: Vec<u8> = out.chunks(4).map(|p| p[3]).collect();
    assert_eq!(alphas, vec![0xC9, 0xC9, 0xFF, 0xC9]);
}

#[test]
fn transparent_source_stays_zero_for_every_factor() {
    let src = vec![0u8; 4 * 4 * 4];
    for factor in 2..=6usize {
        let decisions = level_decisions(4, 4);
        let out = scale_rgba(&src, 4, 4, factor, &decisions).unwrap();
        assert_eq!(out.len(), 4 * factor * 4 * factor * 4);
        assert!(out.iter().all(|&b| b == 0));
    }
}

#[test]
fn transparent_single_pixel_with_any_outcomes() {
    let src = vec![0u8; 4];
    for factor in 2..=6usize {
        let out = scale_rgba(&src, 1, 1, factor, &lone_pixel_decisions()).unwrap();
        assert_eq!(out.len(), factor * factor * 4);
        assert!(out.iter().all(|&b| b == 0));
    }
}

#[test]
fn factor_one_copies_source() {
    let src: Vec<u8> = (0..3 * 2 * 4).map(|v| v as u8 * 7).collect();
    let out = scale_rgba(&src, 3, 2, 1, &Decisions { corners: vec![], blends: vec![] }).unwrap();
    assert_eq!(out, src);
}

#[test]
fn uniform_image_without_favoured_diagonal_stays_uniform() {
    let colour = [10u8, 200, 30, 255];
    let src = uniform_bytes(3, 2, colour);
    for factor in 2..=6usize {
        let out = scale_rgba(&src, 3, 2, factor, &level_decisions(3, 2)).unwrap();
        assert_eq!(out.len(), 3 * factor * 2 * factor * 4);
        for p in out.chunks(4) {
            assert_eq!(p, &colour);
        }
    }
}

#[test]
fn empty_image_gives_empty_buffer() {
    let decisions = Decisions { corners: vec![], blends: vec![] };
    assert_eq!(scale_rgba(&[], 0, 5, 2, &decisions), Ok(vec![]));
    assert_eq!(scale_rgba(&[], 5, 0, 3, &decisions), Ok(vec![]));
}

#[test]
fn length_mismatch_is_refused() {
    let src = vec![0u8; 15];
    assert_eq!(scale_rgba(&src, 2, 2, 2, &level_decisions(2, 2)), Err(ScaleError::DimensionMismatch));
}

#[test]
fn factor_out_of_range_is_refused() {
    let src = vec![0u8; 16];
    assert_eq!(scale_rgba(&src, 2, 2, 0, &level_decisions(2, 2)), Err(ScaleError::FactorOutOfRange));
    assert_eq!(scale_rgba(&src, 2, 2, 7, &level_decisions(2, 2)), Err(ScaleError::FactorOutOfRange));
}

#[test]
fn decisions_for_another_size_are_refused() {
    let src = vec![0u8; 16];
    assert_eq!(scale_rgba(&src, 2, 2, 2, &level_decisions(3, 2)), Err(ScaleError::DecisionsMismatch));
}

#[test]
fn empty_row_range_is_refused() {
    let src = vec![px(1, 2, 3, 4); 4];
    let mut dest = vec![px(0, 0, 0, 0); 16];
    let decisions = level_decisions(2, 2);
    assert_eq!(scale_image(&src, &mut dest, 2, 2, 2, &decisions, 1..1), Err(ScaleError::EmptyRange));
    assert_eq!(scale_image(&src, &mut dest, 2, 2, 2, &decisions, 2..5), Err(ScaleError::EmptyRange));
    assert!(dest.iter().all(|p| *p == px(0, 0, 0, 0)));
}

fn stripe_test_image() -> Vec<Rgba8> {
    let mut src = Vec::new();
    for y in 0..4u8 {
        for x in 0..4u8 {
            let on = (x + y) % 3 == 0;
            src.push(if on { px(255, 255, 255, 255) } else { px(x * 40, y * 50, 90, 255) });
        }
    }
    src
}

fn stripe_test_decisions() -> Decisions {
    let verdicts = [
        Diagonal::Level,
        Diagonal::JG { dominant: false },
        Diagonal::FK { dominant: true },
        Diagonal::JG { dominant: true },
        Diagonal::FK { dominant: false },
    ];
    let corners = (0..25).map(|k| verdicts[(k * 7) % 5]).collect();
    let blends = (0..64)
        .map(|k| BlendTests {
            eq_eg: k % 2 == 0,
            eq_ec: k % 3 == 0,
            eq_ei: k % 5 == 0,
            eq_gh: k % 7 != 0,
            eq_hi: true,
            eq_if: k % 4 != 1,
            eq_fc: true,
            eq_dg: k % 6 == 0,
            eq_bc: k % 9 == 0,
            f_closer: k % 2 == 1,
            shallow_ratio: k % 3 != 1,
            steep_ratio: k % 4 == 2,
        })
        .collect();
    Decisions { corners, blends }
}

#[test]
fn stripes_give_the_same_image() {
    let src = stripe_test_image();
    let decisions = stripe_test_decisions();
    for factor in 2..=6usize {
        let n = 4 * factor * 4 * factor;
        let mut whole = vec![px(0, 0, 0, 0); n];
        scale_image(&src, &mut whole, 4, 4, factor, &decisions, 0..4).unwrap();
        let mut striped = vec![px(0, 0, 0, 0); n];
        scale_image(&src, &mut striped, 4, 4, factor, &decisions, 0..1).unwrap();
        scale_image(&src, &mut striped, 4, 4, factor, &decisions, 1..3).unwrap();
        scale_image(&src, &mut striped, 4, 4, factor, &decisions, 3..4).unwrap();
        assert_eq!(whole, striped);
        assert!(whole.iter().any(|p| *p != px(255, 255, 255, 255) && p.r == 255));
    }
}

#[test]
fn stripe_leaves_other_rows_alone() {
    let src = stripe_test_image();
    let decisions = stripe_test_decisions();
    let marker = px(1, 2, 3, 4);
    let mut dest = vec![marker; 8 * 8];
    scale_image(&src, &mut dest, 4, 4, 2, &decisions, 1..2).unwrap();
    for (k, p) in dest.iter().enumerate() {
        let row = k / 8;
        assert_eq!(*p == marker, !(2..4).contains(&row));
    }
}

#[test]
fn uniform_kernel_has_no_blending_corner() {
    let c = px(9, 8, 7, 6);
    let kernel = Kernel4x4 { a: c, b: c, c, d: c, e: c, f: c, g: c, h: c, i: c, j: c, k: c, l: c, m: c, n: c, o: c, p: c };
    for verdict in [Diagonal::Level, Diagonal::JG { dominant: true }, Diagonal::FK { dominant: false }] {
        assert_eq!(kernel.pre_process_corners(verdict), Blend2x2::none());
    }
}

#[test]
fn corner_classes_follow_the_verdict() {
    let z = px(0, 0, 0, 0);
    let w = px(255, 255, 255, 255);
    // F and K white, G and J black: a J-G verdict blends the corners of F
    // and K, an F-K verdict those of G and J.
    let kernel = Kernel4x4 { a: z, b: z, c: z, d: z, e: z, f: w, g: z, h: z, i: z, j: z, k: w, l: z, m: z, n: z, o: z, p: z };
    let r = kernel.pre_process_corners(Diagonal::JG { dominant: true });
    assert_eq!(r.top_left, BlendType::Dominant);
    assert_eq!(r.bottom_right, BlendType::Dominant);
    assert_eq!(r.top_right, BlendType::NoBlend);
    assert_eq!(r.bottom_left, BlendType::NoBlend);
    let r = kernel.pre_process_corners(Diagonal::FK { dominant: true });
    assert_eq!(r.top_right, BlendType::Dominant);
    assert_eq!(r.bottom_left, BlendType::Dominant);
    assert_eq!(r.top_left, BlendType::NoBlend);
    let r = kernel.pre_process_corners(Diagonal::FK { dominant: false });
    assert_eq!(r.top_right, BlendType::Normal);
    assert_eq!(kernel.pre_process_corners(Diagonal::Level), Blend2x2::none());
}

#[test]
fn rotation_permutes_every_square() {
    for n in 2..=6usize {
        for rot in 0..4u8 {
            let rot = Rotation::from_u8(rot);
            let mut seen = vec![false; n * n];
            for i in 0..n {
                for j in 0..n {
                    let (a, b) = rotate_index(i, j, n, rot);
                    assert!(a < n && b < n);
                    assert!(!seen[a * n + b]);
                    seen[a * n + b] = true;
                }
            }
        }
    }
    assert_eq!(rotate_index(0, 0, 3, Rotation::Clockwise90), (2, 0));
    assert_eq!(rotate_index(0, 0, 3, Rotation::Clockwise180), (2, 2));
    assert_eq!(rotate_index(0, 0, 3, Rotation::Clockwise270), (0, 2));
    assert_eq!(rotate_index(1, 2, 4, Rotation::Clockwise90), (1, 1));
}

#[test]
fn blend_classes_rotate_cyclically() {
    let b = Blend2x2 {
        top_left: BlendType::Normal,
        top_right: BlendType::Dominant,
        bottom_left: BlendType::NoBlend,
        bottom_right: BlendType::Normal,
    };
    let r = b.rotate(Rotation::Clockwise90);
    assert_eq!(r.top_left, BlendType::NoBlend);
    assert_eq!(r.top_right, BlendType::Normal);
    assert_eq!(r.bottom_left, BlendType::Normal);
    assert_eq!(r.bottom_right, BlendType::Dominant);
    assert_eq!(b.rotate(Rotation::Clockwise180).bottom_right, BlendType::Normal);
    assert_eq!(b.rotate(Rotation::Clockwise270).bottom_right, BlendType::NoBlend);
    assert!(b.blending_needed());
    assert!(!Blend2x2::none().blending_needed());
}

#[test]
fn gradient_weights_by_alpha_and_truncates() {
    let red = px(255, 0, 0, 255);
    let blue = px(0, 0, 255, 255);
    assert_eq!(gradient(red, blue, 1, 4), px(63, 0, 191, 255));
    // A transparent front leaves the back's colour, with its alpha scaled.
    assert_eq!(gradient(px(0, 0, 0, 0), red, 21, 100), px(255, 0, 0, 201));
    // Both transparent: the zero pixel.
    assert_eq!(gradient(px(5, 5, 5, 0), px(7, 7, 7, 0), 1, 2), px(0, 0, 0, 0));
    // Half-transparent front over opaque back.
    assert_eq!(gradient(px(200, 100, 0, 128), px(0, 0, 0, 255), 1, 2), px(66, 33, 0, 191));
}

#[test]
fn rgba_bytes_become_pixels() {
    let p = rgba_from_bytes(&[1, 2, 3, 4, 5, 6, 7, 8]);
    assert_eq!(p, vec![px(1, 2, 3, 4), px(5, 6, 7, 8)]);
}

#[test]
fn line_blend_paints_the_corner_cell() {
    // A white pixel in a black 3x3 with a dominant bottom-right corner and
    // every comparison saying "different": the diagonal line pattern.
    let white = [255u8, 255, 255, 255];
    let black = [0u8, 0, 0, 255];
    let mut src = Vec::new();
    for k in 0..9 {
        src.extend_from_slice(if k == 4 { &white } else { &black });
    }
    let mut decisions = level_decisions(3, 3);
    // Kernel centred on (1, 1): its top-left class is the bottom-right
    // class of pixel (1, 1); F = white, G, J, K black.
    decisions.corners[2 * 4 + 2] = Diagonal::JG { dominant: true };
    let far = BlendTests {
        eq_eg: false,
        eq_ec: false,
        eq_ei: false,
        eq_gh: false,
        eq_hi: false,
        eq_if: false,
        eq_fc: false,
        eq_dg: false,
        eq_bc: false,
        f_closer: true,
        shallow_ratio: false,
        steep_ratio: false,
    };
    for r in 0..4 {
        decisions.blends[4 * 4 + r] = far;
    }
    let out = scale_rgba(&src, 3, 3, 2, &decisions).unwrap();
    let at = |x: usize, y: usize| -> [u8; 4] {
        let k = (y * 6 + x) * 4;
        [out[k], out[k + 1], out[k + 2], out[k + 3]]
    };
    // The block of (1, 1) covers cells (2..4, 2..4); its bottom-right cell
    // gets black blended in at 1/2 (the view's f, right of the centre).
    assert_eq!(at(2, 2), white);
    assert_eq!(at(3, 2), white);
    assert_eq!(at(2, 3), white);
    assert_eq!(at(3, 3), [127, 127, 127, 255]);
    assert_eq!(at(0, 0), black);
}
