//! The keys of the colour-distance table.
//!
//! The table holds one distance per triple of channel differences, reduced
//! so that the table stays small: a difference `d` in `-255 ..= 255` is
//! halved (truncating toward zero) and kept as the byte of that signed
//! 8-bit value. The large table keys on all eight bits of each channel, the
//! small one on the upper five. Building the table walks the keys and
//! recovers from each the canonical differences, twice the signed byte.
use vstd::prelude::*;

use crate::pixel::Rgb8;

verus! {

/// The byte of the signed 8-bit value `d / 2`, the division truncating
/// toward zero, for `d` in `-255 ..= 255`.
pub open spec fn delta_code(d: int) -> int {
    if d >= 0 {
        d / 2
    } else if (-d) / 2 == 0 {
        0
    } else {
        256 - (-d) / 2
    }
}

/// Twice the signed 8-bit value whose byte is `b`.
pub open spec fn code_delta(b: int) -> int {
    if b < 128 {
        2 * b
    } else {
        2 * (b - 256)
    }
}

/// The large table's key of the differences `(dr, dg, db)`.
pub open spec fn key_888(dr: int, dg: int, db: int) -> int {
    delta_code(dr) * 65536 + delta_code(dg) * 256 + delta_code(db)
}

/// The small table's key of the differences `(dr, dg, db)`.
pub open spec fn key_555(dr: int, dg: int, db: int) -> int {
    (delta_code(dr) / 8) * 1024 + (delta_code(dg) / 8) * 32 + delta_code(db) / 8
}

/// The canonical differences of a large-table key.
pub open spec fn deltas_888(k: int) -> (int, int, int) {
    (code_delta((k / 65536) % 256), code_delta((k / 256) % 256), code_delta(k % 256))
}

/// The canonical differences of a small-table key.
pub open spec fn deltas_555(k: int) -> (int, int, int) {
    (code_delta(((k / 1024) % 32) * 8), code_delta(((k / 32) % 32) * 8), code_delta((k % 32) * 8))
}

/// `delta_code(c1 - c2)`.
fn halved_code(c1: u8, c2: u8) -> (r: u8)
    ensures
        r == delta_code(c1 - c2),
{
    if c1 >= c2 {
        (c1 - c2) / 2
    } else {
        let half = (c2 - c1) / 2;
        if half == 0 {
            0
        } else {
            (256 - half as u16) as u8
        }
    }
}

/// `code_delta(b)`.
fn signed_double(b: u8) -> (r: i16)
    ensures
        r == code_delta(b as int),
{
    if b < 128 {
        2 * b as i16
    } else {
        2 * (b as i16 - 256)
    }
}

/// The large table's key for the distance between two colours.
pub fn diff_key_888(pix1: Rgb8, pix2: Rgb8) -> (r: usize)
    ensures
        r == key_888(pix1.r - pix2.r, pix1.g - pix2.g, pix1.b - pix2.b),
        r < 0x100_0000,
{
    let r_part = halved_code(pix1.r, pix2.r) as usize;
    let g_part = halved_code(pix1.g, pix2.g) as usize;
    let b_part = halved_code(pix1.b, pix2.b) as usize;
    r_part * 65536 + g_part * 256 + b_part
}

/// The small table's key for the distance between two colours.
pub fn diff_key_555(pix1: Rgb8, pix2: Rgb8) -> (r: usize)
    ensures
        r == key_555(pix1.r - pix2.r, pix1.g - pix2.g, pix1.b - pix2.b),
        r < 0x8000,
{
    let r_part = halved_code(pix1.r, pix2.r) as usize;
    let g_part = halved_code(pix1.g, pix2.g) as usize;
    let b_part = halved_code(pix1.b, pix2.b) as usize;
    (r_part / 8) * 1024 + (g_part / 8) * 32 + b_part / 8
}

/// The canonical differences that the large table holds at `key`.
pub fn key_deltas_888(key: usize) -> (r: (i16, i16, i16))
    requires
        key < 0x100_0000,
    ensures
        (r.0 as int, r.1 as int, r.2 as int) == deltas_888(key as int),
{
    (
        signed_double(((key / 65536) % 256) as u8),
        signed_double(((key / 256) % 256) as u8),
        signed_double((key % 256) as u8),
    )
}

/// The canonical differences that the small table holds at `key`.
pub fn key_deltas_555(key: usize) -> (r: (i16, i16, i16))
    requires
        key < 0x8000,
    ensures
        (r.0 as int, r.1 as int, r.2 as int) == deltas_555(key as int),
{
    (
        signed_double((((key / 1024) % 32) * 8) as u8),
        signed_double((((key / 32) % 32) * 8) as u8),
        signed_double(((key % 32) * 8) as u8),
    )
}

proof fn lemma_code_round_trip(b: int)
    requires
        0 <= b < 256,
    ensures
        delta_code(code_delta(b)) == b,
        -256 <= code_delta(b) <= 254,
{
}

/// Every key of the large table is the key of the differences it holds, so
/// the cell that building the table fills for `k` is the cell that a lookup
/// of those differences reads.
pub proof fn lemma_key_888_round_trip(k: int)
    requires
        0 <= k < 0x100_0000,
    ensures
        key_888(deltas_888(k).0, deltas_888(k).1, deltas_888(k).2) == k,
{
    let r = (k / 65536) % 256;
    let g = (k / 256) % 256;
    let b = k % 256;
    lemma_code_round_trip(r);
    lemma_code_round_trip(g);
    lemma_code_round_trip(b);
    assert(k == r * 65536 + g * 256 + b) by (nonlinear_arith)
        requires
            0 <= k < 0x100_0000,
            r == (k / 65536) % 256,
            g == (k / 256) % 256,
            b == k % 256,
    ;
}

/// Every key of the small table is the key of the differences it holds.
pub proof fn lemma_key_555_round_trip(k: int)
    requires
        0 <= k < 0x8000,
    ensures
        key_555(deltas_555(k).0, deltas_555(k).1, deltas_555(k).2) == k,
{
    let r = (k / 1024) % 32;
    let g = (k / 32) % 32;
    let b = k % 32;
    lemma_code_round_trip(r * 8);
    lemma_code_round_trip(g * 8);
    lemma_code_round_trip(b * 8);
    assert(k == r * 1024 + g * 32 + b) by (nonlinear_arith)
        requires
            0 <= k < 0x8000,
            r == (k / 1024) % 32,
            g == (k / 32) % 32,
            b == k % 32,
    ;
}

/// Two colours with equal channels meet at key 0 of either table, whose
/// canonical differences are all zero.
pub proof fn lemma_equal_colours_key_zero(c: Rgb8)
    ensures
        key_888(c.r - c.r, c.g - c.g, c.b - c.b) == 0,
        key_555(c.r - c.r, c.g - c.g, c.b - c.b) == 0,
        deltas_888(0) == (0int, 0int, 0int),
        deltas_555(0) == (0int, 0int, 0int),
{
}

} // verus!
