//! Pixel formats and the alpha-weighted gradient.
use vstd::prelude::*;

verus! {

/// An 8-bit-per-channel pixel in red, green, blue, alpha order.
#[derive(Clone, Copy, Debug, PartialEq, Eq, Structural)]
pub struct Rgba8 {
    pub r: u8,
    pub g: u8,
    pub b: u8,
    pub a: u8,
}

/// The pixel with every channel zero: what lies outside the image.
pub open spec fn zero_pixel() -> Rgba8 {
    Rgba8 { r: 0, g: 0, b: 0, a: 0 }
}

/// One channel of a gradient: the weighted mean of the two channel values.
pub open spec fn mix_channel(front: u8, back: u8, weight_front: int, weight_back: int) -> int {
    (front * weight_front + back * weight_back) / (weight_front + weight_back)
}

/// `front * m/n + back * (n - m)/n`, with each side weighted by its alpha and
/// every division truncating.
pub open spec fn gradient_spec(front: Rgba8, back: Rgba8, m: int, n: int) -> Rgba8 {
    let weight_front = front.a * m;
    let weight_back = back.a * (n - m);
    let weight_sum = weight_front + weight_back;
    if weight_sum == 0 {
        zero_pixel()
    } else {
        Rgba8 {
            r: mix_channel(front.r, back.r, weight_front, weight_back) as u8,
            g: mix_channel(front.g, back.g, weight_front, weight_back) as u8,
            b: mix_channel(front.b, back.b, weight_front, weight_back) as u8,
            a: (weight_sum / n) as u8,
        }
    }
}

impl Rgba8 {
    /// The zero pixel.
    pub fn zero() -> (r: Rgba8)
        ensures
            r == zero_pixel(),
    {
        Rgba8 { r: 0, g: 0, b: 0, a: 0 }
    }

    /// Builds a pixel from its four channels in RGBA order.
    pub fn from_rgba(rgba: [u8; 4]) -> (r: Rgba8)
        ensures
            r.r == rgba[0],
            r.g == rgba[1],
            r.b == rgba[2],
            r.a == rgba[3],
    {
        Rgba8 { r: rgba[0], g: rgba[1], b: rgba[2], a: rgba[3] }
    }

    /// The alpha channel.
    pub fn alpha(self) -> (r: u8)
        ensures
            r == self.a,
    {
        self.a
    }

    /// The colour channels in RGB order.
    pub fn to_rgb(self) -> (r: [u8; 3])
        ensures
            r[0] == self.r,
            r[1] == self.g,
            r[2] == self.b,
    {
        [self.r, self.g, self.b]
    }
}

/// Channel `c` (0 red, 1 green, 2 blue, 3 alpha) of a pixel.
pub open spec fn channel(p: Rgba8, c: int) -> u8 {
    if c == 0 {
        p.r
    } else if c == 1 {
        p.g
    } else if c == 2 {
        p.b
    } else {
        p.a
    }
}

/// The pixel held by bytes `4 * i .. 4 * i + 4`, in RGBA order.
pub open spec fn rgba_at(bytes: Seq<u8>, i: int) -> Rgba8 {
    Rgba8 { r: bytes[4 * i], g: bytes[4 * i + 1], b: bytes[4 * i + 2], a: bytes[4 * i + 3] }
}

/// The pixels that an RGBA byte buffer holds.
pub open spec fn bytes_to_rgba(bytes: Seq<u8>) -> Seq<Rgba8> {
    Seq::new(bytes.len() / 4, |i: int| rgba_at(bytes, i))
}

/// The RGBA bytes of a sequence of pixels.
pub open spec fn rgba_to_bytes_spec(pixels: Seq<Rgba8>) -> Seq<u8> {
    Seq::new(pixels.len() * 4, |k: int| channel(pixels[k / 4], k % 4))
}

/// Reads an RGBA byte buffer as pixels.
pub fn rgba_from_bytes(bytes: &[u8]) -> (r: Vec<Rgba8>)
    requires
        bytes@.len() % 4 == 0,
    ensures
        r@ == bytes_to_rgba(bytes@),
{
    let len = bytes.len();
    let n = len / 4;
    let mut pixels: Vec<Rgba8> = Vec::new();
    let mut i: usize = 0;
    while i < n
        invariant
            n == bytes@.len() / 4,
            len == bytes@.len(),
            bytes@.len() % 4 == 0,
            i <= n,
            pixels@.len() == i,
            forall|k: int| 0 <= k < i ==> #[trigger] pixels@[k] == rgba_at(bytes@, k),
        decreases n - i,
    {
        let base = 4 * i;
        pixels.push(Rgba8 { r: bytes[base], g: bytes[base + 1], b: bytes[base + 2], a: bytes[base + 3] });
        i += 1;
    }
    assert(pixels@ =~= bytes_to_rgba(bytes@));
    pixels
}

/// Writes pixels as an RGBA byte buffer.
pub fn rgba_to_bytes(pixels: &[Rgba8]) -> (r: Vec<u8>)
    requires
        pixels@.len() * 4 <= usize::MAX,
    ensures
        r@ == rgba_to_bytes_spec(pixels@),
{
    let mut bytes: Vec<u8> = Vec::new();
    let mut i: usize = 0;
    while i < pixels.len()
        invariant
            pixels@.len() * 4 <= usize::MAX,
            i <= pixels@.len(),
            bytes@.len() == 4 * i,
            forall|k: int| 0 <= k < 4 * i ==> #[trigger] bytes@[k] == channel(pixels@[k / 4], k % 4),
        decreases pixels@.len() - i,
    {
        let p = pixels[i];
        bytes.push(p.r);
        bytes.push(p.g);
        bytes.push(p.b);
        bytes.push(p.a);
        proof {
            assert forall|k: int| 0 <= k < 4 * (i + 1) implies #[trigger] bytes@[k] == channel(pixels@[k / 4], k % 4) by {
                if k >= 4 * i {
                    assert(k / 4 == i);
                }
            }
        }
        i += 1;
    }
    assert(bytes@ =~= rgba_to_bytes_spec(pixels@));
    bytes
}

/// An 8-bit-per-channel pixel stored in alpha, red, green, blue order.
#[derive(Clone, Copy, Debug, PartialEq, Eq, Structural)]
pub struct Argb8 {
    pub a: u8,
    pub r: u8,
    pub g: u8,
    pub b: u8,
}

impl Argb8 {
    /// The channels in RGBA order.
    pub fn to_rgba_parts(self) -> (r: (u8, u8, u8, u8))
        ensures
            r == (self.r, self.g, self.b, self.a),
    {
        (self.r, self.g, self.b, self.a)
    }
}

/// The pixel held by bytes `4 * i .. 4 * i + 4`, in ARGB order.
pub open spec fn argb_at(bytes: Seq<u8>, i: int) -> Argb8 {
    Argb8 { a: bytes[4 * i], r: bytes[4 * i + 1], g: bytes[4 * i + 2], b: bytes[4 * i + 3] }
}

/// Reads an ARGB byte buffer as pixels; trailing bytes that do not make a
/// whole pixel are left out.
pub fn argb_from_bytes(bytes: &[u8]) -> (r: Vec<Argb8>)
    ensures
        r@.len() == bytes@.len() / 4,
        forall|k: int| 0 <= k < r@.len() ==> #[trigger] r@[k] == argb_at(bytes@, k),
{
    let len = bytes.len();
    let n = len / 4;
    let mut pixels: Vec<Argb8> = Vec::new();
    let mut i: usize = 0;
    while i < n
        invariant
            n == bytes@.len() / 4,
            len == bytes@.len(),
            i <= n,
            pixels@.len() == i,
            forall|k: int| 0 <= k < i ==> #[trigger] pixels@[k] == argb_at(bytes@, k),
        decreases n - i,
    {
        let base = 4 * i;
        pixels.push(Argb8 { a: bytes[base], r: bytes[base + 1], g: bytes[base + 2], b: bytes[base + 3] });
        i += 1;
    }
    pixels
}

/// Writes pixels as an ARGB byte buffer.
pub fn argb_to_bytes(pixels: &[Argb8]) -> (r: Vec<u8>)
    requires
        pixels@.len() * 4 <= usize::MAX,
    ensures
        r@.len() == pixels@.len() * 4,
        forall|k: int| 0 <= k < pixels@.len() ==> #[trigger] argb_at(r@, k) == pixels@[k],
{
    let mut bytes: Vec<u8> = Vec::new();
    let mut i: usize = 0;
    while i < pixels.len()
        invariant
            pixels@.len() * 4 <= usize::MAX,
            i <= pixels@.len(),
            bytes@.len() == 4 * i,
            forall|k: int| 0 <= k < i ==> #[trigger] argb_at(bytes@, k) == pixels@[k],
        decreases pixels@.len() - i,
    {
        let p = pixels[i];
        let ghost before = bytes@;
        bytes.push(p.a);
        bytes.push(p.r);
        bytes.push(p.g);
        bytes.push(p.b);
        proof {
            assert forall|k: int| 0 <= k < i + 1 implies #[trigger] argb_at(bytes@, k) == pixels@[k] by {
                if k < i {
                    assert(argb_at(before, k) == pixels@[k]);
                }
            }
        }
        i += 1;
    }
    bytes
}

/// A colour without alpha, 8 bits per channel.
#[derive(Clone, Copy, Debug, PartialEq, Eq, Structural)]
pub struct Rgb8 {
    pub r: u8,
    pub g: u8,
    pub b: u8,
}

impl Rgb8 {
    pub fn from_parts(r: u8, g: u8, b: u8) -> (p: Rgb8)
        ensures
            p == (Rgb8 { r, g, b }),
    {
        Rgb8 { r, g, b }
    }

    pub fn to_parts(self) -> (r: (u8, u8, u8))
        ensures
            r == (self.r, self.g, self.b),
    {
        (self.r, self.g, self.b)
    }

    /// The colour channels of an RGBA pixel.
    pub fn from_rgba8(p: Rgba8) -> (r: Rgb8)
        ensures
            r == (Rgb8 { r: p.r, g: p.g, b: p.b }),
    {
        Rgb8 { r: p.r, g: p.g, b: p.b }
    }
}

/// Widens a 5-bit channel to 8 bits, repeating its top bits below. On a
/// wider value the bits shifted past the top are lost, as with `v << 3`.
pub fn u5_to_u8(v: u8) -> (r: u8)
    ensures
        r == (((v % 32) * 8) as u8 | v / 4),
        v < 32 ==> r == v * 8 + v / 4,
{
    proof {
        assert(((v << 3u8) | (v >> 2u8)) == (((v % 32) * 8) as u8 | v / 4)) by (bit_vector);
        assert(v < 32 ==> ((v << 3u8) | (v >> 2u8)) == v * 8 + v / 4) by (bit_vector);
    }
    (v << 3) | (v >> 2)
}

/// A colour packed in 15 bits: five bits of red, green and blue, red
/// highest.
#[derive(Clone, Copy, Debug, PartialEq, Eq, Structural)]
pub struct RGB555 {
    pub bits: u16,
}

impl RGB555 {
    /// Packs the upper five bits of each channel.
    pub fn from_parts(r: u8, g: u8, b: u8) -> (p: RGB555)
        ensures
            p.bits == (r / 8) * 1024 + (g / 8) * 32 + b / 8,
    {
        let rr = r as u16;
        let gg = g as u16;
        let bb = b as u16;
        proof {
            assert((((rr << 7u16) & 0x7C00u16) | ((gg << 2u16) & 0x03E0u16) | ((bb >> 3u16) & 0x001Fu16))
                == (rr / 8) * 1024 + (gg / 8) * 32 + bb / 8) by (bit_vector)
                requires
                    rr < 256,
                    gg < 256,
                    bb < 256,
            ;
        }
        RGB555 { bits: ((rr << 7) & 0x7C00) | ((gg << 2) & 0x03E0) | ((bb >> 3) & 0x001F) }
    }

    /// The three channels, each widened to 8 bits.
    pub fn to_parts(self) -> (r: (u8, u8, u8))
        ensures
            r.0 == ((self.bits / 1024) % 32) * 8 + ((self.bits / 1024) % 32) / 4,
            r.1 == ((self.bits / 32) % 32) * 8 + ((self.bits / 32) % 32) / 4,
            r.2 == (self.bits % 32) * 8 + (self.bits % 32) / 4,
    {
        let v = self.bits;
        proof {
            assert(((v >> 10u16) & 0x1Fu16) == (v / 1024) % 32) by (bit_vector);
            assert(((v >> 5u16) & 0x1Fu16) == (v / 32) % 32) by (bit_vector);
            assert((v & 0x1Fu16) == v % 32) by (bit_vector);
        }
        (
            u5_to_u8(((v >> 10) & 0x1F) as u8),
            u5_to_u8(((v >> 5) & 0x1F) as u8),
            u5_to_u8((v & 0x1F) as u8),
        )
    }
}

proof fn lemma_mix_bounded(front: u8, back: u8, wf: int, wb: int)
    requires
        wf >= 0,
        wb >= 0,
        wf + wb > 0,
    ensures
        0 <= mix_channel(front, back, wf, wb) <= 255,
{
    assert(front * wf + back * wb <= 255 * (wf + wb)) by (nonlinear_arith)
        requires
            front <= 255,
            back <= 255,
            wf >= 0,
            wb >= 0,
    ;
    assert(front * wf + back * wb >= 0) by (nonlinear_arith)
        requires
            front >= 0,
            back >= 0,
            wf >= 0,
            wb >= 0,
    ;
    let s = front * wf + back * wb;
    let d = wf + wb;
    assert(s / d <= 255) by (nonlinear_arith)
        requires
            0 <= s <= 255 * d,
            d > 0,
    ;
    assert(s / d >= 0) by (nonlinear_arith)
        requires
            0 <= s,
            d > 0,
    ;
}

fn mix_channel_exec(front: u8, back: u8, weight_front: u32, weight_back: u32) -> (r: u8)
    requires
        weight_front <= 255 * 1000,
        weight_back <= 255 * 1000,
        weight_front + weight_back > 0,
    ensures
        r == mix_channel(front, back, weight_front as int, weight_back as int),
{
    proof {
        lemma_mix_bounded(front, back, weight_front as int, weight_back as int);
        assert(front * weight_front <= 255 * (255 * 1000)) by (nonlinear_arith)
            requires
                front <= 255,
                weight_front <= 255 * 1000,
        ;
        assert(back * weight_back <= 255 * (255 * 1000)) by (nonlinear_arith)
            requires
                back <= 255,
                weight_back <= 255 * 1000,
        ;
    }
    let sum = front as u32 * weight_front + back as u32 * weight_back;
    (sum / (weight_front + weight_back)) as u8
}

/// The alpha-weighted gradient of `front` over `back` at the ratio `m/n`.
pub fn gradient(front: Rgba8, back: Rgba8, m: u32, n: u32) -> (r: Rgba8)
    requires
        0 < m < n <= 1000,
    ensures
        r == gradient_spec(front, back, m as int, n as int),
{
    proof {
        assert(front.a * m <= 255 * 1000) by (nonlinear_arith)
            requires
                front.a <= 255,
                m <= 1000,
        ;
        assert(back.a * (n - m) <= 255 * 1000) by (nonlinear_arith)
            requires
                back.a <= 255,
                n - m <= 1000,
        ;
    }
    let weight_front = front.a as u32 * m;
    let weight_back = back.a as u32 * (n - m);
    let weight_sum = weight_front + weight_back;
    if weight_sum == 0 {
        return Rgba8::zero();
    }
    proof {
        assert(weight_sum / n <= 255) by (nonlinear_arith)
            requires
                weight_sum == front.a * m + back.a * (n - m),
                front.a <= 255,
                back.a <= 255,
                0 < m < n,
        ;
    }
    Rgba8 {
        r: mix_channel_exec(front.r, back.r, weight_front, weight_back),
        g: mix_channel_exec(front.g, back.g, weight_front, weight_back),
        b: mix_channel_exec(front.b, back.b, weight_front, weight_back),
        a: (weight_sum / n) as u8,
    }
}

} // verus!
