//! Picture-graphic decoding and change detection.
//!
//! A picture graphic carries a packed byte stream: one, two or eight
//! palette indices per byte depending on the format.  Decoding walks the
//! bytes in order and places pixels row-major; when a row fills, the
//! remaining indices of the current byte are discarded — byte boundaries
//! never span rows, a rule of the encoding, so each row starts on a fresh
//! byte.  Indices beyond the raster are dropped without error.
//!
//! Change detection hashes the object's full encoded form (all fields,
//! including the raw pixel bytes) with 64-bit FNV-1a; the hash is a change
//! key for the session cache, not a cryptographic commitment.

use vstd::arithmetic::div_mod::lemma_fundamental_div_mod_converse;
use vstd::arithmetic::mul::lemma_mul_upper_bound;
use vstd::prelude::*;

use crate::cache::Raster;
use crate::pool::Colour;
use crate::pool::ObjectPool;
use crate::pool::PictureGraphic;
use crate::pool::PictureGraphicFormat;
use crate::pool::spec_color_by_index;

verus! {

/// How many palette indices one source byte yields in a given format.
pub open spec fn indices_per_byte(format: PictureGraphicFormat) -> int {
    match format {
        PictureGraphicFormat::Monochrome => 8,
        PictureGraphicFormat::FourBit => 2,
        PictureGraphicFormat::EightBit => 1,
    }
}

/// Source bytes consumed per raster row: a full row of indices, rounded up
/// to whole bytes, since leftover indices are discarded at the row end.
pub open spec fn bytes_per_row(width: int, format: PictureGraphicFormat) -> int {
    (width + indices_per_byte(format) - 1) / indices_per_byte(format)
}

/// The palette index held at `slot` (0-based, leftmost first) of byte `b`.
pub open spec fn spec_palette_index(b: u8, slot: int, format: PictureGraphicFormat) -> u8 {
    match format {
        PictureGraphicFormat::Monochrome => (b >> ((7 - slot) as u8)) & 1,
        PictureGraphicFormat::FourBit => (b >> ((4 - 4 * slot) as u8)) & 0x0f,
        PictureGraphicFormat::EightBit => b,
    }
}

/// The decoded pixel at flat row-major position `i` of the raster: `None`
/// when the source bytes run out before `i`'s row reaches it, or when the
/// transparency option masks the resolved colour; otherwise the palette
/// colour of the index found at `i`'s slot of `i`'s source byte.
pub open spec fn spec_pixel(pg: PictureGraphic, pool: ObjectPool, i: int) -> Option<Colour> {
    let w = pg.actual_width as int;
    if w <= 0 {
        None
    } else {
        let x = i % w;
        let y = i / w;
        let bi = y * bytes_per_row(w, pg.format) + x / indices_per_byte(pg.format);
        if 0 <= bi < pg.data@.len() {
            let idx = spec_palette_index(pg.data@[bi], x % indices_per_byte(pg.format), pg.format);
            let col = spec_color_by_index(pool, idx);
            if pg.options.transparent && col == spec_color_by_index(pool, pg.transparency_colour) {
                None
            } else {
                Some(col)
            }
        } else {
            None
        }
    }
}

/// The whole decoded raster, row-major, `actual_width * actual_height`
/// pixels.
pub open spec fn spec_decoded_pixels(pg: PictureGraphic, pool: ObjectPool) -> Seq<Option<Colour>> {
    Seq::new(
        (pg.actual_width as nat) * (pg.actual_height as nat),
        |i: int| spec_pixel(pg, pool, i),
    )
}

/// The palette index at `slot` of byte `b`.
fn palette_index(b: u8, slot: u16, format: PictureGraphicFormat) -> (idx: u8)
    requires
        slot < indices_per_byte(format),
    ensures
        idx == spec_palette_index(b, slot as int, format),
{
    match format {
        PictureGraphicFormat::Monochrome => (b >> ((7 - slot) as u8)) & 1,
        PictureGraphicFormat::FourBit => (b >> ((4 - 4 * slot) as u8)) & 0x0f,
        PictureGraphicFormat::EightBit => b,
    }
}

/// The pixel at column `x`, row `y` of the decoded raster.
fn compute_pixel(pg: &PictureGraphic, pool: &ObjectPool, x: u16, y: u16) -> (p: Option<Colour>)
    requires
        x < pg.actual_width,
        y < pg.actual_height,
    ensures
        p == spec_pixel(*pg, *pool, y as int * pg.actual_width as int + x as int),
{
    let w = pg.actual_width;
    let ghost i = y as int * w as int + x as int;
    proof {
        lemma_mul_upper_bound(y as int, 0xffff, w as int, 0xffff);
        lemma_fundamental_div_mod_converse(i, w as int, y as int, x as int);
        assert(i % (w as int) == x as int);
        assert(i / (w as int) == y as int);
    }
    let k: u16 = match pg.format {
        PictureGraphicFormat::Monochrome => 8,
        PictureGraphicFormat::FourBit => 2,
        PictureGraphicFormat::EightBit => 1,
    };
    let bpr: u32 = (w as u32 + k as u32 - 1) / k as u32;
    proof {
        lemma_mul_upper_bound(y as int, 0xffff, bpr as int, 0xffff);
    }
    let bi: u64 = y as u64 * bpr as u64 + (x / k) as u64;
    if bi < pg.data.len() as u64 {
        let b = pg.data[bi as usize];
        let idx = palette_index(b, x % k, pg.format);
        let col = pool.color_by_index(idx);
        if pg.options.transparent && col == pool.color_by_index(pg.transparency_colour) {
            None
        } else {
            Some(col)
        }
    } else {
        None
    }
}

impl PictureGraphic {
    /// Decodes this picture's byte stream into a raster of
    /// `actual_width * actual_height` pixels through the pool's palette.
    pub fn decode(&self, pool: &ObjectPool) -> (r: Raster)
        ensures
            r.width == self.actual_width,
            r.height == self.actual_height,
            r.pixels@ == spec_decoded_pixels(*self, *pool),
    {
        let w = self.actual_width;
        let h = self.actual_height;
        let mut pixels: Vec<Option<Colour>> = Vec::new();
        let mut y: u16 = 0;
        while y < h
            invariant
                y <= h,
                w == self.actual_width,
                h == self.actual_height,
                pixels@.len() == y as int * w as int,
                forall|i: int| 0 <= i < pixels@.len() ==> pixels@[i] == spec_pixel(*self, *pool, i),
            decreases h - y,
        {
            let mut x: u16 = 0;
            while x < w
                invariant
                    x <= w,
                    y < h,
                    w == self.actual_width,
                    h == self.actual_height,
                    pixels@.len() == y as int * w as int + x as int,
                    forall|i: int|
                        0 <= i < pixels@.len() ==> pixels@[i] == spec_pixel(*self, *pool, i),
                decreases w - x,
            {
                let p = compute_pixel(self, pool, x, y);
                pixels.push(p);
                x = x + 1;
            }
            proof {
                assert((y as int + 1) * w as int == y as int * w as int + w as int) by (nonlinear_arith);
            }
            y = y + 1;
        }
        proof {
            assert(h as int * w as int == w as int * h as int) by (nonlinear_arith);
            assert(pixels@ =~= spec_decoded_pixels(*self, *pool));
        }
        Raster { width: w, height: h, pixels }
    }

    /// The pixel height of the display region this picture paints into:
    /// the actual height scaled by the ratio of display width to actual
    /// width, clamped to the coordinate range.
    pub fn display_height(&self) -> (h: u16)
        ensures
            h == spec_display_height(*self),
    {
        if self.actual_width == 0 {
            0
        } else {
            proof {
                lemma_mul_upper_bound(self.width as int, 0xffff, self.actual_height as int, 0xffff);
            }
            let scaled: u32 = (self.width as u32 * self.actual_height as u32)
                / self.actual_width as u32;
            if scaled > 0xffff {
                0xffff
            } else {
                scaled as u16
            }
        }
    }
}

/// The display height of a picture: actual height scaled by
/// `width / actual_width`, clamped to the coordinate range.
pub open spec fn spec_display_height(pg: PictureGraphic) -> int {
    if pg.actual_width == 0 {
        0
    } else {
        let scaled = (pg.width as int * pg.actual_height as int) / pg.actual_width as int;
        if scaled > 0xffff {
            0xffff
        } else {
            scaled
        }
    }
}

/// FNV-1a offset basis.
pub const FNV_OFFSET_BASIS: u64 = 0xcbf2_9ce4_8422_2325;

/// FNV-1a prime.
pub const FNV_PRIME: u64 = 0x100_0000_01b3;

/// Multiplication on the 64-bit hash state, wrapping modulo 2^64.
pub open spec fn spec_mul_wrap(a: u64, b: u64) -> u64 {
    ((a as int * b as int) % 0x1_0000_0000_0000_0000) as u64
}

/// One FNV-1a step: fold byte `b` into state `h`.
pub open spec fn spec_fnv_step(h: u64, b: u8) -> u64 {
    spec_mul_wrap(h ^ (b as u64), FNV_PRIME)
}

/// FNV-1a over a byte sequence.
pub open spec fn spec_fnv(s: Seq<u8>) -> u64
    decreases s.len(),
{
    if s.len() == 0 {
        FNV_OFFSET_BASIS
    } else {
        spec_fnv_step(spec_fnv(s.drop_last()), s.last())
    }
}

/// The encoded form of a picture graphic: every field, the raw pixel bytes
/// last.  Multi-byte fields are little-endian.
pub open spec fn spec_picture_encoding(pg: PictureGraphic) -> Seq<u8> {
    seq![
        (pg.id % 256) as u8,
        (pg.id / 256) as u8,
        (pg.width % 256) as u8,
        (pg.width / 256) as u8,
        (pg.actual_width % 256) as u8,
        (pg.actual_width / 256) as u8,
        (pg.actual_height % 256) as u8,
        (pg.actual_height / 256) as u8,
        spec_format_code(pg.format),
        if pg.options.transparent { 1u8 } else { 0u8 },
        pg.transparency_colour,
    ] + pg.data@
}

/// A one-byte tag for the pixel format, used only inside the encoded form.
pub open spec fn spec_format_code(format: PictureGraphicFormat) -> u8 {
    match format {
        PictureGraphicFormat::Monochrome => 0,
        PictureGraphicFormat::FourBit => 1,
        PictureGraphicFormat::EightBit => 2,
    }
}

/// The content hash of a picture graphic: FNV-1a over its encoded form.
pub open spec fn spec_picture_hash(pg: PictureGraphic) -> u64 {
    spec_fnv(spec_picture_encoding(pg))
}

fn mul_wrap(a: u64, b: u64) -> (r: u64)
    ensures
        r == spec_mul_wrap(a, b),
{
    proof {
        lemma_mul_upper_bound(
            a as int,
            0xffff_ffff_ffff_ffff,
            b as int,
            0xffff_ffff_ffff_ffff,
        );
    }
    let p: u128 = (a as u128) * (b as u128);
    let r: u64 = (p % 0x1_0000_0000_0000_0000u128) as u64;
    r
}

impl PictureGraphic {
    /// The content hash of this picture's current state; any field change
    /// changes the encoded form this hashes.
    pub fn content_hash(&self) -> (h: u64)
        ensures
            h == spec_picture_hash(*self),
    {
        let mut enc: Vec<u8> = Vec::new();
        enc.push((self.id % 256) as u8);
        enc.push((self.id / 256) as u8);
        enc.push((self.width % 256) as u8);
        enc.push((self.width / 256) as u8);
        enc.push((self.actual_width % 256) as u8);
        enc.push((self.actual_width / 256) as u8);
        enc.push((self.actual_height % 256) as u8);
        enc.push((self.actual_height / 256) as u8);
        enc.push(
            match self.format {
                PictureGraphicFormat::Monochrome => 0,
                PictureGraphicFormat::FourBit => 1,
                PictureGraphicFormat::EightBit => 2,
            },
        );
        enc.push(if self.options.transparent { 1 } else { 0 });
        enc.push(self.transparency_colour);
        let ghost head = enc@;
        let n = self.data.len();
        let mut i: usize = 0;
        while i < n
            invariant
                i <= n,
                n == self.data@.len(),
                enc@ == head + self.data@.take(i as int),
            decreases n - i,
        {
            enc.push(self.data[i]);
            proof {
                assert(head + self.data@.take(i as int + 1) =~= (head + self.data@.take(i as int)).push(
                    self.data@[i as int],
                ));
            }
            i = i + 1;
        }
        proof {
            assert(self.data@.take(n as int) =~= self.data@);
            assert(enc@ =~= spec_picture_encoding(*self));
        }
        let m = enc.len();
        let mut h: u64 = FNV_OFFSET_BASIS;
        let mut j: usize = 0;
        while j < m
            invariant
                j <= m,
                m == enc@.len(),
                enc@ == spec_picture_encoding(*self),
                h == spec_fnv(enc@.take(j as int)),
            decreases m - j,
        {
            proof {
                assert(enc@.take(j as int + 1).drop_last() =~= enc@.take(j as int));
                assert(enc@.take(j as int + 1).last() == enc@[j as int]);
            }
            h = mul_wrap(h ^ (enc[j] as u64), FNV_PRIME);
            j = j + 1;
        }
        proof {
            assert(enc@.take(m as int) =~= enc@);
        }
        h
    }
}

} // verus!
