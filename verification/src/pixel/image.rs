// Decoding of the first image of an ICO file held in memory: a PNG is recognised but not
// decoded; an uncompressed 32-bit DIB is decoded into an RGBA buffer.
use vstd::prelude::*;

use crate::pixel::rgba::{cell, lemma_cell_bounds, lemma_cell_injective, PixelBuffer};

verus! {

/// Reads icon files.
pub struct ImageManager {}

/// Why an ICO could not be decoded.
#[derive(Debug, PartialEq, Eq, Structural)]
pub enum IcoError {
    /// The file ends before its header, its first directory entry or the image data.
    UnexpectedEof,
    /// The image data is too short to hold a DIB header.
    TruncatedImage,
    /// The DIB does not use 32 bits per pixel (the bit count is given).
    UnsupportedBitCount(u16),
    /// The image holds more bytes than a buffer can.
    TooLarge,
    /// The pixels run past the end of the image data.
    PixelsOutOfRange,
}

/// The little-endian 16-bit number at `i`.
pub open spec fn le16(b: Seq<u8>, i: int) -> int {
    b[i] + 256 * b[i + 1]
}

/// The little-endian 32-bit number at `i`.
pub open spec fn le32(b: Seq<u8>, i: int) -> int {
    b[i] + 256 * b[i + 1] + 65536 * b[i + 2] + 16777216 * b[i + 3]
}

/// Number of images announced by the ICO header.
pub open spec fn ico_count(f: Seq<u8>) -> int {
    le16(f, 4)
}

/// Size of the first image's data, from the first directory entry.
pub open spec fn ico_size(f: Seq<u8>) -> int {
    le32(f, 14)
}

/// Offset of the first image's data in the file.
pub open spec fn ico_offset(f: Seq<u8>) -> int {
    le32(f, 18)
}

/// The file holds its header, its first entry and the first image's data.
pub open spec fn ico_complete(f: Seq<u8>) -> bool {
    f.len() >= 22 && ico_offset(f) + ico_size(f) <= f.len()
}

/// The first image's data.
pub open spec fn ico_image(f: Seq<u8>) -> Seq<u8> {
    f.subrange(ico_offset(f), ico_offset(f) + ico_size(f))
}

/// The data starts with the PNG signature `0x89 P N G`.
pub open spec fn is_png(d: Seq<u8>) -> bool {
    d.len() >= 4 && d[0] == 0x89 && d[1] == 0x50 && d[2] == 0x4E && d[3] == 0x47
}

/// The height of the image: half the DIB height (which counts the mask too), as a signed
/// 32-bit division rounding toward zero, read back as an unsigned 32-bit number.
pub open spec fn dib_height(v: int) -> int {
    let hf = if v >= 0x8000_0000 {
        v - 0x1_0000_0000
    } else {
        v
    };
    let q = if hf >= 0 {
        hf / 2
    } else {
        -((-hf) / 2)
    };
    if q >= 0 {
        q
    } else {
        q + 0x1_0000_0000
    }
}

/// The byte of the source pixel data for channel `c` (0 red, 1 green, 2 blue, 3 alpha) of the
/// pixel `(x, y)`: rows are stored bottom-up and channels in the order blue, green, red,
/// alpha.
pub open spec fn dib_byte(d: Seq<u8>, off: int, w: int, h: int, x: int, y: int, c: int) -> u8 {
    let channel: int = if c == 0 {
        2
    } else if c == 1 {
        1
    } else if c == 2 {
        0
    } else {
        3
    };
    d[off + 4 * cell(w, x, h - 1 - y) + channel]
}

fn read_le16(b: &Vec<u8>, i: usize) -> (res: u16)
    requires
        i + 2 <= b@.len(),
    ensures
        res == le16(b@, i as int),
{
    let n: usize = b.len();
    let b0: u16 = b[i] as u16;
    let b1: u16 = b[i + 1] as u16;
    assert(b0 < 256 && b1 < 256);
    b0 + 256 * b1
}

fn read_le32(b: &Vec<u8>, i: usize) -> (res: u32)
    requires
        i + 4 <= b@.len(),
    ensures
        res == le32(b@, i as int),
{
    let n: usize = b.len();
    let b0: u32 = b[i] as u32;
    let b1: u32 = b[i + 1] as u32;
    let b2: u32 = b[i + 2] as u32;
    let b3: u32 = b[i + 3] as u32;
    assert(b0 < 256 && b1 < 256 && b2 < 256 && b3 < 256);
    b0 + 256 * b1 + 65536 * b2 + 16777216 * b3
}

/// `dib_height` of a 32-bit number.
fn half_height(v: u32) -> (res: u32)
    ensures
        res == dib_height(v as int),
{
    if v < 0x8000_0000 {
        v / 2
    } else {
        let neg: u64 = (0x1_0000_0000u64 - v as u64) / 2;
        if neg == 0 {
            0
        } else {
            (0x1_0000_0000u64 - neg) as u32
        }
    }
}

impl ImageManager {
    /// The number of images, and the size and offset of the first image's data, when the file
    /// holds its header and first directory entry.
    pub fn ico_directory(file: &Vec<u8>) -> (res: Option<(u16, u32, u32)>)
        ensures
            file@.len() >= 22 <==> res is Some,
            res matches Some((count, size, offset)) ==> count == ico_count(file@) && size
                == ico_size(file@) && offset == ico_offset(file@),
    {
        if file.len() < 22 {
            return None;
        }
        Some((read_le16(file, 4), read_le32(file, 14), read_le32(file, 18)))
    }

    /// Decodes the first image of an ICO file: `None` for a PNG (recognised, not decoded), a
    /// buffer for an uncompressed 32-bit DIB.
    pub fn decode_ico(file: &Vec<u8>) -> (res: Result<Option<PixelBuffer>, IcoError>)
        ensures
            !ico_complete(file@) ==> res == Err::<Option<PixelBuffer>, IcoError>(IcoError::UnexpectedEof),
            ico_complete(file@) ==> {
                let d = ico_image(file@);
                if is_png(d) {
                    res == Ok::<Option<PixelBuffer>, IcoError>(None)
                } else if d.len() < 16 {
                    res == Err::<Option<PixelBuffer>, IcoError>(IcoError::TruncatedImage)
                } else if le16(d, 14) != 32 {
                    res == Err::<Option<PixelBuffer>, IcoError>(IcoError::UnsupportedBitCount(le16(d, 14) as u16))
                } else {
                    let w = le32(d, 4);
                    let h = dib_height(le32(d, 8));
                    let off = le32(d, 0);
                    if w * h * 4 > u32::MAX {
                        res == Err::<Option<PixelBuffer>, IcoError>(IcoError::TooLarge)
                    } else if w > 0 && h > 0 && off + w * h * 4 > d.len() {
                        res == Err::<Option<PixelBuffer>, IcoError>(IcoError::PixelsOutOfRange)
                    } else {
                        res matches Ok(Some(b)) && b.wf() && b.width == w && b.height == h
                            && forall|x: int, y: int, c: int|
                            0 <= x < w && 0 <= y < h && 0 <= c < 4 ==> #[trigger] b.at(x, y, c)
                                == dib_byte(d, off, w, h, x, y, c)
                    }
                }
            },
    {
        if file.len() < 22 {
            return Err(IcoError::UnexpectedEof);
        }
        let size: u32 = read_le32(file, 14);
        let offset: u32 = read_le32(file, 18);
        if offset as usize > file.len() || size as usize > file.len() - offset as usize {
            return Err(IcoError::UnexpectedEof);
        }
        let start: usize = offset as usize;
        let end: usize = start + size as usize;
        let mut d: Vec<u8> = Vec::new();
        let mut k: usize = start;
        while k < end
            invariant
                start <= k <= end <= file@.len(),
                d@ == file@.subrange(start as int, k as int),
            decreases end - k,
        {
            d.push(file[k]);
            assert(file@.subrange(start as int, k + 1) =~= file@.subrange(start as int, k as int).push(file@[k as int]));
            k = k + 1;
        }
        assert(d@ == ico_image(file@));
        if d.len() >= 4 && d[0] == 0x89 && d[1] == 0x50 && d[2] == 0x4E && d[3] == 0x47 {
            return Ok(None);
        }
        if d.len() < 16 {
            return Err(IcoError::TruncatedImage);
        }
        let w: u32 = read_le32(&d, 4);
        let h: u32 = half_height(read_le32(&d, 8));
        let bpp: u16 = read_le16(&d, 14);
        if bpp != 32 {
            return Err(IcoError::UnsupportedBitCount(bpp));
        }
        let hs: u32 = read_le32(&d, 0);
        assert(w as u64 * h as u64 <= 0xffff_ffff * 0xffff_ffff) by (nonlinear_arith)
            requires
                w <= 0xffff_ffff,
                h <= 0xffff_ffff,
        ;
        let area: u64 = w as u64 * h as u64;
        if area > 0x3fff_ffffu64 {
            return Err(IcoError::TooLarge);
        }
        let total: u64 = area * 4;
        if w > 0 && h > 0 && hs as u64 + total > d.len() as u64 {
            return Err(IcoError::PixelsOutOfRange);
        }
        let ghost dd = d@;
        let dlen: usize = d.len();
        let mut buffer: PixelBuffer = PixelBuffer::new(w, h);
        let mut y: u32 = 0;
        while y < h
            invariant
                d@ == dd,
                dlen == dd.len(),
                w * h * 4 <= u32::MAX,
                w > 0 && h > 0 ==> hs + w * h * 4 <= dd.len(),
                buffer.wf(),
                buffer.width == w,
                buffer.height == h,
                y <= h,
                forall|xx: int, yy: int, c: int|
                    0 <= xx < w && 0 <= yy < y && 0 <= c < 4 ==> #[trigger] buffer.at(xx, yy, c)
                        == dib_byte(dd, hs as int, w as int, h as int, xx, yy, c),
            decreases h - y,
        {
            let mut x: u32 = 0;
            while x < w
                invariant
                    d@ == dd,
                    dlen == dd.len(),
                    w * h * 4 <= u32::MAX,
                    w > 0 && h > 0 ==> hs + w * h * 4 <= dd.len(),
                    buffer.wf(),
                    buffer.width == w,
                    buffer.height == h,
                    y < h,
                    x <= w,
                    forall|xx: int, yy: int, c: int|
                        0 <= xx < w && 0 <= yy < h && 0 <= c < 4 && (yy < y || (yy == y && xx < x))
                            ==> #[trigger] buffer.at(xx, yy, c) == dib_byte(
                            dd,
                            hs as int,
                            w as int,
                            h as int,
                            xx,
                            yy,
                            c,
                        ),
                decreases w - x,
            {
                proof {
                    lemma_cell_bounds(w as int, h as int, x as int, (h - 1 - y) as int);
                    lemma_cell_bounds(w as int, h as int, x as int, y as int);
                }
                let row: u32 = h - 1 - y;
                let rel: u32 = (row * w + x) * 4;
                assert(rel == 4 * cell(w as int, x as int, row as int));
                assert(hs + rel + 4 <= dd.len());
                let src: usize = hs as usize + rel as usize;
                let dst: usize = ((y * w + x) * 4) as usize;
                let b: u8 = d[src];
                let g: u8 = d[src + 1];
                let r: u8 = d[src + 2];
                let a: u8 = d[src + 3];
                let ghost before = buffer.pixels@;
                let ghost before_buf = buffer;
                buffer.pixels.set(dst, r);
                buffer.pixels.set(dst + 1, g);
                buffer.pixels.set(dst + 2, b);
                buffer.pixels.set(dst + 3, a);
                proof {
                    let p = cell(w as int, x as int, y as int);
                    assert(dst == 4 * p);
                    assert(src == hs + 4 * cell(w as int, x as int, h - 1 - y));
                    assert forall|xx: int, yy: int, c: int|
                        0 <= xx < w && 0 <= yy < h && 0 <= c < 4 && (yy < y || (yy == y && xx < x + 1))
                            implies #[trigger] buffer.at(xx, yy, c) == dib_byte(
                            dd,
                            hs as int,
                            w as int,
                            h as int,
                            xx,
                            yy,
                            c,
                        ) by {
                        let q = cell(w as int, xx, yy);
                        lemma_cell_bounds(w as int, h as int, xx, yy);
                        if yy == y && xx == x {
                            assert(q == p);
                            assert(buffer.pixels@[4 * p] == r && r == dd[src + 2]);
                            assert(buffer.pixels@[4 * p + 1] == g && g == dd[src + 1]);
                            assert(buffer.pixels@[4 * p + 2] == b && b == dd[src as int]);
                            assert(buffer.pixels@[4 * p + 3] == a && a == dd[src + 3]);
                        } else {
                            if q == p {
                                lemma_cell_injective(w as int, xx, yy, x as int, y as int);
                            }
                            assert(q != p);
                            assert(buffer.pixels@[4 * q + c] == before[4 * q + c]);
                            assert(before_buf.at(xx, yy, c) == dib_byte(dd, hs as int, w as int, h as int, xx, yy, c));
                        }
                    }
                }
                x = x + 1;
            }
            y = y + 1;
        }
        Ok(Some(buffer))
    }
}

} // verus!
