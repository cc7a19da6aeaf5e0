// The bytes of a BMP file holding an RGBA buffer: a 14-byte file header, a 40-byte DIB header,
// then the rows bottom-up, each pixel as blue, green, red, alpha (rows of 32-bit pixels need no
// padding).
use vstd::prelude::*;

use crate::pixel::rgba::{cell, lemma_cell_bounds, PixelBuffer};

verus! {

/// The four little-endian bytes of a 32-bit number.
pub open spec fn le32_bytes(v: int) -> Seq<u8> {
    seq![(v % 256) as u8, ((v / 256) % 256) as u8, ((v / 65536) % 256) as u8, ((v / 16777216) % 256) as u8]
}

/// The 54 header bytes of a BMP of `w` x `h` 32-bit pixels.
pub open spec fn bmp_header(w: int, h: int) -> Seq<u8> {
    let data = w * h * 4;
    seq![0x42u8, 0x4Du8] + le32_bytes(54 + data) + seq![0u8, 0u8, 0u8, 0u8] + le32_bytes(54)
        + le32_bytes(40) + le32_bytes(w) + le32_bytes(h) + seq![1u8, 0u8, 32u8, 0u8] + le32_bytes(0)
        + le32_bytes(data) + Seq::new(16, |i: int| 0u8)
}

/// The channel of an RGBA pixel stored at place `c` of a BMP pixel (blue, green, red, alpha).
pub open spec fn bgra_channel(c: int) -> int {
    if c == 0 {
        2
    } else if c == 1 {
        1
    } else if c == 2 {
        0
    } else {
        3
    }
}

/// Appends the little-endian bytes of `x`.
fn push_le32(out: &mut Vec<u8>, x: u32)
    ensures
        final(out)@ == old(out)@ + le32_bytes(x as int),
{
    let ghost start = out@;
    out.push((x % 256) as u8);
    out.push(((x / 256) % 256) as u8);
    out.push(((x / 65536) % 256) as u8);
    out.push(((x / 16777216) % 256) as u8);
    assert(out@ =~= start + le32_bytes(x as int));
}

/// The header bytes.
fn bmp_header_bytes(w: u32, h: u32) -> (res: Vec<u8>)
    requires
        54 + w * h * 4 <= u32::MAX,
    ensures
        res@ == bmp_header(w as int, h as int),
{
    let data: u32 = w * h * 4;
    let mut out: Vec<u8> = Vec::new();
    out.push(0x42);
    out.push(0x4D);
    push_le32(&mut out, 54 + data);
    out.push(0);
    out.push(0);
    out.push(0);
    out.push(0);
    let ghost a = out@;
    assert(a =~= seq![0x42u8, 0x4Du8] + le32_bytes(54 + data) + seq![0u8, 0u8, 0u8, 0u8]);
    push_le32(&mut out, 54);
    push_le32(&mut out, 40);
    push_le32(&mut out, w);
    push_le32(&mut out, h);
    out.push(1);
    out.push(0);
    out.push(32);
    out.push(0);
    let ghost b = out@;
    assert(b =~= a + le32_bytes(54) + le32_bytes(40) + le32_bytes(w as int) + le32_bytes(h as int)
        + seq![1u8, 0u8, 32u8, 0u8]);
    push_le32(&mut out, 0);
    push_le32(&mut out, data);
    let ghost c = out@;
    let mut z: usize = 0;
    while z < 16
        invariant
            z <= 16,
            out@.len() == c.len() + z,
            out@.subrange(0, c.len() as int) == c,
            forall|i: int| c.len() <= i < out@.len() ==> out@[i] == 0u8,
        decreases 16 - z,
    {
        let ghost before = out@;
        out.push(0);
        assert(out@.subrange(0, c.len() as int) =~= before.subrange(0, c.len() as int));
        z = z + 1;
    }
    assert(out@ =~= c + Seq::new(16, |i: int| 0u8));
    out
}

/// The BMP bytes `out` hold channel `c` of the pixel `(x, y)` of `b` where the file places it.
pub open spec fn pixel_written(out: Seq<u8>, b: PixelBuffer, x: int, y: int, c: int) -> bool {
    let i = 54 + 4 * cell(b.width as int, x, b.height - 1 - y) + c;
    i < out.len() && out[i] == b.at(x, y, bgra_channel(c))
}

impl PixelBuffer {
    /// The bytes of the BMP file of the buffer.
    pub fn bmp_bytes(&self) -> (res: Vec<u8>)
        requires
            self.wf(),
            54 + self.width * self.height * 4 <= u32::MAX,
        ensures
            res@.len() == 54 + self.width * self.height * 4,
            res@.subrange(0, 54) == bmp_header(self.width as int, self.height as int),
            forall|x: int, y: int, c: int|
                0 <= x < self.width && 0 <= y < self.height && 0 <= c < 4 ==> #[trigger] pixel_written(
                    res@,
                    *self,
                    x,
                    y,
                    c,
                ),
    {
        let w: u32 = self.width;
        let h: u32 = self.height;
        let mut out: Vec<u8> = bmp_header_bytes(w, h);
        let ghost header = out@;
        let mut r: u32 = 0;
        while r < h
            invariant
                self.wf(),
                w == self.width,
                h == self.height,
                r <= h,
                out@.len() == 54 + 4 * cell(w as int, 0, r as int),
                out@.subrange(0, 54) == header,
                forall|xx: int, yy: int, c: int|
                    0 <= xx < w && h - r <= yy < h && 0 <= c < 4 ==> #[trigger] pixel_written(
                        out@,
                        *self,
                        xx,
                        yy,
                        c,
                    ),
            decreases h - r,
        {
            let y: u32 = h - 1 - r;
            let mut x: u32 = 0;
            while x < w
                invariant
                    self.wf(),
                    w == self.width,
                    h == self.height,
                    r < h,
                    y == h - 1 - r,
                    x <= w,
                    out@.len() == 54 + 4 * cell(w as int, x as int, r as int),
                    out@.subrange(0, 54) == header,
                    forall|xx: int, yy: int, c: int|
                        0 <= xx < w && y <= yy < h && (yy > y || xx < x) && 0 <= c < 4
                            ==> #[trigger] pixel_written(out@, *self, xx, yy, c),
                decreases w - x,
            {
                proof {
                    lemma_cell_bounds(w as int, h as int, x as int, y as int);
                }
                let i: usize = ((y * w + x) * 4) as usize;
                let red: u8 = self.pixels[i];
                let green: u8 = self.pixels[i + 1];
                let blue: u8 = self.pixels[i + 2];
                let alpha: u8 = self.pixels[i + 3];
                let ghost before = out@;
                out.push(blue);
                out.push(green);
                out.push(red);
                out.push(alpha);
                proof {
                    assert(out@.subrange(0, 54) =~= before.subrange(0, 54));
                    assert forall|xx: int, yy: int, c: int|
                        0 <= xx < w && y <= yy < h && (yy > y || xx < x + 1) && 0 <= c < 4
                            implies #[trigger] pixel_written(out@, *self, xx, yy, c) by {
                        if yy == y && xx == x {
                            assert(h - 1 - yy == r);
                        } else {
                            assert(pixel_written(before, *self, xx, yy, c));
                        }
                    }
                }
                x = x + 1;
            }
            assert(cell(w as int, w as int, r as int) == cell(w as int, 0, r + 1)) by (nonlinear_arith);
            r = r + 1;
        }
        assert(cell(w as int, 0, h as int) == w * h) by (nonlinear_arith);
        out
    }
}

} // verus!
