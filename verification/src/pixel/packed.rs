use vstd::prelude::*;

use crate::pixel::rgba::{cell, center_start, lemma_cell_bounds, lemma_cell_injective};

verus! {

/// The 32-bit value `0xAARRGGBB` that a window surface expects for the color (r, g, b, a).
pub open spec fn packed_color(r: u8, g: u8, b: u8, a: u8) -> int {
    a * 0x100_0000 + r * 0x1_0000 + g * 0x100 + b
}

/// Reading the bytes of a packed color gives back its four components.
pub proof fn lemma_packed_color_components(p: u32, r: u8, g: u8, b: u8, a: u8)
    requires
        p == packed_color(r, g, b, a),
    ensures
        p >> 24 == a,
        (p >> 16) & 0xff == r,
        (p >> 8) & 0xff == g,
        p & 0xff == b,
{
    assert(p >> 24 == a && (p >> 16) & 0xff == r && (p >> 8) & 0xff == g && p & 0xff == b) by (bit_vector)
        requires
            p == a * 0x100_0000 + r * 0x1_0000 + g * 0x100 + b,
    ;
}

/// Two colors with the same packed value are the same color.
pub proof fn lemma_packed_color_injective(r1: u8, g1: u8, b1: u8, a1: u8, r2: u8, g2: u8, b2: u8, a2: u8)
    requires
        packed_color(r1, g1, b1, a1) == packed_color(r2, g2, b2, a2),
    ensures
        r1 == r2,
        g1 == g2,
        b1 == b2,
        a1 == a2,
{
    let p = packed_color(r1, g1, b1, a1) as u32;
    lemma_packed_color_components(p, r1, g1, b1, a1);
    lemma_packed_color_components(p, r2, g2, b2, a2);
}

/// An image of `width * height` pixels, each held as one packed `0xAARRGGBB` value, row after row.
pub struct PixelBuffer {
    pub width: usize,
    pub height: usize,
    pub pixels: Vec<u32>,
}

impl PixelBuffer {
    /// One value per pixel.
    pub open spec fn wf(&self) -> bool {
        &&& self.width * self.height <= usize::MAX
        &&& self.pixels@.len() == self.width * self.height
    }

    /// The value of the pixel in column `x` of row `y`.
    pub open spec fn at(&self, x: int, y: int) -> u32 {
        self.pixels@[cell(self.width as int, x, y)]
    }

    /// Creates a `width` x `height` buffer whose pixels are all 0.
    pub fn new(width: usize, height: usize) -> (res: Self)
        requires
            width * height <= usize::MAX,
        ensures
            res.wf(),
            res.width == width,
            res.height == height,
            forall|i: int| 0 <= i < res.pixels@.len() ==> res.pixels@[i] == 0,
    {
        PixelBuffer { width, height, pixels: vec![0; width * height] }
    }

    /// Packs the components of a color into the value `0xAARRGGBB`.
    pub fn RGBAToMinifbU32(r: u8, g: u8, b: u8, a: u8) -> (res: u32)
        ensures
            res == packed_color(r, g, b, a),
    {
        let res: u32 = ((a as u32) << 24) | ((r as u32) << 16) | ((g as u32) << 8) | (b as u32);
        assert(res == a * 0x100_0000 + r * 0x1_0000 + g * 0x100 + b) by (bit_vector)
            requires
                res == ((a as u32) << 24) | ((r as u32) << 16) | ((g as u32) << 8) | (b as u32),
        ;
        res
    }

    /// Sets every pixel to the packed color (r, g, b, a).
    pub fn FillAll(&mut self, r: u8, g: u8, b: u8, a: u8)
        ensures
            final(self).width == old(self).width,
            final(self).height == old(self).height,
            final(self).pixels@.len() == old(self).pixels@.len(),
            forall|i: int|
                0 <= i < final(self).pixels@.len() ==> #[trigger] final(self).pixels@[i]
                    == packed_color(r, g, b, a),
    {
        let pixel: u32 = Self::RGBAToMinifbU32(r, g, b, a);
        let n: usize = self.pixels.len();
        let mut i: usize = 0;
        while i < n
            invariant
                n == self.pixels@.len(),
                n == old(self).pixels@.len(),
                self.width == old(self).width,
                self.height == old(self).height,
                i <= n,
                pixel == packed_color(r, g, b, a),
                forall|j: int| 0 <= j < i ==> #[trigger] self.pixels@[j] == pixel,
            decreases n - i,
        {
            self.pixels.set(i, pixel);
            i = i + 1;
        }
    }

    /// Fills the `size` x `size` square centered in the buffer (top-left corner at
    /// `width / 2 - size / 2`, `height / 2 - size / 2`, each floored at 0), clipped to the buffer,
    /// with the packed color (r, g, b, a).
    pub fn draw_center_square(&mut self, size: usize, r: u8, g: u8, b: u8, a: u8)
        requires
            old(self).wf(),
            center_start(old(self).width as int, size as int) + size <= usize::MAX,
            center_start(old(self).height as int, size as int) + size <= usize::MAX,
        ensures
            final(self).wf(),
            final(self).width == old(self).width,
            final(self).height == old(self).height,
            forall|x: int, y: int|
                0 <= x < old(self).width && 0 <= y < old(self).height ==> #[trigger] final(self).at(x, y)
                    == if center_start(old(self).width as int, size as int) <= x < center_start(
                    old(self).width as int,
                    size as int,
                ) + size && center_start(old(self).height as int, size as int) <= y
                    < center_start(old(self).height as int, size as int) + size {
                    packed_color(r, g, b, a)
                } else {
                    old(self).at(x, y) as int
                },
    {
        let ghost old_self = *self;
        let w: usize = self.width;
        let h: usize = self.height;
        let start_x: usize = (w / 2).saturating_sub(size / 2);
        let start_y: usize = (h / 2).saturating_sub(size / 2);
        let end_x: usize = if start_x + size < w { start_x + size } else { w };
        let end_y: usize = if start_y + size < h { start_y + size } else { h };
        let pixel: u32 = Self::RGBAToMinifbU32(r, g, b, a);
        let mut y: usize = start_y;
        while y < end_y
            invariant
                self.wf(),
                self.width == w,
                self.height == h,
                old_self.wf(),
                old_self.width == w,
                old_self.height == h,
                end_x <= w,
                end_y <= h,
                end_x <= start_x + size,
                end_y <= start_y + size,
                start_x == center_start(w as int, size as int),
                start_y == center_start(h as int, size as int),
                pixel == packed_color(r, g, b, a),
                start_y <= y,
                y <= end_y || y == start_y,
                forall|xx: int, yy: int|
                    0 <= xx < w && 0 <= yy < h ==> #[trigger] self.at(xx, yy) == if start_x <= xx
                        < end_x && start_y <= yy < y {
                        pixel
                    } else {
                        old_self.at(xx, yy)
                    },
            decreases end_y - y,
        {
            let mut x: usize = start_x;
            while x < end_x
                invariant
                    self.wf(),
                    self.width == w,
                    self.height == h,
                    old_self.wf(),
                    old_self.width == w,
                    old_self.height == h,
                    end_x <= w,
                    end_y <= h,
                    start_y <= y < end_y,
                    start_x <= x,
                    x <= end_x || x == start_x,
                    forall|xx: int, yy: int|
                        0 <= xx < w && 0 <= yy < h ==> #[trigger] self.at(xx, yy) == if start_x
                            <= xx < end_x && start_y <= yy < y || yy == y && start_x <= xx < x {
                            pixel
                        } else {
                            old_self.at(xx, yy)
                        },
                decreases end_x - x,
            {
                proof {
                    lemma_cell_bounds(w as int, h as int, x as int, y as int);
                }
                let ghost before = *self;
                self.pixels.set(y * w + x, pixel);
                proof {
                    assert forall|xx: int, yy: int|
                        0 <= xx < w && 0 <= yy < h implies #[trigger] self.at(xx, yy) == if start_x
                            <= xx < end_x && start_y <= yy < y || yy == y && start_x <= xx < x + 1 {
                            pixel
                        } else {
                            old_self.at(xx, yy)
                        } by {
                        lemma_cell_bounds(w as int, h as int, xx, yy);
                        if cell(w as int, xx, yy) == cell(w as int, x as int, y as int) {
                            lemma_cell_injective(w as int, xx, yy, x as int, y as int);
                        }
                        assert(before.at(xx, yy) == before.pixels@[cell(w as int, xx, yy)]);
                    }
                }
                x = x + 1;
            }
            assert forall|xx: int, yy: int|
                0 <= xx < w && 0 <= yy < h implies #[trigger] self.at(xx, yy) == if start_x <= xx
                    < end_x && start_y <= yy < y + 1 {
                    pixel
                } else {
                    old_self.at(xx, yy)
                } by {
                if start_x < end_x {
                    assert(x == end_x);
                }
            }
            y = y + 1;
        }
        assert forall|xx: int, yy: int|
            0 <= xx < w && 0 <= yy < h implies #[trigger] self.at(xx, yy) == if start_x <= xx
                < start_x + size && start_y <= yy < start_y + size {
                pixel
            } else {
                old_self.at(xx, yy)
            } by {
            if start_y < end_y {
                assert(y == end_y);
            }
        }
    }
}

} // verus!
