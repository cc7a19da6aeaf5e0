use vstd::prelude::*;

verus! {

/// Linear position of the pixel in column `x` of row `y`, for rows `w` pixels wide.
pub open spec fn cell(w: int, x: int, y: int) -> int {
    y * w + x
}

/// A cell inside a `w` x `h` grid has a linear position inside `0 .. w * h`.
pub proof fn lemma_cell_bounds(w: int, h: int, x: int, y: int)
    requires
        0 <= x < w,
        0 <= y < h,
    ensures
        0 <= cell(w, x, y) < w * h,
        cell(w, x, y) + 1 <= w * h,
{
    assert(0 <= y * w + x < w * h) by (nonlinear_arith)
        requires
            0 <= x < w,
            0 <= y < h,
    ;
}

/// Two cells of the same grid have the same linear position only if they are the same cell.
pub proof fn lemma_cell_injective(w: int, x1: int, y1: int, x2: int, y2: int)
    requires
        0 <= x1 < w,
        0 <= x2 < w,
        0 <= y1,
        0 <= y2,
        cell(w, x1, y1) == cell(w, x2, y2),
    ensures
        x1 == x2,
        y1 == y2,
{
    if y1 < y2 {
        assert(y1 * w + w <= y2 * w) by (nonlinear_arith)
            requires
                y1 < y2,
                0 < w,
        ;
    } else if y2 < y1 {
        assert(y2 * w + w <= y1 * w) by (nonlinear_arith)
            requires
                y2 < y1,
                0 < w,
        ;
    }
}

/// The smallest of three integers.
pub open spec fn min3(a: int, b: int, c: int) -> int {
    if a <= b && a <= c {
        a
    } else if b <= c {
        b
    } else {
        c
    }
}

/// Cells of a grid are ordered by row, then by column.
pub proof fn lemma_cell_monotone(w: int, x: int, y: int, x_max: int, y_max: int)
    requires
        0 <= w,
        0 <= x <= x_max,
        0 <= y <= y_max,
    ensures
        0 <= cell(w, x, y) <= cell(w, x_max, y_max),
{
    assert(0 <= y * w <= y_max * w) by (nonlinear_arith)
        requires
            0 <= y <= y_max,
            0 <= w,
    ;
}

/// First row (or column) of a run of `size` cells centered in `len` cells: `len / 2 - size / 2`,
/// or 0 when that is negative.
pub open spec fn center_start(len: int, size: int) -> int {
    if len / 2 >= size / 2 {
        len / 2 - size / 2
    } else {
        0
    }
}

pub open spec fn min2(a: int, b: int) -> int {
    if a <= b {
        a
    } else {
        b
    }
}

/// Pixel (`x`, `y`) of a `bw` x `bh` buffer is painted by a border of the rectangle at
/// (`sx`, `sy`) of `w` x `h` pixels, with the side thicknesses clamped to the rectangle: the
/// pixel lies in the visible part of the rectangle (clipped to the buffer) and in one of the
/// bands: the first `left` columns, the last `right` visible columns, the first `top` rows or
/// the last `bottom` visible rows.
pub open spec fn on_border(
    bw: int,
    bh: int,
    sx: int,
    sy: int,
    w: int,
    h: int,
    left: int,
    right: int,
    top: int,
    bottom: int,
    x: int,
    y: int,
) -> bool {
    let ex = min2(sx + w, bw);
    let ey = min2(sy + h, bh);
    &&& sx <= x < ex
    &&& sy <= y < ey
    &&& (x < sx + min2(left, w) || ex - min2(right, w) <= x || y < sy + min2(top, h) || ey
        - min2(bottom, h) <= y)
}

pub open spec fn abs(v: int) -> int {
    if v < 0 {
        -v
    } else {
        v
    }
}

/// Offset (`rx`, `ry`) lies on one of the two diagonals of an X of the given `height` and
/// thickness `t`: the falling one (`rx == ry`) or the rising one (`rx + ry == height - 1`).
pub open spec fn on_cross(height: int, t: int, rx: int, ry: int) -> bool {
    abs(rx - ry) < t || abs(rx + ry - (height - 1)) < t
}

/// The border of a rectangle paints exactly the pixels of its visible part that lie within
/// `left` columns of its left edge, within `right` columns of its right edge or of the buffer's
/// right edge, within `top` rows of its top edge, or within `bottom` rows of its bottom edge or
/// of the buffer's bottom edge; each side has its own thickness, and no pixel outside the
/// visible part of the rectangle is painted.
pub proof fn lemma_border_bands(
    bw: int,
    bh: int,
    sx: int,
    sy: int,
    w: int,
    h: int,
    left: int,
    right: int,
    top: int,
    bottom: int,
    x: int,
    y: int,
)
    requires
        w >= 0,
        h >= 0,
        left >= 0,
        right >= 0,
        top >= 0,
        bottom >= 0,
    ensures
        (sx <= x && x < sx + w && x < bw && sy <= y && y < sy + h && y < bh) ==> (on_border(
            bw,
            bh,
            sx,
            sy,
            w,
            h,
            left,
            right,
            top,
            bottom,
            x,
            y,
        ) <==> (x < sx + left || x + right >= sx + w || x + right >= bw || y < sy + top || y
            + bottom >= sy + h || y + bottom >= bh)),
        !(sx <= x && x < sx + w && x < bw && sy <= y && y < sy + h && y < bh) ==> !on_border(
            bw,
            bh,
            sx,
            sy,
            w,
            h,
            left,
            right,
            top,
            bottom,
            x,
            y,
        ),
{
}

/// The X is symmetric: mirroring an offset left to right (`rx` to `height - 1 - rx`), top to
/// bottom, or across the falling diagonal keeps it on or off the cross.
pub proof fn lemma_cross_symmetric(height: int, t: int, rx: int, ry: int)
    ensures
        on_cross(height, t, rx, ry) == on_cross(height, t, height - 1 - rx, ry),
        on_cross(height, t, rx, ry) == on_cross(height, t, rx, height - 1 - ry),
        on_cross(height, t, rx, ry) == on_cross(height, t, ry, rx),
{
}

/// Both diagonals have the thickness `t`: every offset less than `t` rows away from the
/// falling diagonal (`ry == rx`) or from the rising one (`ry == height - 1 - rx`) is on the
/// cross, and an offset at least `t` rows away from both is not.
pub proof fn lemma_cross_thickness(height: int, t: int, rx: int, d: int)
    ensures
        -t < d < t ==> on_cross(height, t, rx, rx + d),
        -t < d < t ==> on_cross(height, t, rx, height - 1 - rx + d),
        (d >= t || d <= -t) && (rx + d - (height - 1 - rx) >= t || rx + d - (height - 1 - rx)
            <= -t) ==> !on_cross(height, t, rx, rx + d),
{
}

/// An RGBA image: `width * height` pixels of 4 bytes each, row after row.
pub struct PixelBuffer {
    pub width: u32,
    pub height: u32,
    pub pixels: Vec<u8>,
}

impl PixelBuffer {
    /// The byte vector holds exactly 4 bytes per pixel, and every byte index fits in a `u32`.
    pub open spec fn wf(&self) -> bool {
        &&& self.width * self.height * 4 <= u32::MAX
        &&& self.pixels@.len() == self.width * self.height * 4
    }

    /// Byte `c` (0 = red, 1 = green, 2 = blue, 3 = alpha) of the pixel at linear position `p`.
    pub open spec fn byte(&self, p: int, c: int) -> u8 {
        self.pixels@[4 * p + c]
    }

    /// Byte `c` of the pixel in column `x` of row `y`.
    pub open spec fn at(&self, x: int, y: int, c: int) -> u8 {
        self.byte(cell(self.width as int, x, y), c)
    }

    /// Creates a `width` x `height` buffer whose bytes are all zero (transparent black).
    pub fn new(width: u32, height: u32) -> (res: Self)
        requires
            width * height * 4 <= u32::MAX,
        ensures
            res.wf(),
            res.width == width,
            res.height == height,
            forall|i: int| 0 <= i < res.pixels@.len() ==> res.pixels@[i] == 0,
    {
        let n: u32 = width * height * 4;
        let pixels: Vec<u8> = vec![0; n as usize];
        PixelBuffer { width, height, pixels }
    }

    /// Writes `color` into the 4 bytes of the pixel at linear position `p`.
    fn put_pixel(&mut self, p: u32, color: [u8; 4])
        requires
            old(self).wf(),
            p < old(self).width * old(self).height,
        ensures
            final(self).wf(),
            final(self).width == old(self).width,
            final(self).height == old(self).height,
            forall|q: int, c: int|
                0 <= q < old(self).width * old(self).height && 0 <= c < 4
                    ==> #[trigger] final(self).byte(q, c) == if q == p {
                    color[c]
                } else {
                    old(self).byte(q, c)
                },
    {
        let i: usize = (p * 4) as usize;
        self.pixels.set(i, color[0]);
        self.pixels.set(i + 1, color[1]);
        self.pixels.set(i + 2, color[2]);
        self.pixels.set(i + 3, color[3]);
    }

    /// Paints every pixel of columns `startX .. max_x` and rows `startY .. max_y` with `color`.
    fn fill_region(&mut self, startX: u32, startY: u32, max_x: u32, max_y: u32, color: [u8; 4])
        requires
            old(self).wf(),
            max_x <= old(self).width,
            max_y <= old(self).height,
        ensures
            final(self).wf(),
            final(self).width == old(self).width,
            final(self).height == old(self).height,
            forall|x: int, y: int, c: int|
                0 <= x < old(self).width && 0 <= y < old(self).height && 0 <= c < 4
                    ==> #[trigger] final(self).at(x, y, c) == if startX <= x < max_x
                    && startY <= y < max_y {
                    color[c]
                } else {
                    old(self).at(x, y, c)
                },
    {
        let ghost old_self = *self;
        let w: u32 = self.width;
        let h: u32 = self.height;
        let mut y: u32 = startY;
        while y < max_y
            invariant
                self.wf(),
                self.width == w,
                self.height == h,
                old_self.wf(),
                old_self.width == w,
                old_self.height == h,
                max_x <= w,
                max_y <= h,
                startY <= y,
                y <= max_y || y == startY,
                forall|xx: int, yy: int, c: int|
                    0 <= xx < w && 0 <= yy < h && 0 <= c < 4 ==> #[trigger] self.at(xx, yy, c)
                        == if startX <= xx < max_x && startY <= yy < y {
                        color[c]
                    } else {
                        old_self.at(xx, yy, c)
                    },
            decreases max_y - y,
        {
            let mut x: u32 = startX;
            while x < max_x
                invariant
                    self.wf(),
                    self.width == w,
                    self.height == h,
                    old_self.wf(),
                    old_self.width == w,
                    old_self.height == h,
                    max_x <= w,
                    max_y <= h,
                    startY <= y < max_y,
                    startX <= x,
                    x <= max_x || x == startX,
                    forall|xx: int, yy: int, c: int|
                        0 <= xx < w && 0 <= yy < h && 0 <= c < 4 ==> #[trigger] self.at(xx, yy, c)
                            == if startX <= xx < max_x && startY <= yy < y || yy == y && startX
                            <= xx < x {
                            color[c]
                        } else {
                            old_self.at(xx, yy, c)
                        },
                decreases max_x - x,
            {
                proof {
                    lemma_cell_bounds(w as int, h as int, x as int, y as int);
                }
                let ghost before = *self;
                self.put_pixel(y * w + x, color);
                proof {
                    assert forall|xx: int, yy: int, c: int|
                        0 <= xx < w && 0 <= yy < h && 0 <= c < 4 implies #[trigger] self.at(
                            xx,
                            yy,
                            c,
                        ) == if startX <= xx < max_x && startY <= yy < y || yy == y && startX
                            <= xx < x + 1 {
                            color[c]
                        } else {
                            old_self.at(xx, yy, c)
                        } by {
                        lemma_cell_bounds(w as int, h as int, xx, yy);
                        assert(self.at(xx, yy, c) == self.byte(cell(w as int, xx, yy), c));
                        if cell(w as int, xx, yy) == cell(w as int, x as int, y as int) {
                            lemma_cell_injective(w as int, xx, yy, x as int, y as int);
                        }
                        assert(before.at(xx, yy, c) == before.byte(cell(w as int, xx, yy), c));
                    }
                }
                x = x + 1;
            }
            assert forall|xx: int, yy: int, c: int|
                0 <= xx < w && 0 <= yy < h && 0 <= c < 4 implies #[trigger] self.at(xx, yy, c)
                    == if startX <= xx < max_x && startY <= yy < y + 1 {
                    color[c]
                } else {
                    old_self.at(xx, yy, c)
                } by {
                if startX < max_x {
                    assert(x == max_x);
                }
            }
            y = y + 1;
        }
        assert forall|xx: int, yy: int, c: int|
            0 <= xx < w && 0 <= yy < h && 0 <= c < 4 implies #[trigger] self.at(xx, yy, c)
                == if startX <= xx < max_x && startY <= yy < max_y {
                color[c]
            } else {
                old_self.at(xx, yy, c)
            } by {
            if startY < max_y {
                assert(y == max_y);
            }
        }
    }

    /// Fills the rectangle of `width` x `height` pixels whose top-left corner is
    /// (`startX`, `startY`) with `color`, clipped to the buffer.
    pub fn DrawFullRect(&mut self, startX: u32, startY: u32, width: u32, height: u32, color: [u8; 4])
        requires
            old(self).wf(),
            startX + width <= u32::MAX,
            startY + height <= u32::MAX,
        ensures
            final(self).wf(),
            final(self).width == old(self).width,
            final(self).height == old(self).height,
            forall|x: int, y: int, c: int|
                0 <= x < old(self).width && 0 <= y < old(self).height && 0 <= c < 4
                    ==> #[trigger] final(self).at(x, y, c) == if startX <= x < startX + width
                    && startY <= y < startY + height {
                    color[c]
                } else {
                    old(self).at(x, y, c)
                },
    {
        let max_x: u32 = if startX + width < self.width { startX + width } else { self.width };
        let max_y: u32 = if startY + height < self.height { startY + height } else { self.height };
        self.fill_region(startX, startY, max_x, max_y, color);
    }

    /// Copies a `cw` x `ch` block of pixels, read from the RGBA bytes `src` of an image
    /// `src_w` pixels wide starting at its top-left corner, to the block of this buffer whose
    /// top-left corner is (`dst_x`, `dst_y`).
    fn blit(&mut self, src: &Vec<u8>, src_w: u32, dst_x: u32, dst_y: u32, cw: u32, ch: u32)
        requires
            old(self).wf(),
            cw == 0 || ch == 0 || (dst_x + cw <= old(self).width && dst_y + ch <= old(self).height
                && 4 * cell(src_w as int, cw - 1, ch - 1) + 4 <= src@.len() && 4 * cell(
                src_w as int,
                cw - 1,
                ch - 1,
            ) <= u32::MAX),
        ensures
            final(self).wf(),
            final(self).width == old(self).width,
            final(self).height == old(self).height,
            forall|x: int, y: int, c: int|
                0 <= x < old(self).width && 0 <= y < old(self).height && 0 <= c < 4
                    ==> #[trigger] final(self).at(x, y, c) == if dst_x <= x < dst_x + cw && dst_y
                    <= y < dst_y + ch {
                    src@[4 * cell(src_w as int, x - dst_x, y - dst_y) + c]
                } else {
                    old(self).at(x, y, c)
                },
    {
        if cw == 0 || ch == 0 {
            return;
        }
        let ghost old_self = *self;
        let w: u32 = self.width;
        let h: u32 = self.height;
        let mut y: u32 = 0;
        while y < ch
            invariant
                self.wf(),
                self.width == w,
                self.height == h,
                old_self.wf(),
                old_self.width == w,
                old_self.height == h,
                dst_x + cw <= w,
                dst_y + ch <= h,
                0 < cw,
                4 * cell(src_w as int, cw - 1, ch - 1) + 4 <= src@.len(),
                4 * cell(src_w as int, cw - 1, ch - 1) <= u32::MAX,
                y <= ch,
                forall|xx: int, yy: int, c: int|
                    0 <= xx < w && 0 <= yy < h && 0 <= c < 4 ==> #[trigger] self.at(xx, yy, c)
                        == if dst_x <= xx < dst_x + cw && dst_y <= yy < dst_y + y {
                        src@[4 * cell(src_w as int, xx - dst_x, yy - dst_y) + c]
                    } else {
                        old_self.at(xx, yy, c)
                    },
            decreases ch - y,
        {
            let mut x: u32 = 0;
            while x < cw
                invariant
                    self.wf(),
                    self.width == w,
                    self.height == h,
                    old_self.wf(),
                    old_self.width == w,
                    old_self.height == h,
                    dst_x + cw <= w,
                    dst_y + ch <= h,
                    4 * cell(src_w as int, cw - 1, ch - 1) + 4 <= src@.len(),
                    4 * cell(src_w as int, cw - 1, ch - 1) <= u32::MAX,
                    0 < cw,
                    y < ch,
                    x <= cw,
                    forall|xx: int, yy: int, c: int|
                        0 <= xx < w && 0 <= yy < h && 0 <= c < 4 ==> #[trigger] self.at(xx, yy, c)
                            == if dst_x <= xx < dst_x + cw && dst_y <= yy < dst_y + y || yy
                            == dst_y + y && dst_x <= xx < dst_x + x {
                            src@[4 * cell(src_w as int, xx - dst_x, yy - dst_y) + c]
                        } else {
                            old_self.at(xx, yy, c)
                        },
                decreases cw - x,
            {
                proof {
                    lemma_cell_monotone(src_w as int, x as int, y as int, cw - 1, ch - 1);
                    lemma_cell_bounds(w as int, h as int, (dst_x + x) as int, (dst_y + y) as int);
                }
                let si: usize = ((y * src_w + x) * 4) as usize;
                let color: [u8; 4] = [src[si], src[si + 1], src[si + 2], src[si + 3]];
                let ghost before = *self;
                self.put_pixel((dst_y + y) * w + (dst_x + x), color);
                proof {
                    assert forall|xx: int, yy: int, c: int|
                        0 <= xx < w && 0 <= yy < h && 0 <= c < 4 implies #[trigger] self.at(
                            xx,
                            yy,
                            c,
                        ) == if dst_x <= xx < dst_x + cw && dst_y <= yy < dst_y + y || yy == dst_y
                            + y && dst_x <= xx < dst_x + x + 1 {
                            src@[4 * cell(src_w as int, xx - dst_x, yy - dst_y) + c]
                        } else {
                            old_self.at(xx, yy, c)
                        } by {
                        lemma_cell_bounds(w as int, h as int, xx, yy);
                        assert(self.at(xx, yy, c) == self.byte(cell(w as int, xx, yy), c));
                        if cell(w as int, xx, yy) == cell(
                            w as int,
                            (dst_x + x) as int,
                            (dst_y + y) as int,
                        ) {
                            lemma_cell_injective(
                                w as int,
                                xx,
                                yy,
                                (dst_x + x) as int,
                                (dst_y + y) as int,
                            );
                        }
                        assert(before.at(xx, yy, c) == before.byte(cell(w as int, xx, yy), c));
                    }
                }
                x = x + 1;
            }
            assert forall|xx: int, yy: int, c: int|
                0 <= xx < w && 0 <= yy < h && 0 <= c < 4 implies #[trigger] self.at(xx, yy, c)
                    == if dst_x <= xx < dst_x + cw && dst_y <= yy < dst_y + y + 1 {
                    src@[4 * cell(src_w as int, xx - dst_x, yy - dst_y) + c]
                } else {
                    old_self.at(xx, yy, c)
                } by {
                assert(x == cw);
            }
            y = y + 1;
        }
    }

    /// Copies the top-left corner of `pixelBuffer` into the top-left corner of this buffer,
    /// over the rows and columns that both buffers have.
    pub fn CopyFromBuffer(&mut self, pixelBuffer: &PixelBuffer)
        requires
            old(self).wf(),
            pixelBuffer.wf(),
        ensures
            final(self).wf(),
            final(self).width == old(self).width,
            final(self).height == old(self).height,
            forall|x: int, y: int, c: int|
                0 <= x < old(self).width && 0 <= y < old(self).height && 0 <= c < 4
                    ==> #[trigger] final(self).at(x, y, c) == if x < pixelBuffer.width && y
                    < pixelBuffer.height {
                    pixelBuffer.at(x, y, c)
                } else {
                    old(self).at(x, y, c)
                },
    {
        let cw: u32 = if self.width < pixelBuffer.width { self.width } else { pixelBuffer.width };
        let ch: u32 = if self.height < pixelBuffer.height { self.height } else { pixelBuffer.height };
        proof {
            if cw > 0 && ch > 0 {
                lemma_cell_bounds(pixelBuffer.width as int, pixelBuffer.height as int, cw - 1, ch - 1);
            }
        }
        self.blit(&pixelBuffer.pixels, pixelBuffer.width, 0, 0, cw, ch);
    }

    /// Copies the top-left corner of an RGBA image given as raw bytes (`width` pixels per row)
    /// into the top-left corner of this buffer, over the rows and columns that both have.
    pub fn CopyFromVecteur(&mut self, pixels: Vec<u8>, width: u32, height: u32)
        requires
            old(self).wf(),
            ({
                let cw = if old(self).width < width { old(self).width } else { width };
                let ch = if old(self).height < height { old(self).height } else { height };
                cw == 0 || ch == 0 || (4 * cell(width as int, cw - 1, ch - 1) + 4 <= pixels@.len()
                    && 4 * cell(width as int, cw - 1, ch - 1) <= u32::MAX)
            }),
        ensures
            final(self).wf(),
            final(self).width == old(self).width,
            final(self).height == old(self).height,
            forall|x: int, y: int, c: int|
                0 <= x < old(self).width && 0 <= y < old(self).height && 0 <= c < 4
                    ==> #[trigger] final(self).at(x, y, c) == if x < width && y < height {
                    pixels@[4 * cell(width as int, x, y) + c]
                } else {
                    old(self).at(x, y, c)
                },
    {
        let cw: u32 = if self.width < width { self.width } else { width };
        let ch: u32 = if self.height < height { self.height } else { height };
        self.blit(&pixels, width, 0, 0, cw, ch);
    }

    /// Copies the top-left corner of `src` to the area of this buffer whose top-left corner is
    /// (`dst_x`, `dst_y`); at most `dst_width` x `dst_height` pixels are copied, and never more
    /// than `src` has or than fits in this buffer.
    pub fn CopyRegionTo(&mut self, src: &PixelBuffer, dst_x: u32, dst_y: u32, dst_width: u32, dst_height: u32)
        requires
            old(self).wf(),
            src.wf(),
        ensures
            final(self).wf(),
            final(self).width == old(self).width,
            final(self).height == old(self).height,
            forall|x: int, y: int, c: int|
                0 <= x < old(self).width && 0 <= y < old(self).height && 0 <= c < 4
                    ==> #[trigger] final(self).at(x, y, c) == if dst_x <= x < dst_x + min3(
                    src.width as int,
                    dst_width as int,
                    old(self).width - dst_x,
                ) && dst_y <= y < dst_y + min3(
                    src.height as int,
                    dst_height as int,
                    old(self).height - dst_y,
                ) {
                    src.at(x - dst_x, y - dst_y, c)
                } else {
                    old(self).at(x, y, c)
                },
    {
        let room_x: u32 = self.width.saturating_sub(dst_x);
        let room_y: u32 = self.height.saturating_sub(dst_y);
        let mut cw: u32 = if src.width < dst_width { src.width } else { dst_width };
        if room_x < cw {
            cw = room_x;
        }
        let mut ch: u32 = if src.height < dst_height { src.height } else { dst_height };
        if room_y < ch {
            ch = room_y;
        }
        proof {
            if cw > 0 && ch > 0 {
                lemma_cell_bounds(src.width as int, src.height as int, cw - 1, ch - 1);
            }
        }
        self.blit(&src.pixels, src.width, dst_x, dst_y, cw, ch);
    }
    /// Resizes the buffer to `width` x `height`, keeping the pixels of the top-left area that
    /// the old and new sizes share; the new pixels are zero.
    pub fn SetSize(&mut self, width: u32, height: u32)
        requires
            old(self).wf(),
            width * height * 4 <= u32::MAX,
        ensures
            final(self).wf(),
            final(self).width == width,
            final(self).height == height,
            forall|x: int, y: int, c: int|
                0 <= x < width && 0 <= y < height && 0 <= c < 4 ==> #[trigger] final(self).at(x, y, c)
                    == if x < old(self).width && y < old(self).height {
                    old(self).at(x, y, c)
                } else {
                    0
                },
    {
        let mut newBuffer: PixelBuffer = PixelBuffer::new(width, height);
        proof {
            assert forall|x: int, y: int, c: int|
                0 <= x < width && 0 <= y < height && 0 <= c < 4 implies #[trigger] newBuffer.at(
                    x,
                    y,
                    c,
                ) == 0 by {
                lemma_cell_bounds(width as int, height as int, x, y);
            }
        }
        newBuffer.CopyFromBuffer(self);
        self.width = newBuffer.width;
        self.height = newBuffer.height;
        self.pixels = newBuffer.pixels;
    }

    /// Paints every pixel with `color`: each complete group of 4 bytes receives the color, a
    /// trailing incomplete group is left as it is.
    pub fn FillAll(&mut self, color: [u8; 4])
        ensures
            final(self).width == old(self).width,
            final(self).height == old(self).height,
            final(self).pixels@.len() == old(self).pixels@.len(),
            forall|i: int|
                0 <= i < old(self).pixels@.len() / 4 * 4 ==> #[trigger] final(self).pixels@[i]
                    == color[i % 4],
            forall|i: int|
                old(self).pixels@.len() / 4 * 4 <= i < old(self).pixels@.len()
                    ==> #[trigger] final(self).pixels@[i] == old(self).pixels@[i],
            old(self).wf() ==> final(self).wf(),
            old(self).wf() ==> forall|x: int, y: int, c: int|
                0 <= x < old(self).width && 0 <= y < old(self).height && 0 <= c < 4
                    ==> #[trigger] final(self).at(x, y, c) == color[c],
    {
        let ghost old_pixels = self.pixels@;
        let len: usize = self.pixels.len();
        let n: usize = len / 4;
        let mut k: usize = 0;
        while k < n
            invariant
                n == old_pixels.len() / 4,
                len == old_pixels.len(),
                k <= n,
                self.width == old(self).width,
                self.height == old(self).height,
                old_pixels == old(self).pixels@,
                self.pixels@.len() == old_pixels.len(),
                forall|i: int| 0 <= i < 4 * k ==> #[trigger] self.pixels@[i] == color[i % 4],
                forall|i: int|
                    4 * k <= i < old_pixels.len() ==> #[trigger] self.pixels@[i] == old_pixels[i],
            decreases n - k,
        {
            let i: usize = 4 * k;
            self.pixels.set(i, color[0]);
            self.pixels.set(i + 1, color[1]);
            self.pixels.set(i + 2, color[2]);
            self.pixels.set(i + 3, color[3]);
            k = k + 1;
        }
        proof {
            if old(self).wf() {
                assert forall|x: int, y: int, c: int|
                    0 <= x < old(self).width && 0 <= y < old(self).height && 0 <= c < 4 implies #[trigger] self.at(
                        x,
                        y,
                        c,
                    ) == color[c] by {
                    lemma_cell_bounds(self.width as int, self.height as int, x, y);
                    let i = 4 * cell(self.width as int, x, y) + c;
                    assert(i % 4 == c);
                    assert(self.at(x, y, c) == self.pixels@[i]);
                }
            }
        }
    }

    /// Fills the `size` x `size` square centered in the buffer with `color`: its top-left corner
    /// is (`width / 2 - size / 2`, `height / 2 - size / 2`), each coordinate floored at 0.
    pub fn DrawCenterFullSquare(&mut self, size: u32, color: [u8; 4])
        requires
            old(self).wf(),
            center_start(old(self).width as int, size as int) + size <= u32::MAX,
            center_start(old(self).height as int, size as int) + size <= u32::MAX,
        ensures
            final(self).wf(),
            final(self).width == old(self).width,
            final(self).height == old(self).height,
            forall|x: int, y: int, c: int|
                0 <= x < old(self).width && 0 <= y < old(self).height && 0 <= c < 4
                    ==> #[trigger] final(self).at(x, y, c) == if center_start(
                    old(self).width as int,
                    size as int,
                ) <= x < center_start(old(self).width as int, size as int) + size
                    && center_start(old(self).height as int, size as int) <= y < center_start(
                    old(self).height as int,
                    size as int,
                ) + size {
                    color[c]
                } else {
                    old(self).at(x, y, c)
                },
    {
        let sx: u32 = (self.width / 2).saturating_sub(size / 2);
        let sy: u32 = (self.height / 2).saturating_sub(size / 2);
        self.DrawFullRect(sx, sy, size, size, color);
    }

    /// Sets each pixel (x, y) of this buffer to the pixel (`cols[x]`, `rows[y]`) of `src`.
    pub fn copy_sampled(&mut self, src: &PixelBuffer, cols: &Vec<u32>, rows: &Vec<u32>)
        requires
            old(self).wf(),
            src.wf(),
            cols@.len() == old(self).width,
            rows@.len() == old(self).height,
            forall|i: int| 0 <= i < cols@.len() ==> #[trigger] cols@[i] < src.width,
            forall|j: int| 0 <= j < rows@.len() ==> #[trigger] rows@[j] < src.height,
        ensures
            final(self).wf(),
            final(self).width == old(self).width,
            final(self).height == old(self).height,
            forall|x: int, y: int, c: int|
                0 <= x < old(self).width && 0 <= y < old(self).height && 0 <= c < 4
                    ==> #[trigger] final(self).at(x, y, c) == src.at(
                    cols@[x] as int,
                    rows@[y] as int,
                    c,
                ),
    {
        let ghost old_self = *self;
        let w: u32 = self.width;
        let h: u32 = self.height;
        let mut y: u32 = 0;
        while y < h
            invariant
                self.wf(),
                self.width == w,
                self.height == h,
                old_self.wf(),
                old_self.width == w,
                old_self.height == h,
                src.wf(),
                cols@.len() == w,
                rows@.len() == h,
                forall|i: int| 0 <= i < cols@.len() ==> #[trigger] cols@[i] < src.width,
                forall|j: int| 0 <= j < rows@.len() ==> #[trigger] rows@[j] < src.height,
                y <= h,
                forall|xx: int, yy: int, c: int|
                    0 <= xx < w && 0 <= yy < h && 0 <= c < 4 ==> #[trigger] self.at(xx, yy, c)
                        == if yy < y {
                        src.at(cols@[xx] as int, rows@[yy] as int, c)
                    } else {
                        old_self.at(xx, yy, c)
                    },
            decreases h - y,
        {
            let mut x: u32 = 0;
            while x < w
                invariant
                    self.wf(),
                    self.width == w,
                    self.height == h,
                    old_self.wf(),
                    old_self.width == w,
                    old_self.height == h,
                    src.wf(),
                    cols@.len() == w,
                    rows@.len() == h,
                    forall|i: int| 0 <= i < cols@.len() ==> #[trigger] cols@[i] < src.width,
                    forall|j: int| 0 <= j < rows@.len() ==> #[trigger] rows@[j] < src.height,
                    y < h,
                    x <= w,
                    forall|xx: int, yy: int, c: int|
                        0 <= xx < w && 0 <= yy < h && 0 <= c < 4 ==> #[trigger] self.at(xx, yy, c)
                            == if yy < y || yy == y && xx < x {
                            src.at(cols@[xx] as int, rows@[yy] as int, c)
                        } else {
                            old_self.at(xx, yy, c)
                        },
                decreases w - x,
            {
                let sx: u32 = cols[x as usize];
                let sy: u32 = rows[y as usize];
                proof {
                    lemma_cell_bounds(src.width as int, src.height as int, sx as int, sy as int);
                    lemma_cell_bounds(w as int, h as int, x as int, y as int);
                }
                let si: usize = ((sy * src.width + sx) * 4) as usize;
                let color: [u8; 4] = [
                    src.pixels[si],
                    src.pixels[si + 1],
                    src.pixels[si + 2],
                    src.pixels[si + 3],
                ];
                let ghost before = *self;
                self.put_pixel(y * w + x, color);
                proof {
                    assert forall|xx: int, yy: int, c: int|
                        0 <= xx < w && 0 <= yy < h && 0 <= c < 4 implies #[trigger] self.at(
                            xx,
                            yy,
                            c,
                        ) == if yy < y || yy == y && xx < x + 1 {
                            src.at(cols@[xx] as int, rows@[yy] as int, c)
                        } else {
                            old_self.at(xx, yy, c)
                        } by {
                        lemma_cell_bounds(w as int, h as int, xx, yy);
                        assert(self.at(xx, yy, c) == self.byte(cell(w as int, xx, yy), c));
                        if cell(w as int, xx, yy) == cell(w as int, x as int, y as int) {
                            lemma_cell_injective(w as int, xx, yy, x as int, y as int);
                        }
                        assert(before.at(xx, yy, c) == before.byte(cell(w as int, xx, yy), c));
                    }
                }
                x = x + 1;
            }
            y = y + 1;
        }
    }
    /// Draws the border of the `width` x `height` rectangle whose top-left corner is
    /// (`startX`, `startY`), with the given thickness on each side (each clamped to the
    /// rectangle's size), clipped to the buffer: the right and bottom bands end at the visible
    /// right and bottom edges.
    pub fn DrawBorder(
        &mut self,
        startX: u32,
        startY: u32,
        width: u32,
        height: u32,
        thickness_left: u32,
        thickness_right: u32,
        thickness_top: u32,
        thickness_bottom: u32,
        color: [u8; 4],
    )
        requires
            old(self).wf(),
            startX + width <= u32::MAX,
            startY + height <= u32::MAX,
        ensures
            final(self).wf(),
            final(self).width == old(self).width,
            final(self).height == old(self).height,
            forall|x: int, y: int, c: int|
                0 <= x < old(self).width && 0 <= y < old(self).height && 0 <= c < 4
                    ==> #[trigger] final(self).at(x, y, c) == if on_border(
                    old(self).width as int,
                    old(self).height as int,
                    startX as int,
                    startY as int,
                    width as int,
                    height as int,
                    thickness_left as int,
                    thickness_right as int,
                    thickness_top as int,
                    thickness_bottom as int,
                    x,
                    y,
                ) {
                    color[c]
                } else {
                    old(self).at(x, y, c)
                },
    {
        let w: u32 = self.width;
        let h: u32 = self.height;
        let end_x: u32 = if startX + width < w { startX + width } else { w };
        let end_y: u32 = if startY + height < h { startY + height } else { h };
        let thick_left: u32 = if thickness_left < width { thickness_left } else { width };
        let thick_right: u32 = if thickness_right < width { thickness_right } else { width };
        let thick_top: u32 = if thickness_top < height { thickness_top } else { height };
        let thick_bottom: u32 = if thickness_bottom < height { thickness_bottom } else { height };
        let top_end: u32 = if startY + thick_top < end_y { startY + thick_top } else { end_y };
        let bottom_start: u32 = if end_y >= startY + thick_bottom {
            end_y - thick_bottom
        } else {
            startY
        };
        let left_end: u32 = if startX + thick_left < end_x { startX + thick_left } else { end_x };
        let right_start: u32 = if end_x >= startX + thick_right {
            end_x - thick_right
        } else {
            startX
        };
        let ghost s0 = *self;
        self.fill_region(startX, startY, end_x, top_end, color);
        let ghost s1 = *self;
        self.fill_region(startX, bottom_start, end_x, end_y, color);
        let ghost s2 = *self;
        self.fill_region(startX, startY, left_end, end_y, color);
        let ghost s3 = *self;
        self.fill_region(right_start, startY, end_x, end_y, color);
        assert forall|x: int, y: int, c: int|
            0 <= x < w && 0 <= y < h && 0 <= c < 4 implies #[trigger] self.at(x, y, c) == if on_border(
                w as int,
                h as int,
                startX as int,
                startY as int,
                width as int,
                height as int,
                thickness_left as int,
                thickness_right as int,
                thickness_top as int,
                thickness_bottom as int,
                x,
                y,
            ) {
                color[c]
            } else {
                s0.at(x, y, c)
            } by {
            assert(s3.at(x, y, c) == if startX <= x < left_end && startY <= y < end_y {
                color[c]
            } else {
                s2.at(x, y, c)
            });
            assert(s2.at(x, y, c) == if startX <= x < end_x && bottom_start <= y < end_y {
                color[c]
            } else {
                s1.at(x, y, c)
            });
            assert(s1.at(x, y, c) == if startX <= x < end_x && startY <= y < top_end {
                color[c]
            } else {
                s0.at(x, y, c)
            });
        }
    }

    /// Draws an X inside the `width` x `height` area whose top-left corner is
    /// (`startX`, `startY`): the pixel at offset (rx, ry) in the area is painted when
    /// |rx - ry| or |rx + ry - (height - 1)| is below `thickness` read as an `i32`: the two
    /// diagonals of the area; pixels outside the buffer are skipped.
    pub fn DrawCross(
        &mut self,
        startX: u32,
        startY: u32,
        width: u32,
        height: u32,
        thickness: u32,
        color: [u8; 4],
    )
        requires
            old(self).wf(),
            width == 0 || height == 0 || (width + height <= 0x8000_0001 && height <= 0x7fff_ffff
                && startX + width - 1 <= u32::MAX && startY + height - 1 <= u32::MAX),
        ensures
            final(self).wf(),
            final(self).width == old(self).width,
            final(self).height == old(self).height,
            forall|x: int, y: int, c: int|
                0 <= x < old(self).width && 0 <= y < old(self).height && 0 <= c < 4
                    ==> #[trigger] final(self).at(x, y, c) == if startX <= x < startX + width
                    && startY <= y < startY + height && on_cross(
                    height as int,
                    (thickness as i32) as int,
                    x - startX,
                    y - startY,
                ) {
                    color[c]
                } else {
                    old(self).at(x, y, c)
                },
    {
        if width == 0 || height == 0 {
            return;
        }
        let ghost old_self = *self;
        let bw: u32 = self.width;
        let bh: u32 = self.height;
        let t: i32 = thickness as i32;
        let hh: i32 = height as i32;
        let mut y: u32 = 0;
        while y < height
            invariant
                self.wf(),
                self.width == bw,
                self.height == bh,
                old_self.wf(),
                old_self.width == bw,
                old_self.height == bh,
                0 < width,
                width + height <= 0x8000_0001,
                height <= 0x7fff_ffff,
                startX + width - 1 <= u32::MAX,
                startY + height - 1 <= u32::MAX,
                t as int == (thickness as i32) as int,
                hh as int == height as int,
                y <= height,
                forall|xx: int, yy: int, c: int|
                    0 <= xx < bw && 0 <= yy < bh && 0 <= c < 4 ==> #[trigger] self.at(xx, yy, c)
                        == if startX <= xx < startX + width && startY <= yy < startY + y
                        && on_cross(height as int, t as int, xx - startX, yy - startY) {
                        color[c]
                    } else {
                        old_self.at(xx, yy, c)
                    },
            decreases height - y,
        {
            let mut x: u32 = 0;
            while x < width
                invariant
                    self.wf(),
                    self.width == bw,
                    self.height == bh,
                    old_self.wf(),
                    old_self.width == bw,
                    old_self.height == bh,
                    0 < width,
                    width + height <= 0x8000_0001,
                    height <= 0x7fff_ffff,
                    startX + width - 1 <= u32::MAX,
                    startY + height - 1 <= u32::MAX,
                    t as int == (thickness as i32) as int,
                    hh as int == height as int,
                    y < height,
                    x <= width,
                    forall|xx: int, yy: int, c: int|
                        0 <= xx < bw && 0 <= yy < bh && 0 <= c < 4 ==> #[trigger] self.at(xx, yy, c)
                            == if (startX <= xx < startX + width && startY <= yy < startY + y
                            || yy == startY + y && startX <= xx < startX + x) && on_cross(
                            height as int,
                            t as int,
                            xx - startX,
                            yy - startY,
                        ) {
                            color[c]
                        } else {
                            old_self.at(xx, yy, c)
                        },
                decreases width - x,
            {
                let rel_x: i32 = x as i32;
                let rel_y: i32 = y as i32;
                let d1: i32 = rel_x - rel_y;
                let a1: i32 = if d1 < 0 { -d1 } else { d1 };
                let d2: i32 = rel_x + rel_y - hh + 1;
                let a2: i32 = if d2 < 0 { -d2 } else { d2 };
                let ghost before = *self;
                if a1 < t || a2 < t {
                    let px: u32 = startX + x;
                    let py: u32 = startY + y;
                    if px < bw && py < bh {
                        proof {
                            lemma_cell_bounds(bw as int, bh as int, px as int, py as int);
                        }
                        self.put_pixel(py * bw + px, color);
                    }
                }
                proof {
                    assert(on_cross(height as int, t as int, x as int, y as int) == (a1 < t || a2 < t));
                    assert forall|xx: int, yy: int, c: int|
                        0 <= xx < bw && 0 <= yy < bh && 0 <= c < 4 implies #[trigger] self.at(
                            xx,
                            yy,
                            c,
                        ) == if (startX <= xx < startX + width && startY <= yy < startY + y || yy
                            == startY + y && startX <= xx < startX + x + 1) && on_cross(
                            height as int,
                            t as int,
                            xx - startX,
                            yy - startY,
                        ) {
                            color[c]
                        } else {
                            old_self.at(xx, yy, c)
                        } by {
                        lemma_cell_bounds(bw as int, bh as int, xx, yy);
                        assert(self.at(xx, yy, c) == self.byte(cell(bw as int, xx, yy), c));
                        assert(before.at(xx, yy, c) == before.byte(cell(bw as int, xx, yy), c));
                        let px = startX + x;
                        let py = startY + y;
                        if px < bw && py < bh && cell(bw as int, xx, yy) == cell(bw as int, px, py) {
                            lemma_cell_injective(bw as int, xx, yy, px, py);
                        }
                    }
                }
                x = x + 1;
            }
            y = y + 1;
        }
    }
}

} // verus!
