// Text listings of an RGBA buffer: a summary with one line per pixel, and a raw listing with
// one line per row.
use vstd::prelude::*;

use crate::pixel::rgba::{cell, lemma_cell_bounds, PixelBuffer};
use crate::text::{nat_decimal, push_u64_decimal};

verus! {

/// `PixelBuffer: WxH`, then `Total pixels: N` (the number of bytes over 4), each on its line.
pub open spec fn dump_head(b: PixelBuffer) -> Seq<char> {
    "PixelBuffer: "@ + nat_decimal(b.width as nat) + "x"@ + nat_decimal(b.height as nat) + "\n"@
        + "Total pixels: "@ + nat_decimal((b.pixels@.len() / 4) as nat) + "\n"@
}

/// `(x,y): RGBA(r, g, b, a)` and a line break.
pub open spec fn summary_line(b: PixelBuffer, x: int, y: int) -> Seq<char> {
    "("@ + nat_decimal(x as nat) + ","@ + nat_decimal(y as nat) + "): RGBA("@ + nat_decimal(
        b.at(x, y, 0) as nat,
    ) + ", "@ + nat_decimal(b.at(x, y, 1) as nat) + ", "@ + nat_decimal(b.at(x, y, 2) as nat)
        + ", "@ + nat_decimal(b.at(x, y, 3) as nat) + ")\n"@
}

/// The summary lines of the first `n` pixels of row `y`.
pub open spec fn summary_row(b: PixelBuffer, y: int, n: nat) -> Seq<char>
    decreases n,
{
    if n == 0 {
        Seq::<char>::empty()
    } else {
        summary_row(b, y, (n - 1) as nat) + summary_line(b, n - 1, y)
    }
}

/// The summary lines of the first `m` rows.
pub open spec fn summary_rows(b: PixelBuffer, m: nat) -> Seq<char>
    decreases m,
{
    if m == 0 {
        Seq::<char>::empty()
    } else {
        summary_rows(b, (m - 1) as nat) + summary_row(b, m - 1, b.width as nat)
    }
}

/// `(r, g, b, a)` of one pixel.
pub open spec fn raw_pixel(b: PixelBuffer, x: int, y: int) -> Seq<char> {
    "("@ + nat_decimal(b.at(x, y, 0) as nat) + ", "@ + nat_decimal(b.at(x, y, 1) as nat) + ", "@
        + nat_decimal(b.at(x, y, 2) as nat) + ", "@ + nat_decimal(b.at(x, y, 3) as nat) + ")"@
}

/// The first `n` pixels of row `y`, one after the other.
pub open spec fn raw_row(b: PixelBuffer, y: int, n: nat) -> Seq<char>
    decreases n,
{
    if n == 0 {
        Seq::<char>::empty()
    } else {
        raw_row(b, y, (n - 1) as nat) + raw_pixel(b, n - 1, y)
    }
}

/// The first `m` rows, each followed by a space and a line break.
pub open spec fn raw_rows(b: PixelBuffer, m: nat) -> Seq<char>
    decreases m,
{
    if m == 0 {
        Seq::<char>::empty()
    } else {
        raw_rows(b, (m - 1) as nat) + raw_row(b, m - 1, b.width as nat) + " \n"@
    }
}

/// The summary text of a buffer: the head, then one line per pixel, row after row.
pub open spec fn summary_text(b: PixelBuffer) -> Seq<char> {
    dump_head(b) + summary_rows(b, b.height as nat)
}

/// The raw text of a buffer: the head, `[`, the rows, `]` and a line break.
pub open spec fn raw_text(b: PixelBuffer) -> Seq<char> {
    dump_head(b) + "["@ + raw_rows(b, b.height as nat) + "]\n"@
}

impl PixelBuffer {
    fn push_head(&self, s: &mut String)
        requires
            self.wf(),
        ensures
            final(s)@ == old(s)@ + dump_head(*self),
    {
        let ghost start = s@;
        s.append("PixelBuffer: ");
        push_u64_decimal(s, self.width as u64);
        s.append("x");
        push_u64_decimal(s, self.height as u64);
        s.append("\n");
        s.append("Total pixels: ");
        push_u64_decimal(s, (self.pixels.len() / 4) as u64);
        s.append("\n");
        assert(s@ =~= start + dump_head(*self));
    }

    /// Appends the four channels of the pixel at byte `i`, separated by `, `.
    fn push_channels(&self, s: &mut String, i: usize, x: u32, y: u32)
        requires
            self.wf(),
            x < self.width,
            y < self.height,
            i == 4 * cell(self.width as int, x as int, y as int),
        ensures
            final(s)@ == old(s)@ + nat_decimal(self.at(x as int, y as int, 0) as nat) + ", "@
                + nat_decimal(self.at(x as int, y as int, 1) as nat) + ", "@ + nat_decimal(
                self.at(x as int, y as int, 2) as nat,
            ) + ", "@ + nat_decimal(self.at(x as int, y as int, 3) as nat),
    {
        proof {
            lemma_cell_bounds(self.width as int, self.height as int, x as int, y as int);
        }
        let ghost start = s@;
        push_u64_decimal(s, self.pixels[i] as u64);
        s.append(", ");
        push_u64_decimal(s, self.pixels[i + 1] as u64);
        s.append(", ");
        push_u64_decimal(s, self.pixels[i + 2] as u64);
        s.append(", ");
        push_u64_decimal(s, self.pixels[i + 3] as u64);
        assert(s@ =~= start + nat_decimal(self.at(x as int, y as int, 0) as nat) + ", "@
            + nat_decimal(self.at(x as int, y as int, 1) as nat) + ", "@ + nat_decimal(
            self.at(x as int, y as int, 2) as nat,
        ) + ", "@ + nat_decimal(self.at(x as int, y as int, 3) as nat));
    }

    /// The summary text: the size, the pixel count, then `(x,y): RGBA(r, g, b, a)` for each
    /// pixel, row after row.
    pub fn summary_text(&self) -> (res: String)
        requires
            self.wf(),
        ensures
            res@ == summary_text(*self),
    {
        let mut s: String = String::new();
        self.push_head(&mut s);
        let ghost head = s@;
        let w: u32 = self.width;
        let h: u32 = self.height;
        let mut y: u32 = 0;
        while y < h
            invariant
                self.wf(),
                w == self.width,
                h == self.height,
                y <= h,
                s@ == head + summary_rows(*self, y as nat),
            decreases h - y,
        {
            let ghost row_start = s@;
            let mut x: u32 = 0;
            while x < w
                invariant
                    self.wf(),
                    w == self.width,
                    h == self.height,
                    y < h,
                    x <= w,
                    s@ == row_start + summary_row(*self, y as int, x as nat),
                decreases w - x,
            {
                proof {
                    lemma_cell_bounds(w as int, h as int, x as int, y as int);
                }
                let i: usize = ((y * w + x) * 4) as usize;
                let ghost before = s@;
                s.append("(");
                push_u64_decimal(&mut s, x as u64);
                s.append(",");
                push_u64_decimal(&mut s, y as u64);
                s.append("): RGBA(");
                self.push_channels(&mut s, i, x, y);
                s.append(")\n");
                assert(s@ =~= before + summary_line(*self, x as int, y as int));
                x = x + 1;
            }
            y = y + 1;
        }
        s
    }

    /// The raw text: the size, the pixel count, then `[`, each row as its pixels
    /// `(r, g, b, a)` followed by ` ` and a line break, and `]`.
    pub fn raw_text(&self) -> (res: String)
        requires
            self.wf(),
        ensures
            res@ == raw_text(*self),
    {
        let mut s: String = String::new();
        self.push_head(&mut s);
        s.append("[");
        let ghost head = s@;
        let w: u32 = self.width;
        let h: u32 = self.height;
        let mut y: u32 = 0;
        while y < h
            invariant
                self.wf(),
                w == self.width,
                h == self.height,
                y <= h,
                s@ == head + raw_rows(*self, y as nat),
            decreases h - y,
        {
            let ghost row_start = s@;
            let mut x: u32 = 0;
            while x < w
                invariant
                    self.wf(),
                    w == self.width,
                    h == self.height,
                    y < h,
                    x <= w,
                    s@ == row_start + raw_row(*self, y as int, x as nat),
                decreases w - x,
            {
                proof {
                    lemma_cell_bounds(w as int, h as int, x as int, y as int);
                }
                let i: usize = ((y * w + x) * 4) as usize;
                let ghost before = s@;
                s.append("(");
                self.push_channels(&mut s, i, x, y);
                s.append(")");
                assert(s@ =~= before + raw_pixel(*self, x as int, y as int));
                x = x + 1;
            }
            s.append(" \n");
            y = y + 1;
        }
        s.append("]\n");
        s
    }
}

} // verus!
