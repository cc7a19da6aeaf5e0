// Laws of the summary listing: how each line names its pixel, and in which order the pixels
// come.
use vstd::prelude::*;

use crate::pixel::dump::{dump_head, summary_line, summary_row, summary_rows, summary_text};
use crate::pixel::rgba::PixelBuffer;
use crate::text::nat_decimal;

verus! {

/// The summary lines of row `y`, one per column from the left.
pub open spec fn row_lines(b: PixelBuffer, y: int, n: nat) -> Seq<Seq<char>> {
    Seq::new(n, |x: int| summary_line(b, x, y))
}

/// The first `n` summary lines in reading order: line `k` is that of the pixel in column
/// `k % width` of row `k / width`.
pub open spec fn reading_lines(b: PixelBuffer, n: nat) -> Seq<Seq<char>> {
    Seq::new(n, |k: int| summary_line(b, k % (b.width as int), k / (b.width as int)))
}

/// The line of a pixel names it by its column, then its row: it begins with `(`, the decimal
/// of `x`, `,`, the decimal of `y` and `)`.
pub proof fn lemma_summary_line_names_pixel(b: PixelBuffer, x: nat, y: nat)
    ensures
        summary_line(b, x as int, y as int).take(
            ("("@ + nat_decimal(x) + ","@ + nat_decimal(y) + ")"@).len() as int,
        ) == "("@ + nat_decimal(x) + ","@ + nat_decimal(y) + ")"@,
{
    reveal_strlit("): RGBA(");
    reveal_strlit(")");
    let p = "("@ + nat_decimal(x) + ","@ + nat_decimal(y);
    let line = summary_line(b, x as int, y as int);
    assert(line.len() > p.len());
    assert forall|i: int| 0 <= i < p.len() + 1 implies line[i] == (p + ")"@)[i] by {
        if i < p.len() {
            assert(line[i] == p[i]);
        } else {
            assert(line[i] == "): RGBA("@[0]);
        }
    }
    assert(line.take(p.len() + 1int) =~= p + ")"@);
}

/// The lines of a row come in column order.
proof fn lemma_row_in_order(b: PixelBuffer, y: int, n: nat)
    ensures
        summary_row(b, y, n) == row_lines(b, y, n).flatten(),
    decreases n,
{
    if n == 0 {
        assert(row_lines(b, y, 0) =~= Seq::<Seq<char>>::empty());
    } else {
        lemma_row_in_order(b, y, (n - 1) as nat);
        let prev = row_lines(b, y, (n - 1) as nat);
        assert(row_lines(b, y, n) =~= prev.push(summary_line(b, n - 1, y)));
        prev.lemma_flatten_push(summary_line(b, n - 1, y));
    }
}

/// The first `m` rows give the first `m * width` lines in reading order.
proof fn lemma_rows_in_order(b: PixelBuffer, m: nat)
    ensures
        summary_rows(b, m) == reading_lines(b, m * (b.width as nat)).flatten(),
    decreases m,
{
    let w = b.width as int;
    let wn = b.width as nat;
    if m == 0 {
        assert(reading_lines(b, 0) =~= Seq::<Seq<char>>::empty());
        assert(summary_rows(b, 0) =~= Seq::<char>::empty());
    } else {
        let pm = (m - 1) as nat;
        lemma_rows_in_order(b, pm);
        lemma_row_in_order(b, pm as int, wn);
        let a = reading_lines(b, pm * wn);
        let r = row_lines(b, pm as int, wn);
        assert(m * wn == pm * wn + wn) by (nonlinear_arith)
            requires
                pm == m - 1,
        ;
        assert forall|k: int| 0 <= k < m * wn implies #[trigger] reading_lines(b, m * wn)[k] == (a
            + r)[k] by {
            if k >= pm * wn {
                let x = k - pm * wn;
                vstd::arithmetic::div_mod::lemma_fundamental_div_mod_converse(k, w, pm as int, x);
            }
        }
        assert(reading_lines(b, m * wn) =~= a + r);
        vstd::seq_lib::lemma_flatten_concat(a, r);
        assert(summary_rows(b, m) == summary_rows(b, pm) + summary_row(b, pm as int, wn));
        assert((a + r).flatten() == a.flatten() + r.flatten());
    }
}

/// The summary lists every pixel once, row after row and each row from left to right: after
/// the head, its `k`-th line is that of the pixel in column `k % width` of row `k / width`.
pub proof fn lemma_summary_reading_order(b: PixelBuffer)
    ensures
        summary_text(b) == dump_head(b) + reading_lines(b, (b.height as nat) * (b.width as nat)).flatten(),
{
    lemma_rows_in_order(b, b.height as nat);
}

} // verus!
