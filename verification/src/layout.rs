//! Widths shared by the row and table renderers: how many columns a span of
//! table columns takes on screen, and runs of one repeated character.
//!
//! All sums are capped at `usize::MAX` and all differences at zero, so that a
//! degenerate table description degrades the layout instead of failing.

use crate::cell::CellView;
use crate::text::push_char;
use vstd::prelude::*;

verus! {

/// The sum of the first `n` of `values`.
pub open spec fn sum_first(values: Seq<usize>, n: int) -> nat
    decreases n,
{
    if n <= 0 {
        0
    } else {
        sum_first(values, n - 1) + values[n - 1] as nat
    }
}

/// The sum of all `values`.
pub open spec fn sum_all(values: Seq<usize>) -> nat {
    sum_first(values, values.len() as int)
}

/// The column spans of `cells`.
pub open spec fn spans_of(cells: Seq<CellView>) -> Seq<usize> {
    cells.map_values(|c: CellView| c.column_span)
}

/// The capped sum of `widths[lo..hi]`.
pub open spec fn widths_sum(widths: Seq<usize>, lo: int, hi: int) -> usize
    decreases hi - lo,
{
    if lo >= hi {
        0
    } else {
        widths_sum(widths, lo, hi - 1).saturating_add(widths[hi - 1])
    }
}

/// The smaller of `x` and `len`.
pub open spec fn clip(x: int, len: nat) -> int {
    if x < len {
        x
    } else {
        len as int
    }
}

/// The capped sum of the widths of the `span` columns that begin at column
/// `start`, as far as these columns exist.
pub open spec fn span_sum(widths: Seq<usize>, start: usize, span: usize) -> usize {
    widths_sum(widths, clip(start as int, widths.len()), clip(start + span, widths.len()))
}

/// The number of screen columns between the two outer separators of a cell
/// that spans `span` table columns beginning at column `start`: the widths of
/// these columns and one more for each separator that the cell covers.
pub open spec fn run_width(widths: Seq<usize>, start: usize, span: usize) -> usize {
    span_sum(widths, start, span).saturating_add(span.saturating_sub(1))
}

/// The capped sum of the column spans of `cells`.
pub open spec fn spans_sum(cells: Seq<CellView>) -> usize
    decreases cells.len(),
{
    if cells.len() == 0 {
        0
    } else {
        spans_sum(cells.drop_last()).saturating_add(cells.last().column_span)
    }
}

/// The table column at which the cell with index `j` of `cells` begins.
pub open spec fn start_column(cells: Seq<CellView>, j: int) -> usize {
    spans_sum(cells.take(j))
}

/// The width left for the content of the cell with index `j` of `cells`: its
/// run of screen columns less its padding.
pub open spec fn inner_width(widths: Seq<usize>, cells: Seq<CellView>, j: int) -> usize {
    run_width(widths, start_column(cells, j), cells[j].column_span).saturating_sub(
        cells[j].padding(),
    )
}

/// The character `c`, `n` times.
pub open spec fn repeated(c: char, n: nat) -> Seq<char> {
    Seq::new(n, |i: int| c)
}

/// Returns the capped sum of the widths of the `span` columns that begin at
/// column `start`, plus one for each of the `span - 1` separators between
/// them.
pub fn columns_width(widths: &[usize], start: usize, span: usize) -> (width: usize)
    ensures
        width == run_width(widths@, start, span),
{
    let len = widths.len();
    let lo = if start < len {
        start
    } else {
        len
    };
    let end = start.saturating_add(span);
    let hi = if end < len {
        end
    } else {
        len
    };
    let mut sum: usize = 0;
    let mut i = lo;
    while i < hi
        invariant
            lo <= i,
            i <= hi || hi < lo,
            hi <= len == widths@.len(),
            sum == widths_sum(widths@, lo as int, i as int),
        decreases hi - i,
    {
        sum = sum.saturating_add(widths[i]);
        i = i + 1;
    }
    sum.saturating_add(span.saturating_sub(1))
}

/// Appends the character `c` to `out`, `n` times.
pub fn push_repeated(out: &mut String, c: char, n: usize)
    ensures
        final(out)@ == old(out)@ + repeated(c, n as nat),
{
    let mut i: usize = 0;
    while i < n
        invariant
            i <= n,
            out@ == old(out)@ + repeated(c, i as nat),
        decreases n - i,
    {
        push_char(out, c);
        i = i + 1;
    }
}

/// The column at which the cell after the first `j + 1` cells begins is the
/// column at which cell `j` begins plus the span of cell `j`, capped.
pub proof fn lemma_start_column_step(cells: Seq<CellView>, j: int)
    requires
        0 <= j < cells.len(),
    ensures
        start_column(cells, j + 1) == start_column(cells, j).saturating_add(cells[j].column_span),
{
    assert(cells.take(j + 1).drop_last() =~= cells.take(j));
}

/// The sum of the first value alone is that value.
pub proof fn lemma_sum_first_one(values: Seq<usize>)
    ensures
        sum_first(values, 0) == 0,
        sum_first(values, 1) == values[0],
{
    reveal_with_fuel(sum_first, 2);
}

/// The sum of the first values, counted from the second value on.
pub proof fn lemma_sum_first_drop_first(values: Seq<usize>, m: int)
    requires
        0 <= m < values.len(),
    ensures
        sum_first(values, m + 1) == values[0] + sum_first(values.drop_first(), m),
    decreases m,
{
    lemma_sum_first_one(values);
    if m > 0 {
        lemma_sum_first_drop_first(values, m - 1);
    }
}

/// The sum of the first values when the first of them has been changed to
/// `first`.
pub proof fn lemma_sum_first_update(values: Seq<usize>, first: usize, m: int)
    requires
        1 <= m <= values.len(),
    ensures
        sum_first(values.update(0, first), m) == sum_first(values, m) - values[0] + first,
    decreases m,
{
    lemma_sum_first_one(values);
    lemma_sum_first_one(values.update(0, first));
    if m > 1 {
        lemma_sum_first_update(values, first, m - 1);
    }
}

/// The sum of the first values grows with their number.
pub proof fn lemma_sum_first_grows(values: Seq<usize>, a: int, b: int)
    requires
        a <= b,
    ensures
        sum_first(values, a) <= sum_first(values, b),
    decreases b - a,
{
    if a < b {
        lemma_sum_first_grows(values, a, b - 1);
    }
}

/// As long as nothing is capped, the capped sum of a range of widths is the
/// difference of two sums of first widths.
pub proof fn lemma_widths_sum_exact(widths: Seq<usize>, lo: int, hi: int)
    requires
        0 <= lo <= hi <= widths.len(),
        sum_all(widths) <= usize::MAX,
    ensures
        widths_sum(widths, lo, hi) == sum_first(widths, hi) - sum_first(widths, lo),
    decreases hi - lo,
{
    lemma_sum_first_grows(widths, hi, widths.len() as int);
    if lo < hi {
        lemma_widths_sum_exact(widths, lo, hi - 1);
    }
}

/// As long as nothing is capped, a cell begins at the column that is the sum
/// of the spans before it.
pub proof fn lemma_start_column_exact(cells: Seq<CellView>, j: int)
    requires
        0 <= j <= cells.len(),
        sum_first(spans_of(cells), j) <= usize::MAX,
    ensures
        start_column(cells, j) == sum_first(spans_of(cells), j),
    decreases j,
{
    if j > 0 {
        lemma_start_column_exact(cells, j - 1);
        lemma_start_column_step(cells, j - 1);
    }
}

/// As long as nothing is capped, a run of table columns is as wide as the
/// columns together and the separators between them.
pub proof fn lemma_run_width_exact(widths: Seq<usize>, start: usize, span: usize)
    requires
        span >= 1,
        start + span <= widths.len(),
        sum_all(widths) + widths.len() <= usize::MAX,
    ensures
        run_width(widths, start, span) == sum_first(widths, start + span) - sum_first(
            widths,
            start as int,
        ) + span - 1,
{
    lemma_widths_sum_exact(widths, start as int, start + span);
    lemma_sum_first_grows(widths, start + span, widths.len() as int);
}

} // verus!
