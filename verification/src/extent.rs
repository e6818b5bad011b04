//! The length of rendered lines.
//!
//! In a table whose rows all reach over every column, the borders and the
//! content lines are equally long, provided that the content is plain: every
//! character of a wrapped line takes one screen column, and the line fits
//! the width left for it. The length is counted in characters, which for
//! such content is the number of screen columns.

use crate::cell::Alignment;
use crate::cell::CellView;
use crate::layout::inner_width;
use crate::layout::lemma_run_width_exact;
use crate::layout::lemma_start_column_exact;
use crate::layout::lemma_sum_first_grows;
use crate::layout::run_width;
use crate::layout::spans_of;
use crate::layout::start_column;
use crate::layout::sum_all;
use crate::layout::sum_first;
use crate::merge::after_first_part;
use crate::merge::Intersection;
use crate::merge::intersections;
use crate::merge::lemma_part_end_shift;
use crate::merge::lemma_parts_end_at_boundaries;
use crate::layout::lemma_sum_first_drop_first;
use crate::layout::lemma_sum_first_one;
use crate::layout::lemma_sum_first_update;
use crate::merge::part_spans;
use crate::merge::positive;
use crate::row::aligned;
use crate::row::border_runs;
use crate::row::cell_line;
use crate::row::cells_line;
use crate::row::content_line;
use crate::row::part_start;
use crate::row::RowView;
use crate::style::Style;
use crate::table::lemma_columns_hold_cell;
use crate::table::TableView;
use crate::text::visible_width_of;
use crate::wrap::wrapped;
use vstd::prelude::*;

verus! {

/// Whether `line` takes one screen column for each of its characters, and no
/// more than `width` columns.
pub open spec fn plain_within(line: Seq<char>, width: usize) -> bool {
    visible_width_of(line) == line.len() && line.len() <= width
}

/// Whether every line of `content` wrapped at `width` is plain and fits.
pub open spec fn wraps_plainly(content: Seq<char>, width: usize) -> bool {
    forall|k: int|
        0 <= k < wrapped(content, width).len() ==> plain_within(
            #[trigger] wrapped(content, width)[k],
            width,
        )
}

/// Whether a row of `cells` reaches over all the columns of a table with
/// these column `widths`, with nothing capped: each cell spans at least one
/// column, the spans add up to the number of columns, and a line over all
/// columns is no longer than `usize::MAX`.
pub open spec fn reaches_over(cells: Seq<CellView>, widths: Seq<usize>) -> bool {
    &&& positive(spans_of(cells))
    &&& sum_all(spans_of(cells)) == widths.len()
    &&& widths.len() > 0
    &&& line_length(widths) <= usize::MAX
}

/// Whether the columns of every one of `cells` leave room for its padding.
pub open spec fn has_room(cells: Seq<CellView>, widths: Seq<usize>) -> bool {
    forall|j: int|
        0 <= j < cells.len() ==> run_width(
            widths,
            start_column(cells, j),
            (#[trigger] cells[j]).column_span,
        ) >= cells[j].padding()
}

/// Whether the content of every one of `cells` wraps plainly to the width
/// left for it.
pub open spec fn all_plain(cells: Seq<CellView>, widths: Seq<usize>) -> bool {
    forall|j: int|
        0 <= j < cells.len() ==> wraps_plainly(
            (#[trigger] cells[j]).content,
            inner_width(widths, cells, j),
        )
}

/// Whether a row of `cells` fills a table with these column `widths`: it
/// reaches over all columns, every cell has room for its padding, and every
/// content wraps plainly.
pub open spec fn fills(cells: Seq<CellView>, widths: Seq<usize>) -> bool {
    &&& reaches_over(cells, widths)
    &&& has_room(cells, widths)
    &&& all_plain(cells, widths)
}

/// The length of a line that reaches over columns of the given `widths`: the
/// columns, the separators between them, and the two outer characters.
pub open spec fn line_length(widths: Seq<usize>) -> nat {
    sum_all(widths) + widths.len() + 1
}

/// The first `n` cells of a row that fills its table take, with the
/// separator before each, as many characters as their columns are wide
/// together, and one more for each column.
pub proof fn lemma_cells_line_length(
    cells: Seq<CellView>,
    widths: Seq<usize>,
    style: Style,
    k: int,
    n: int,
)
    requires
        fills(cells, widths),
        0 <= n <= cells.len(),
    ensures
        sum_first(spans_of(cells), n) <= widths.len(),
        cells_line(cells, widths, style, k, n).len() == sum_first(
            widths,
            sum_first(spans_of(cells), n) as int,
        ) + sum_first(spans_of(cells), n),
    decreases n,
{
    let spans = spans_of(cells);
    lemma_sum_first_grows(spans, n, cells.len() as int);
    if n > 0 {
        let j = n - 1;
        lemma_cells_line_length(cells, widths, style, k, j);
        lemma_start_column_exact(cells, j);
        let start = start_column(cells, j);
        let span = cells[j].column_span;
        lemma_run_width_exact(widths, start, span);
    }
}

/// Every content line of a row that fills its table has the table's line
/// length.
pub proof fn lemma_content_line_length(
    cells: Seq<CellView>,
    widths: Seq<usize>,
    style: Style,
    k: int,
)
    requires
        fills(cells, widths),
    ensures
        content_line(cells, widths, style, k).len() == line_length(widths),
{
    lemma_cells_line_length(cells, widths, style, k, cells.len() as int);
}

/// As long as nothing is capped, a part begins at the column that is the sum
/// of the spans of the parts before it.
pub proof fn lemma_part_start_exact(parts: Seq<(usize, Intersection)>, n: int)
    requires
        0 <= n <= parts.len(),
        sum_first(part_spans(parts), n) <= usize::MAX,
    ensures
        part_start(parts, n) == sum_first(part_spans(parts), n),
    decreases n,
{
    if n > 0 {
        lemma_part_start_exact(parts, n - 1);
    }
}

/// The inside of a border over the first `n` parts is as long as the columns
/// of these parts are wide together, and one more for each column but the
/// last.
pub proof fn lemma_border_runs_length(
    parts: Seq<(usize, Intersection)>,
    widths: Seq<usize>,
    style: Style,
    n: int,
)
    requires
        positive(part_spans(parts)),
        sum_all(part_spans(parts)) <= widths.len(),
        line_length(widths) <= usize::MAX,
        1 <= n <= parts.len(),
    ensures
        sum_first(part_spans(parts), n) <= widths.len(),
        border_runs(parts, widths, style, n).len() == sum_first(
            widths,
            sum_first(part_spans(parts), n) as int,
        ) + sum_first(part_spans(parts), n) - 1,
    decreases n,
{
    let spans = part_spans(parts);
    lemma_sum_first_grows(spans, n, parts.len() as int);
    lemma_part_start_exact(parts, n - 1);
    let start = part_start(parts, n - 1);
    let span = parts[n - 1].0;
    lemma_run_width_exact(widths, start, span);
    if n > 1 {
        lemma_border_runs_length(parts, widths, style, n - 1);
    } else {
        assert(border_runs(parts, widths, style, 0).len() == 0);
    }
}

/// The larger of `a` and `b`.
pub open spec fn larger_of(a: nat, b: nat) -> nat {
    if a >= b {
        a
    } else {
        b
    }
}

/// The sum of values, counted from the second value on.
pub proof fn lemma_sum_all_drop_first(values: Seq<usize>)
    requires
        values.len() > 0,
    ensures
        sum_all(values) == values[0] + sum_all(values.drop_first()),
{
    lemma_sum_first_drop_first(values, values.len() - 1);
}

/// The sum of values of which the first has been changed to `first`.
pub proof fn lemma_sum_all_update(values: Seq<usize>, first: usize)
    requires
        values.len() > 0,
    ensures
        sum_all(values.update(0, first)) == sum_all(values) - values[0] + first,
{
    lemma_sum_first_update(values, first, values.len() as int);
}

/// The parts of a merge reach as far as the longer of the two partitions.
pub proof fn lemma_parts_total(top: Seq<usize>, bottom: Seq<usize>)
    requires
        positive(top),
        positive(bottom),
    ensures
        sum_all(part_spans(intersections(top, bottom))) == larger_of(sum_all(top), sum_all(bottom)),
        positive(part_spans(intersections(top, bottom))),
        intersections(top, bottom).len() == 0 <==> top.len() == 0 && bottom.len() == 0,
    decreases top.len() + bottom.len(),
{
    let parts = intersections(top, bottom);
    assert forall|k: int| 0 <= k < part_spans(parts).len() implies #[trigger] part_spans(parts)[k]
        >= 1 by {
        lemma_parts_end_at_boundaries(top, bottom, k);
    }
    if top.len() + bottom.len() > 0 {
        let (next_top, next_bottom) = after_first_part(top, bottom);
        let rest = intersections(next_top, next_bottom);
        lemma_parts_total(next_top, next_bottom);
        if rest.len() > 0 {
            lemma_part_end_shift(parts[0], rest, rest.len() - 1);
        } else {
            lemma_sum_first_one(part_spans(parts));
        }
        if top.len() > 0 {
            lemma_sum_all_drop_first(top);
        }
        if bottom.len() > 0 {
            lemma_sum_all_drop_first(bottom);
        }
        if top.len() > 0 && bottom.len() > 0 {
            if top[0] < bottom[0] {
                lemma_sum_all_update(bottom, (bottom[0] - top[0]) as usize);
            } else if top[0] > bottom[0] {
                lemma_sum_all_update(top, (top[0] - bottom[0]) as usize);
            }
        }
    }
}

/// A border whose parts come from rows that fill the table has the table's
/// line length, whatever its two outer characters are.
pub proof fn lemma_border_length(
    top: Seq<usize>,
    bottom: Seq<usize>,
    widths: Seq<usize>,
    style: Style,
)
    requires
        positive(top),
        positive(bottom),
        larger_of(sum_all(top), sum_all(bottom)) == widths.len(),
        widths.len() > 0,
        line_length(widths) <= usize::MAX,
    ensures
        border_runs(
            intersections(top, bottom),
            widths,
            style,
            intersections(top, bottom).len() as int,
        ).len() + 2 == line_length(widths),
{
    let parts = intersections(top, bottom);
    lemma_parts_total(top, bottom);
    lemma_border_runs_length(parts, widths, style, parts.len() as int);
}

impl RowView {
    /// Whether the row fills a table with these column `widths`.
    pub open spec fn fills(self, widths: Seq<usize>) -> bool {
        fills(self.cells, widths)
    }
}

/// All lines are equally long.
///
/// Over column widths that a row fills, each of the row's content lines, its
/// top border (as the table's top edge, or under another row that fills the
/// table) and its bottom border have the same number of characters: the
/// table's line length.
pub proof fn lemma_row_lines_equally_long(
    row: RowView,
    widths: Seq<usize>,
    style: Style,
    above: Option<RowView>,
    k: int,
)
    requires
        row.fills(widths),
        above matches Some(other) ==> other.fills(widths),
    ensures
        content_line(row.cells, widths, style, k).len() == line_length(widths),
        row.top_border(widths, style, above).len() == line_length(widths),
        row.bottom_border(widths, style).len() == line_length(widths),
{
    lemma_content_line_length(row.cells, widths, style, k);
    let none = Seq::<usize>::empty();
    lemma_border_length(row.spans(), none, widths, style);
    match above {
        Some(other) => {
            lemma_border_length(other.spans(), row.spans(), widths, style);
        },
        None => {
            lemma_border_length(none, row.spans(), widths, style);
        },
    }
}

/// In a table whose rows all fill it, every line that is rendered for a row
/// is equally long: the content lines of the row with index `i`, the border
/// on top of it, and the border at the bottom of the table.
pub proof fn lemma_table_lines_equally_long(table: TableView, i: int, k: int)
    requires
        0 <= i < table.rows.len(),
        forall|r: int|
            0 <= r < table.rows.len() ==> (#[trigger] table.rows[r]).fills(table.column_widths()),
    ensures
        ({
            let widths = table.column_widths();
            let above = if i == 0 {
                None
            } else {
                Some(table.rows[i - 1])
            };
            &&& content_line(table.rows[i].cells, widths, table.style, k).len() == line_length(
                widths,
            )
            &&& table.rows[i].top_border(widths, table.style, above).len() == line_length(widths)
            &&& table.rows.last().bottom_border(widths, table.style).len() == line_length(widths)
        }),
{
    let widths = table.column_widths();
    let above = if i == 0 {
        None
    } else {
        Some(table.rows[i - 1])
    };
    lemma_row_lines_equally_long(table.rows[i], widths, table.style, above, k);
    lemma_row_lines_equally_long(table.rows.last(), widths, table.style, None, k);
}

/// In a table without maximum widths, the columns of every cell leave room
/// for its padding.
pub proof fn lemma_unlimited_table_has_room(table: TableView, r: int)
    requires
        0 <= r < table.rows.len(),
        forall|col: int| table.limit(col) is None,
        reaches_over(table.rows[r].cells, table.column_widths()),
    ensures
        has_room(table.rows[r].cells, table.column_widths()),
{
    let cells = table.rows[r].cells;
    let widths = table.column_widths();
    assert forall|j: int| 0 <= j < cells.len() implies run_width(
        widths,
        start_column(cells, j),
        (#[trigger] cells[j]).column_span,
    ) >= cells[j].padding() by {
        assert(spans_of(cells)[j] >= 1);
        lemma_columns_hold_cell(table, r, j);
    }
}

/// In a table without maximum widths, all lines are equally long as soon as
/// every row reaches over all columns and every content wraps plainly: the
/// content lines of the row with index `i`, the border on top of it, and the
/// border at the bottom of the table.
pub proof fn lemma_unlimited_table_lines_equally_long(table: TableView, i: int, k: int)
    requires
        0 <= i < table.rows.len(),
        forall|col: int| table.limit(col) is None,
        forall|r: int|
            0 <= r < table.rows.len() ==> reaches_over(
                (#[trigger] table.rows[r]).cells,
                table.column_widths(),
            ),
        forall|r: int|
            0 <= r < table.rows.len() ==> all_plain(
                (#[trigger] table.rows[r]).cells,
                table.column_widths(),
            ),
    ensures
        ({
            let widths = table.column_widths();
            let above = if i == 0 {
                None
            } else {
                Some(table.rows[i - 1])
            };
            &&& content_line(table.rows[i].cells, widths, table.style, k).len() == line_length(
                widths,
            )
            &&& table.rows[i].top_border(widths, table.style, above).len() == line_length(widths)
            &&& table.rows.last().bottom_border(widths, table.style).len() == line_length(widths)
        }),
{
    assert forall|r: int| 0 <= r < table.rows.len() implies (#[trigger] table.rows[r]).fills(
        table.column_widths(),
    ) by {
        lemma_unlimited_table_has_room(table, r);
    }
    lemma_table_lines_equally_long(table, i, k);
}

} // verus!
