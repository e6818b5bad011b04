//! Tables: the widths of the columns, negotiated between all rows, and the
//! rendering of the whole table.

use crate::cell::CellView;
use crate::layout::inner_width;
use crate::layout::lemma_run_width_exact;
use crate::layout::lemma_start_column_exact;
use crate::layout::lemma_start_column_step;
use crate::layout::lemma_sum_first_grows;
use crate::layout::run_width;
use crate::layout::spans_of;
use crate::layout::spans_sum;
use crate::layout::start_column;
use crate::layout::sum_all;
use crate::layout::sum_first;
use crate::merge::list_intersections;
use crate::row::render_border_runs;
use crate::row::Row;
use crate::row::RowView;
use crate::style::Style;
use crate::text::push_char;
use std::collections::HashMap;
use vstd::prelude::*;

verus! {

/// The main struct for creating a table.
#[derive(Debug, Clone, PartialEq)]
pub struct Table {
    /// The rows in the table.
    pub rows: Vec<Row>,
    /// The style of the table.
    pub style: Style,
    /// The maximum width of all columns.
    ///
    /// It is overridden by the values in `max_column_widths`.
    pub max_column_width: Option<usize>,
    /// The maximum widths of specific columns.
    ///
    /// It overrides `max_column_width`.
    pub max_column_widths: HashMap<usize, usize>,
    /// Whether or not to vertically separate rows in the table.
    pub has_separate_rows: bool,
    /// Whether the table should have a top border.
    ///
    /// Setting `has_top_border` to false on the first row will have the same effect as setting this to false.
    pub has_top_border: bool,
    /// Whether the table should have a bottom border.
    pub has_bottom_border: bool,
}

/// The mathematical model of a [`Table`].
pub struct TableView {
    pub rows: Seq<RowView>,
    pub style: Style,
    pub max_column_width: Option<usize>,
    pub max_column_widths: Map<usize, usize>,
    pub has_separate_rows: bool,
    pub has_top_border: bool,
    pub has_bottom_border: bool,
}

/// The models of `rows`.
pub open spec fn row_views(rows: Seq<Row>) -> Seq<RowView> {
    rows.map_values(|r: Row| r@)
}

impl View for Table {
    type V = TableView;

    open spec fn view(&self) -> TableView {
        TableView {
            rows: row_views(self.rows@),
            style: self.style,
            max_column_width: self.max_column_width,
            max_column_widths: self.max_column_widths@,
            has_separate_rows: self.has_separate_rows,
            has_top_border: self.has_top_border,
            has_bottom_border: self.has_bottom_border,
        }
    }
}

/// The larger of `a` and `b`.
pub open spec fn larger(a: usize, b: usize) -> usize {
    if a >= b {
        a
    } else {
        b
    }
}

/// The width that a cell of natural width `whole`, spanning `span` columns,
/// asks of the column with index `k` among them. The `span - 1` separators
/// that the cell covers count towards its width; what is left is divided
/// evenly, and the first column takes the remainder as well.
pub open spec fn share(whole: usize, span: usize, k: int) -> usize {
    if span == 0 {
        0
    } else {
        let spread = whole.saturating_sub((span - 1) as usize);
        if k == 0 {
            (spread / span + spread % span) as usize
        } else {
            spread / span
        }
    }
}

/// The width that the cell with index `j` of `cells` asks of the table column
/// `col`: its share if the cell spans that column, and nothing otherwise.
pub open spec fn cell_demand(cells: Seq<CellView>, j: int, col: int) -> usize {
    let start = start_column(cells, j);
    if start <= col < start + cells[j].column_span {
        share(cells[j].width(), cells[j].column_span, col - start)
    } else {
        0
    }
}

/// The largest width that any of the first `n` of `cells` asks of column `col`.
pub open spec fn row_demand(cells: Seq<CellView>, n: int, col: int) -> usize
    decreases n,
{
    if n <= 0 {
        0
    } else {
        larger(row_demand(cells, n - 1, col), cell_demand(cells, n - 1, col))
    }
}

/// The largest width that any cell of the first `n` of `rows` asks of column
/// `col`.
pub open spec fn natural_width(rows: Seq<RowView>, n: int, col: int) -> usize
    decreases n,
{
    if n <= 0 {
        0
    } else {
        larger(
            natural_width(rows, n - 1, col),
            row_demand(rows[n - 1].cells, rows[n - 1].cells.len() as int, col),
        )
    }
}

/// The number of columns of a table with the first `n` of `rows`: the largest
/// sum of column spans that one of these rows has.
pub open spec fn column_count(rows: Seq<RowView>, n: int) -> usize
    decreases n,
{
    if n <= 0 {
        0
    } else {
        larger(column_count(rows, n - 1), spans_sum(rows[n - 1].cells))
    }
}

impl TableView {
    /// The maximum width set for column `col`: the one set for that column,
    /// else the one set for all columns, else none.
    pub open spec fn limit(self, col: int) -> Option<usize> {
        if 0 <= col <= usize::MAX && self.max_column_widths.contains_key(col as usize) {
            Some(self.max_column_widths[col as usize])
        } else {
            self.max_column_width
        }
    }

    /// The width of column `col`: the largest width that any cell asks of it,
    /// lowered to the column's maximum width if it has one.
    pub open spec fn column_width(self, col: int) -> usize {
        let natural = natural_width(self.rows, self.rows.len() as int, col);
        match self.limit(col) {
            Some(max_width) => if max_width < natural {
                max_width
            } else {
                natural
            },
            None => natural,
        }
    }

    /// The widths of the table's columns.
    pub open spec fn column_widths(self) -> Seq<usize> {
        Seq::new(
            column_count(self.rows, self.rows.len() as int) as nat,
            |col: int| self.column_width(col),
        )
    }

    /// Whether a border is drawn on top of the row with index `i`: the row
    /// must allow it, and so must the table, which decides on the top edge and
    /// on the borders between rows separately.
    pub open spec fn draws_top_border(self, i: int) -> bool {
        self.rows[i].has_top_border && if i == 0 {
            self.has_top_border
        } else {
            self.has_separate_rows
        }
    }

    /// The row with index `i` as it is rendered: its top border on a line of
    /// its own, if one is drawn, and its content.
    pub open spec fn row_block(self, widths: Seq<usize>, i: int) -> Seq<char> {
        (if self.draws_top_border(i) {
            self.rows[i].top_border(
                widths,
                self.style,
                if i == 0 {
                    None
                } else {
                    Some(self.rows[i - 1])
                },
            ) + seq!['\n']
        } else {
            Seq::empty()
        }) + self.rows[i].content(widths, self.style)
    }

    /// The first `n` rows as they are rendered, with a line feed between two
    /// rows.
    pub open spec fn row_blocks(self, widths: Seq<usize>, n: int) -> Seq<char>
        decreases n,
    {
        if n <= 0 {
            Seq::empty()
        } else {
            self.row_blocks(widths, n - 1) + (if n >= 2 {
                seq!['\n']
            } else {
                Seq::empty()
            }) + self.row_block(widths, n - 1)
        }
    }

    /// The rendered table: every row in order over the table's column widths
    /// and, if the table has one, the bottom border on a last line. A table
    /// without rows renders as the empty text.
    pub open spec fn rendered(self) -> Seq<char> {
        if self.rows.len() == 0 {
            Seq::empty()
        } else {
            let widths = self.column_widths();
            self.row_blocks(widths, self.rows.len() as int) + (if self.has_bottom_border {
                seq!['\n'] + self.rows.last().bottom_border(widths, self.style)
            } else {
                Seq::empty()
            })
        }
    }
}

impl Default for Table {
    fn default() -> (table: Table)
        ensures
            table@ == Table::initial(),
    {
        Table::new()
    }
}

impl Table {
    /// The model of a new table: no rows, the rounded style, no maximum
    /// widths, rows separated, and a border on top and at the bottom.
    pub open spec fn initial() -> TableView {
        TableView {
            rows: Seq::empty(),
            style: Style {
                top_left_corner: '╭',
                top_right_corner: '╮',
                bottom_left_corner: '╰',
                bottom_right_corner: '╯',
                outer_left_vertical: '├',
                outer_right_vertical: '┤',
                outer_bottom_horizontal: '┴',
                outer_top_horizontal: '┬',
                intersection: '┼',
                vertical: '│',
                horizontal: '─',
            },
            max_column_width: None,
            max_column_widths: Map::empty(),
            has_separate_rows: true,
            has_top_border: true,
            has_bottom_border: true,
        }
    }

    /// Creates a new empty table, with default settings.
    pub fn new() -> (table: Table)
        ensures
            table@ == Table::initial(),
    {
        let table = Table {
            rows: Vec::new(),
            style: Style::rounded(),
            max_column_width: None,
            max_column_widths: HashMap::new(),
            has_separate_rows: true,
            has_top_border: true,
            has_bottom_border: true,
        };
        assert(table@.rows =~= Seq::<RowView>::empty());
        table
    }

    /// Adds a row to the table.
    pub fn with_row(self, row: Row) -> (table: Table)
        ensures
            table@ == (TableView { rows: self@.rows.push(row@), ..self@ }),
    {
        let mut table = self;
        table.rows.push(row);
        assert(table@.rows =~= self@.rows.push(row@));
        table
    }

    /// Adds multiple rows to the table.
    pub fn with_rows(self, rows: Vec<Row>) -> (table: Table)
        ensures
            table@ == (TableView { rows: self@.rows + row_views(rows@), ..self@ }),
    {
        let mut table = self;
        let mut more = rows;
        table.rows.append(&mut more);
        assert(table@.rows =~= self@.rows + row_views(rows@));
        table
    }

    /// Sets the style of the table.
    pub fn with_style(self, style: Style) -> (table: Table)
        ensures
            table@ == (TableView { style: style, ..self@ }),
    {
        let mut table = self;
        table.style = style;
        table
    }

    /// Sets the maximum width for all columns.
    pub fn with_max_column_width(self, max_column_width: usize) -> (table: Table)
        ensures
            table@ == (TableView { max_column_width: Some(max_column_width), ..self@ }),
    {
        let mut table = self;
        table.max_column_width = Some(max_column_width);
        table
    }

    /// Sets the maximum width for a specific column.
    pub fn with_max_column_width_at_index(self, index: usize, max_column_width: usize) -> (table:
        Table)
        ensures
            table@ == (TableView {
                max_column_widths: self@.max_column_widths.insert(index, max_column_width),
                ..self@
            }),
    {
        broadcast use vstd::std_specs::hash::group_hash_axioms;

        let mut table = self;
        table.max_column_widths.insert(index, max_column_width);
        table
    }

    /// Disables the vertical separation of rows.
    pub fn without_separate_rows(self) -> (table: Table)
        ensures
            table@ == (TableView { has_separate_rows: false, ..self@ }),
    {
        let mut table = self;
        table.has_separate_rows = false;
        table
    }

    /// Disables the top border of the table.
    pub fn without_top_border(self) -> (table: Table)
        ensures
            table@ == (TableView { has_top_border: false, ..self@ }),
    {
        let mut table = self;
        table.has_top_border = false;
        table
    }

    /// Disables the bottom border of the table.
    pub fn without_bottom_border(self) -> (table: Table)
        ensures
            table@ == (TableView { has_bottom_border: false, ..self@ }),
    {
        let mut table = self;
        table.has_bottom_border = false;
        table
    }

    /// Calculates the widths of the columns in the table.
    ///
    /// The table has as many columns as its widest row spans. Each column is
    /// as wide as the most demanding cell asks, and no wider than its maximum
    /// width, if it has one.
    pub fn calculate_column_widths(&self) -> (column_widths: Vec<usize>)
        ensures
            column_widths@ == self@.column_widths(),
    {
        let ghost rows = self@.rows;
        let count = self.rows.len();
        let mut columns: usize = 0;
        let mut r: usize = 0;
        while r < count
            invariant
                r <= count == self.rows.len() == rows.len(),
                rows == self@.rows,
                columns == column_count(rows, r as int),
            decreases count - r,
        {
            let spans = self.rows[r].span_total();
            if spans > columns {
                columns = spans;
            }
            r = r + 1;
        }
        let mut column_widths: Vec<usize> = Vec::new();
        while column_widths.len() < columns
            invariant
                column_widths.len() <= columns,
                forall|col: int| 0 <= col < column_widths.len() ==> column_widths[col] == 0,
            decreases columns - column_widths.len(),
        {
            column_widths.push(0);
        }
        r = 0;
        while r < count
            invariant
                r <= count == self.rows.len() == rows.len(),
                rows == self@.rows,
                column_widths.len() == columns,
                forall|col: int|
                    0 <= col < columns ==> column_widths[col] == natural_width(rows, r as int, col),
            decreases count - r,
        {
            widen_for_row(&mut column_widths, &self.rows[r]);
            r = r + 1;
        }
        let mut index: usize = 0;
        while index < columns
            invariant
                index <= columns == column_widths.len(),
                rows == self@.rows,
                count == rows.len(),
                forall|col: int|
                    0 <= col < index ==> column_widths[col] == self@.column_width(col),
                forall|col: int|
                    index <= col < columns ==> column_widths[col] == natural_width(
                        rows,
                        count as int,
                        col,
                    ),
            decreases columns - index,
        {
            broadcast use vstd::std_specs::hash::group_hash_axioms;

            let max_width = match self.max_column_widths.get(&index) {
                Some(max_width) => Some(*max_width),
                None => self.max_column_width,
            };
            match max_width {
                Some(max_width) => {
                    if max_width < column_widths[index] {
                        column_widths.set(index, max_width);
                    }
                },
                None => {},
            }
            index = index + 1;
        }
        column_widths
    }

    /// Renders the bottom border of the table, under `last_row`.
    pub fn render_bottom_border(
        &self,
        rendered: &mut String,
        column_widths: &[usize],
        last_row: &Row,
    )
        ensures
            final(rendered)@ == old(rendered)@ + last_row@.bottom_border(
                column_widths@,
                self@.style,
            ),
    {
        let spans = last_row.column_spans();
        let none: Vec<usize> = Vec::new();
        let parts = list_intersections(spans.as_slice(), none.as_slice());
        push_char(rendered, self.style.bottom_left_corner);
        render_border_runs(rendered, &parts, column_widths, &self.style);
        push_char(rendered, self.style.bottom_right_corner);
    }

    /// Renders the row with the given index: its top border on a line of its
    /// own, if one is drawn, and its content.
    fn render_row(&self, rendered: &mut String, column_widths: &[usize], index: usize)
        requires
            index < self.rows.len(),
        ensures
            final(rendered)@ == old(rendered)@ + self@.row_block(column_widths@, index as int),
    {
        let row = &self.rows[index];
        let draws = row.has_top_border && if index == 0 {
            self.has_top_border
        } else {
            self.has_separate_rows
        };
        if draws {
            if index == 0 {
                row.render_top_border(rendered, column_widths, &self.style, None);
            } else {
                row.render_top_border(
                    rendered,
                    column_widths,
                    &self.style,
                    Some(&self.rows[index - 1]),
                );
            }
            push_char(rendered, '\n');
        }
        row.render_content(rendered, column_widths, &self.style);
    }

    /// Renders the table to a string.
    ///
    /// The lines are separated by line feeds, and the last line has none
    /// after it. A table without rows renders as the empty string.
    pub fn render(&self) -> (rendered: String)
        ensures
            rendered@ == self@.rendered(),
    {
        let mut rendered = String::new();
        let count = self.rows.len();
        if count == 0 {
            return rendered;
        }
        let column_widths = self.calculate_column_widths();
        let ghost widths = column_widths@;
        let mut index: usize = 0;
        while index < count
            invariant
                index <= count == self.rows.len(),
                widths == column_widths@,
                rendered@ == self@.row_blocks(widths, index as int),
            decreases count - index,
        {
            if index > 0 {
                push_char(&mut rendered, '\n');
            }
            self.render_row(&mut rendered, column_widths.as_slice(), index);
            index = index + 1;
        }
        if self.has_bottom_border {
            push_char(&mut rendered, '\n');
            self.render_bottom_border(
                &mut rendered,
                column_widths.as_slice(),
                &self.rows[count - 1],
            );
        }
        rendered
    }
}

/// Widens each of `column_widths` to what the cells of `row` ask of it.
pub fn widen_for_row(column_widths: &mut Vec<usize>, row: &Row)
    ensures
        final(column_widths).len() == old(column_widths).len(),
        forall|col: int|
            0 <= col < old(column_widths).len() ==> final(column_widths)[col] == larger(
                old(column_widths)[col],
                row_demand(row@.cells, row@.cells.len() as int, col),
            ),
{
    let ghost cells = row@.cells;
    let count = row.cells.len();
    let mut spanned_columns: usize = 0;
    let mut j: usize = 0;
    while j < count
        invariant
            j <= count == row.cells.len() == cells.len(),
            cells == row@.cells,
            spanned_columns == start_column(cells, j as int),
            column_widths.len() == old(column_widths).len(),
            forall|col: int|
                0 <= col < column_widths.len() ==> column_widths[col] == larger(
                    old(column_widths)[col],
                    row_demand(cells, j as int, col),
                ),
        decreases count - j,
    {
        let cell = &row.cells[j];
        proof {
            lemma_start_column_step(cells, j as int);
        }
        widen_for_cell(column_widths, spanned_columns, cell.column_span, cell.width());
        spanned_columns = spanned_columns.saturating_add(cell.column_span);
        j = j + 1;
    }
}

/// Widens each of the `span` columns that begin at column `start` to the
/// share that a cell of natural width `whole` asks of it.
pub fn widen_for_cell(column_widths: &mut Vec<usize>, start: usize, span: usize, whole: usize)
    ensures
        final(column_widths).len() == old(column_widths).len(),
        forall|col: int|
            0 <= col < old(column_widths).len() ==> final(column_widths)[col] == larger(
                old(column_widths)[col],
                if start <= col < start + span {
                    share(whole, span, col - start)
                } else {
                    0
                },
            ),
{
    if span == 0 {
        return ;
    }
    let len = column_widths.len();
    let spread = whole.saturating_sub(span - 1);
    let subcell_width = spread / span;
    let leftover_width = spread % span;
    let end = start.saturating_add(span);
    let mut index = start;
    while index < end && index < len
        invariant
            start <= index <= end,
            span > 0,
            end == start.saturating_add(span),
            subcell_width == spread / span,
            leftover_width == spread % span,
            spread == whole.saturating_sub((span - 1) as usize),
            subcell_width + leftover_width <= usize::MAX,
            column_widths.len() == len == old(column_widths).len(),
            forall|col: int|
                0 <= col < len ==> column_widths[col] == larger(
                    old(column_widths)[col],
                    if start <= col < index {
                        share(whole, span, col - start)
                    } else {
                        0
                    },
                ),
        decreases len - index,
    {
        let asked = if index == start {
            subcell_width + leftover_width
        } else {
            subcell_width
        };
        if asked > column_widths[index] {
            column_widths.set(index, asked);
        }
        index = index + 1;
    }
}

/// The width of the widest cell that the first `n` of `rows` have at index
/// `col`, and 0 if none of them has a cell there.
pub open spec fn widest_cell(rows: Seq<RowView>, n: int, col: int) -> usize
    decreases n,
{
    if n <= 0 {
        0
    } else {
        larger(
            widest_cell(rows, n - 1, col),
            if 0 <= col < rows[n - 1].cells.len() {
                rows[n - 1].cells[col].width()
            } else {
                0
            },
        )
    }
}

/// Whether every cell of `cells` spans exactly one column.
pub open spec fn unit_spans(cells: Seq<CellView>) -> bool {
    forall|j: int| 0 <= j < cells.len() ==> (#[trigger] cells[j]).column_span == 1
}

/// In a row of cells that span one column each, the cell with index `j`
/// begins at column `j`.
pub proof fn lemma_unit_spans_start(cells: Seq<CellView>, j: int)
    requires
        unit_spans(cells),
        cells.len() <= usize::MAX,
        0 <= j <= cells.len(),
    ensures
        start_column(cells, j) == j,
    decreases j,
{
    if j > 0 {
        lemma_unit_spans_start(cells, j - 1);
        lemma_start_column_step(cells, j - 1);
    }
}

/// A row of cells that span one column each asks of every column the width
/// of the cell that stands there.
pub proof fn lemma_unit_spans_row_demand(cells: Seq<CellView>, n: int, col: int)
    requires
        unit_spans(cells),
        cells.len() <= usize::MAX,
        0 <= n <= cells.len(),
        0 <= col,
    ensures
        row_demand(cells, n, col) == if col < n {
            cells[col].width()
        } else {
            0
        },
    decreases n,
{
    if n > 0 {
        lemma_unit_spans_row_demand(cells, n - 1, col);
        lemma_unit_spans_start(cells, n - 1);
    }
}

/// Where every cell spans one column, nothing is divided between columns:
/// the width that the rows ask of a column is the width of the widest cell in
/// that column, and it is the column's width unless a maximum width is set
/// for it.
pub proof fn lemma_unit_spans_column_width(table: TableView, col: int)
    requires
        forall|r: int| 0 <= r < table.rows.len() ==> unit_spans((#[trigger] table.rows[r]).cells),
        forall|r: int| 0 <= r < table.rows.len() ==> (#[trigger] table.rows[r]).cells.len() <= usize::MAX,
        0 <= col,
    ensures
        natural_width(table.rows, table.rows.len() as int, col) == widest_cell(
            table.rows,
            table.rows.len() as int,
            col,
        ),
        table.limit(col) is None ==> table.column_width(col) == widest_cell(
            table.rows,
            table.rows.len() as int,
            col,
        ),
        col < table.column_widths().len() ==> table.column_widths()[col] == table.column_width(col),
{
    lemma_unit_spans_natural_width(table.rows, table.rows.len() as int, col);
}

/// The general form of [`lemma_unit_spans_column_width`], for the first `n`
/// rows.
pub proof fn lemma_unit_spans_natural_width(rows: Seq<RowView>, n: int, col: int)
    requires
        forall|r: int| 0 <= r < rows.len() ==> unit_spans((#[trigger] rows[r]).cells),
        forall|r: int| 0 <= r < rows.len() ==> (#[trigger] rows[r]).cells.len() <= usize::MAX,
        0 <= n <= rows.len(),
        0 <= col,
    ensures
        natural_width(rows, n, col) == widest_cell(rows, n, col),
    decreases n,
{
    if n > 0 {
        lemma_unit_spans_natural_width(rows, n - 1, col);
        let cells = rows[n - 1].cells;
        lemma_unit_spans_row_demand(cells, cells.len() as int, col);
    }
}

/// The shares that a cell asks of the first `n` of the columns it spans,
/// added up.
pub open spec fn shares_sum(whole: usize, span: usize, n: int) -> nat
    decreases n,
{
    if n <= 0 {
        0
    } else {
        shares_sum(whole, span, n - 1) + share(whole, span, n - 1) as nat
    }
}

/// The shares of the first `n` columns of a span are `n` even parts and the
/// remainder.
pub proof fn lemma_shares_sum(whole: usize, span: usize, n: int)
    requires
        1 <= n <= span,
    ensures
        shares_sum(whole, span, n) == n * (whole.saturating_sub((span - 1) as usize) / span)
            + whole.saturating_sub((span - 1) as usize) % span,
    decreases n,
{
    let spread = whole.saturating_sub((span - 1) as usize);
    let part = spread / span;
    reveal_with_fuel(shares_sum, 2);
    if n > 1 {
        lemma_shares_sum(whole, span, n - 1);
        assert((n - 1) * part + part == n * part) by (nonlinear_arith);
    } else {
        assert(1 * part == part) by (nonlinear_arith);
    }
}

/// Nothing is lost in the division: the shares that a cell asks of its
/// columns, and the separators that it covers, add up to the cell's natural
/// width, or to more where the cell is narrower than its separators alone.
pub proof fn lemma_shares_add_up(whole: usize, span: usize)
    requires
        span >= 1,
    ensures
        shares_sum(whole, span, span as int) + (span - 1) >= whole,
        whole >= span - 1 ==> shares_sum(whole, span, span as int) + (span - 1) == whole,
{
    let spread = whole.saturating_sub((span - 1) as usize);
    lemma_shares_sum(whole, span, span as int);
    assert(span * (spread / span) + spread % span == spread) by (nonlinear_arith)
        requires
            span >= 1,
    ;
}

/// A row asks of a column at least what each of its cells asks of it.
pub proof fn lemma_row_demand_covers(cells: Seq<CellView>, n: int, j: int, col: int)
    requires
        0 <= j < n,
    ensures
        row_demand(cells, n, col) >= cell_demand(cells, j, col),
    decreases n,
{
    if j < n - 1 {
        lemma_row_demand_covers(cells, n - 1, j, col);
    }
}

/// Columns only widen: the rows ask of a column at least what each cell of
/// each row asks of it.
pub proof fn lemma_natural_width_covers(rows: Seq<RowView>, n: int, r: int, j: int, col: int)
    requires
        0 <= r < n,
        0 <= j < rows[r].cells.len(),
    ensures
        natural_width(rows, n, col) >= cell_demand(rows[r].cells, j, col),
    decreases n,
{
    if r < n - 1 {
        lemma_natural_width_covers(rows, n - 1, r, j, col);
    } else {
        lemma_row_demand_covers(rows[r].cells, rows[r].cells.len() as int, j, col);
    }
}

/// The table has at least as many columns as each of its rows takes.
pub proof fn lemma_column_count_covers(rows: Seq<RowView>, n: int, r: int)
    requires
        0 <= r < n,
    ensures
        column_count(rows, n) >= spans_sum(rows[r].cells),
    decreases n,
{
    if r < n - 1 {
        lemma_column_count_covers(rows, n - 1, r);
    }
}

/// A maximum width only lowers: a column is never wider than the rows ask,
/// and never wider than its maximum width, if it has one.
pub proof fn lemma_column_width_bounds(table: TableView, col: int)
    ensures
        table.column_width(col) <= natural_width(table.rows, table.rows.len() as int, col),
        table.limit(col) matches Some(max_width) ==> table.column_width(col) <= max_width,
        table.limit(col) is None ==> table.column_width(col) == natural_width(
            table.rows,
            table.rows.len() as int,
            col,
        ),
{
}

/// Columns that are each as wide as the share a cell asks of them are
/// together as wide as the shares added up.
pub proof fn lemma_widths_hold_shares(
    widths: Seq<usize>,
    start: int,
    whole: usize,
    span: usize,
    n: int,
)
    requires
        0 <= start,
        0 <= n <= span,
        start + span <= widths.len(),
        forall|k: int| 0 <= k < span ==> #[trigger] widths[start + k] >= share(whole, span, k),
    ensures
        sum_first(widths, start + n) - sum_first(widths, start) >= shares_sum(whole, span, n),
    decreases n,
{
    if n > 0 {
        lemma_widths_hold_shares(widths, start, whole, span, n - 1);
    }
}

/// The columns are wide enough for every cell.
///
/// In a table without maximum widths, the columns that a cell spans, and the
/// separators between them, are together at least as wide as the cell's
/// natural width; so what they leave for the cell's content is at least the
/// natural width less the padding. This holds for a cell that spans at least
/// one column, and where no sum is capped.
pub proof fn lemma_columns_hold_cell(table: TableView, r: int, j: int)
    requires
        0 <= r < table.rows.len(),
        0 <= j < table.rows[r].cells.len(),
        table.rows[r].cells[j].column_span >= 1,
        forall|col: int| table.limit(col) is None,
        sum_all(spans_of(table.rows[r].cells)) <= usize::MAX,
        sum_all(table.column_widths()) + table.column_widths().len() <= usize::MAX,
    ensures
        run_width(
            table.column_widths(),
            start_column(table.rows[r].cells, j),
            table.rows[r].cells[j].column_span,
        ) >= table.rows[r].cells[j].width(),
        inner_width(table.column_widths(), table.rows[r].cells, j) >= table.rows[r].cells[j].width()
            - table.rows[r].cells[j].padding(),
{
    let widths = table.column_widths();
    let cells = table.rows[r].cells;
    let spans = spans_of(cells);
    let span = cells[j].column_span;
    let whole = cells[j].width();
    let count = table.rows.len() as int;
    lemma_sum_first_grows(spans, j + 1, cells.len() as int);
    lemma_start_column_exact(cells, j);
    lemma_start_column_exact(cells, cells.len() as int);
    assert(cells.take(cells.len() as int) =~= cells);
    lemma_column_count_covers(table.rows, count, r);
    let start = start_column(cells, j);
    assert forall|k: int| 0 <= k < span implies #[trigger] widths[start + k] >= share(
        whole,
        span,
        k,
    ) by {
        lemma_natural_width_covers(table.rows, count, r, j, start + k);
    }
    lemma_widths_hold_shares(widths, start as int, whole, span, span as int);
    lemma_shares_add_up(whole, span);
    lemma_run_width_exact(widths, start, span);
}

} // verus!
