//! Rows: the content lines of a row, and the border between a row and the
//! row above it.
//!
//! The border has a junction wherever either of the two rows has a column
//! boundary. Which junction it is follows from merging the two rows'
//! partitions of the columns into spans.

use crate::cell::Alignment;
use crate::cell::Cell;
use crate::cell::cell_views;
use crate::cell::CellView;
use crate::layout::columns_width;
use crate::layout::inner_width;
use crate::layout::lemma_start_column_step;
use crate::layout::push_repeated;
use crate::layout::repeated;
use crate::layout::run_width;
use crate::layout::spans_of;
use crate::layout::spans_sum;
use crate::layout::start_column;
use crate::merge::Intersection;
use crate::merge::intersections;
use crate::merge::list_intersections;
use crate::style::Style;
use crate::text::push_char;
use crate::text::visible_width;
use crate::text::visible_width_of;
use crate::text::views;
use crate::wrap::wrapped;
use vstd::prelude::*;
use vstd::string::StringExecFns;

verus! {

/// A row within a table.
#[derive(Debug, Clone, PartialEq)]
pub struct Row {
    /// The cells within the row.
    pub cells: Vec<Cell>,
    /// Whether the row should have a top border.
    pub has_top_border: bool,
}

/// The mathematical model of a [`Row`].
pub struct RowView {
    pub cells: Seq<CellView>,
    pub has_top_border: bool,
}

impl View for Row {
    type V = RowView;

    open spec fn view(&self) -> RowView {
        RowView { cells: cell_views(self.cells@), has_top_border: self.has_top_border }
    }
}

/// The character that `style` draws for `kind` inside a border.
pub open spec fn junction(style: Style, kind: Intersection) -> char {
    match kind {
        Intersection::Both => style.intersection,
        Intersection::Top => style.outer_bottom_horizontal,
        Intersection::Bottom => style.outer_top_horizontal,
    }
}

/// The table column at which the part with index `n` of `parts` begins: the
/// capped sum of the spans of the parts before it.
pub open spec fn part_start(parts: Seq<(usize, Intersection)>, n: int) -> usize
    decreases n,
{
    if n <= 0 {
        0
    } else {
        part_start(parts, n - 1).saturating_add(parts[n - 1].0)
    }
}

/// The inside of a border, for the first `n` of `parts`: for each part a run
/// of the horizontal character as wide as the part's columns, and between two
/// runs the junction of the part on the left. The junction of the last part
/// is not drawn: the border's closing character stands there.
pub open spec fn border_runs(
    parts: Seq<(usize, Intersection)>,
    widths: Seq<usize>,
    style: Style,
    n: int,
) -> Seq<char>
    decreases n,
{
    if n <= 0 {
        Seq::empty()
    } else {
        border_runs(parts, widths, style, n - 1) + (if n >= 2 {
            seq![junction(style, parts[n - 2].1)]
        } else {
            Seq::empty()
        }) + repeated(
            style.horizontal,
            run_width(widths, part_start(parts, n - 1), parts[n - 1].0) as nat,
        )
    }
}

/// `line`, which is `line_width` columns wide, placed in a field of `width`
/// columns. The columns that the line does not take are filled with spaces:
/// after it when aligned to the left, before it when aligned to the right,
/// and on both sides when centered, the smaller half before it. A line wider
/// than the field is left as it is.
pub open spec fn placed(line: Seq<char>, line_width: usize, width: usize, alignment: Alignment) -> Seq<
    char,
> {
    let slack = width.saturating_sub(line_width);
    match alignment {
        Alignment::Left => line + repeated(' ', slack as nat),
        Alignment::Center => repeated(' ', (slack / 2) as nat) + line + repeated(
            ' ',
            (slack - slack / 2) as nat,
        ),
        Alignment::Right => repeated(' ', slack as nat) + line,
    }
}

/// `line` placed in a field of `width` columns, by its visible width.
pub open spec fn aligned(line: Seq<char>, width: usize, alignment: Alignment) -> Seq<char> {
    placed(line, visible_width_of(line), width, alignment)
}

/// What `cell` shows on the line with index `k` of its row, when `width`
/// columns are left for its content: the line with index `k` of its wrapped
/// content, aligned, or spaces if the content has fewer lines; and one space
/// on each side if the cell is padded.
pub open spec fn cell_line(cell: CellView, width: usize, k: int) -> Seq<char> {
    let lines = wrapped(cell.content, width);
    let body = if 0 <= k < lines.len() {
        aligned(lines[k], width, cell.alignment)
    } else {
        repeated(' ', width as nat)
    };
    if cell.has_padding {
        seq![' '] + body + seq![' ']
    } else {
        body
    }
}

/// The line with index `k` of a row, as far as its first `n` cells: before
/// each cell the vertical character, then what the cell shows.
pub open spec fn cells_line(
    cells: Seq<CellView>,
    widths: Seq<usize>,
    style: Style,
    k: int,
    n: int,
) -> Seq<char>
    decreases n,
{
    if n <= 0 {
        Seq::empty()
    } else {
        cells_line(cells, widths, style, k, n - 1) + seq![style.vertical] + cell_line(
            cells[n - 1],
            inner_width(widths, cells, n - 1),
            k,
        )
    }
}

/// The line with index `k` of a row: its cells, and the vertical character
/// that closes the line.
pub open spec fn content_line(cells: Seq<CellView>, widths: Seq<usize>, style: Style, k: int) -> Seq<
    char,
> {
    cells_line(cells, widths, style, k, cells.len() as int) + seq![style.vertical]
}

/// The first `n` lines of a row, with a line feed between two lines.
pub open spec fn content_lines(cells: Seq<CellView>, widths: Seq<usize>, style: Style, n: int) -> Seq<
    char,
>
    decreases n,
{
    if n <= 0 {
        Seq::empty()
    } else {
        content_lines(cells, widths, style, n - 1) + (if n >= 2 {
            seq!['\n']
        } else {
            Seq::empty()
        }) + content_line(cells, widths, style, n - 1)
    }
}

/// The largest number of lines that any of the first `n` cells has once its
/// content is wrapped to the width left for it.
pub open spec fn height(cells: Seq<CellView>, widths: Seq<usize>, n: int) -> nat
    decreases n,
{
    if n <= 0 {
        0
    } else {
        let before = height(cells, widths, n - 1);
        let here = wrapped(cells[n - 1].content, inner_width(widths, cells, n - 1)).len();
        if here > before {
            here
        } else {
            before
        }
    }
}

/// Whether `inner_widths` holds, for each of `cells`, the width left for its
/// content, and `wrapped_contents` its content wrapped to that width.
pub open spec fn laid_out(
    cells: Seq<CellView>,
    widths: Seq<usize>,
    inner_widths: Seq<usize>,
    wrapped_contents: Seq<Vec<String>>,
) -> bool {
    &&& inner_widths.len() == cells.len()
    &&& wrapped_contents.len() == cells.len()
    &&& forall|k: int|
        0 <= k < cells.len() ==> #[trigger] inner_widths[k] == inner_width(widths, cells, k)
    &&& forall|k: int|
        0 <= k < cells.len() ==> views((#[trigger] wrapped_contents[k])@) == wrapped(
            cells[k].content,
            inner_width(widths, cells, k),
        )
}

/// The model of the row that a border is drawn under, if there is one.
pub open spec fn above_view(last_row: Option<&Row>) -> Option<RowView> {
    match last_row {
        Some(row) => Some(row@),
        None => None,
    }
}

impl RowView {
    /// The column spans of the row's cells.
    pub open spec fn spans(self) -> Seq<usize> {
        spans_of(self.cells)
    }

    /// The content of the row, drawn over columns of the given widths: as
    /// many lines as its tallest cell has, separated by line feeds.
    pub open spec fn content(self, widths: Seq<usize>, style: Style) -> Seq<char> {
        content_lines(
            self.cells,
            widths,
            style,
            height(self.cells, widths, self.cells.len() as int) as int,
        )
    }

    /// The parts of the border between this row and the row `above`, or the
    /// table's top edge if there is none.
    pub open spec fn top_parts(self, above: Option<RowView>) -> Seq<(usize, Intersection)> {
        intersections(
            match above {
                Some(row) => row.spans(),
                None => Seq::empty(),
            },
            self.spans(),
        )
    }

    /// The border on top of the row. Under a row `above` it starts and ends
    /// with the style's outer junctions; as the table's top edge it starts
    /// and ends with the top corners.
    pub open spec fn top_border(self, widths: Seq<usize>, style: Style, above: Option<RowView>) -> Seq<
        char,
    > {
        let parts = self.top_parts(above);
        seq![
            if above is None {
                style.top_left_corner
            } else {
                style.outer_left_vertical
            },
        ] + border_runs(parts, widths, style, parts.len() as int) + seq![
            if above is None {
                style.top_right_corner
            } else {
                style.outer_right_vertical
            },
        ]
    }

    /// The border under the row when it is the last one of its table: it has
    /// the row's own column boundaries, and the bottom corners at its ends.
    pub open spec fn bottom_border(self, widths: Seq<usize>, style: Style) -> Seq<char> {
        let parts = intersections(self.spans(), Seq::empty());
        seq![style.bottom_left_corner] + border_runs(parts, widths, style, parts.len() as int)
            + seq![style.bottom_right_corner]
    }
}

impl Default for Row {
    fn default() -> (row: Row)
        ensures
            row@.cells == Seq::<CellView>::empty(),
            row@.has_top_border,
    {
        Row::new()
    }
}

impl Row {
    /// Creates a new row: no cells, and a top border.
    pub fn new() -> (row: Row)
        ensures
            row@.cells == Seq::<CellView>::empty(),
            row@.has_top_border,
    {
        let row = Row { cells: Vec::new(), has_top_border: true };
        row
    }

    /// Adds a cell to the row.
    pub fn with_cell(self, cell: Cell) -> (row: Row)
        ensures
            row@ == (RowView { cells: self@.cells.push(cell@), ..self@ }),
    {
        let mut row = self;
        row.cells.push(cell);
        assert(row@.cells =~= self@.cells.push(cell@));
        row
    }

    /// Adds multiple cells to the row.
    pub fn with_cells(self, cells: Vec<Cell>) -> (row: Row)
        ensures
            row@ == (RowView { cells: self@.cells + cell_views(cells@), ..self@ }),
    {
        let mut row = self;
        let mut more = cells;
        row.cells.append(&mut more);
        assert(row@.cells =~= self@.cells + cell_views(cells@));
        row
    }

    /// Disables the top border for the row.
    pub fn without_top_border(self) -> (row: Row)
        ensures
            row@ == (RowView { has_top_border: false, ..self@ }),
    {
        let mut row = self;
        row.has_top_border = false;
        row
    }

    /// Returns the number of columns that the row takes: the sum of its
    /// cells' column spans, capped at `usize::MAX`.
    pub fn span_total(&self) -> (total: usize)
        ensures
            total == spans_sum(self@.cells),
    {
        let ghost cells = self@.cells;
        let mut total: usize = 0;
        let mut j: usize = 0;
        while j < self.cells.len()
            invariant
                j <= self.cells.len() == cells.len(),
                cells == self@.cells,
                total == start_column(cells, j as int),
            decreases self.cells.len() - j,
        {
            proof {
                lemma_start_column_step(cells, j as int);
            }
            total = total.saturating_add(self.cells[j].column_span);
            j = j + 1;
        }
        assert(cells.take(j as int) =~= cells);
        total
    }

    /// Returns the column spans of the row's cells.
    pub fn column_spans(&self) -> (spans: Vec<usize>)
        ensures
            spans@ == self@.spans(),
    {
        let mut spans: Vec<usize> = Vec::new();
        let mut j: usize = 0;
        while j < self.cells.len()
            invariant
                j <= self.cells.len(),
                spans@ == self@.spans().take(j as int),
            decreases self.cells.len() - j,
        {
            spans.push(self.cells[j].column_span);
            j = j + 1;
        }
        spans
    }

    /// Renders the contents of the row within the given string.
    ///
    /// Each cell's content is wrapped to the width that the cell's columns
    /// leave for it. The row has as many lines as its tallest cell; a cell
    /// with fewer lines shows spaces on the others.
    pub fn render_content(&self, rendered: &mut String, column_widths: &[usize], style: &Style)
        ensures
            final(rendered)@ == old(rendered)@ + self@.content(column_widths@, *style),
    {
        let ghost cells = self@.cells;
        let ghost widths = column_widths@;
        let count = self.cells.len();
        let mut row_height: usize = 0;
        let mut spanned_columns: usize = 0;
        let mut inner_widths: Vec<usize> = Vec::new();
        let mut wrapped_contents: Vec<Vec<String>> = Vec::new();
        let mut j: usize = 0;
        while j < count
            invariant
                j <= count == self.cells.len() == cells.len(),
                cells == self@.cells,
                widths == column_widths@,
                spanned_columns == start_column(cells, j as int),
                row_height == height(cells, widths, j as int),
                inner_widths.len() == j,
                wrapped_contents.len() == j,
                forall|k: int|
                    0 <= k < j ==> #[trigger] inner_widths[k] == inner_width(widths, cells, k),
                forall|k: int|
                    0 <= k < j ==> views((#[trigger] wrapped_contents[k])@) == wrapped(
                        cells[k].content,
                        inner_width(widths, cells, k),
                    ),
            decreases count - j,
        {
            let cell = &self.cells[j];
            let padding: usize = if cell.has_padding {
                2
            } else {
                0
            };
            let width = columns_width(column_widths, spanned_columns, cell.column_span).saturating_sub(
                padding,
            );
            let lines = cell.wrapped_content(width);
            proof {
                lemma_start_column_step(cells, j as int);
            }
            if lines.len() > row_height {
                row_height = lines.len();
            }
            inner_widths.push(width);
            wrapped_contents.push(lines);
            spanned_columns = spanned_columns.saturating_add(cell.column_span);
            j = j + 1;
        }
        let mut line_index: usize = 0;
        while line_index < row_height
            invariant
                line_index <= row_height,
                count == self.cells.len() == cells.len(),
                cells == self@.cells,
                widths == column_widths@,
                laid_out(cells, widths, inner_widths@, wrapped_contents@),
                rendered@ == old(rendered)@ + content_lines(cells, widths, *style, line_index as int),
            decreases row_height - line_index,
        {
            if line_index > 0 {
                push_char(rendered, '\n');
            }
            self.render_content_line(
                rendered,
                Ghost(widths),
                &inner_widths,
                &wrapped_contents,
                style,
                line_index,
            );
            line_index = line_index + 1;
        }
    }

    /// Appends the line with index `line_index` of the row to `rendered`,
    /// given the width left for each cell and each cell's wrapped content.
    fn render_content_line(
        &self,
        rendered: &mut String,
        Ghost(widths): Ghost<Seq<usize>>,
        inner_widths: &Vec<usize>,
        wrapped_contents: &Vec<Vec<String>>,
        style: &Style,
        line_index: usize,
    )
        requires
            laid_out(self@.cells, widths, inner_widths@, wrapped_contents@),
        ensures
            final(rendered)@ == old(rendered)@ + content_line(
                self@.cells,
                widths,
                *style,
                line_index as int,
            ),
    {
        let ghost cells = self@.cells;
        let count = self.cells.len();
        let mut j: usize = 0;
        while j < count
            invariant
                j <= count == self.cells.len() == cells.len(),
                cells == self@.cells,
                laid_out(cells, widths, inner_widths@, wrapped_contents@),
                rendered@ == old(rendered)@ + cells_line(
                    cells,
                    widths,
                    *style,
                    line_index as int,
                    j as int,
                ),
            decreases count - j,
        {
            let cell = &self.cells[j];
            push_char(rendered, style.vertical);
            render_cell_line(rendered, cell, &wrapped_contents[j], inner_widths[j], line_index);
            j = j + 1;
        }
        push_char(rendered, style.vertical);
    }

    /// Renders the top border of the row within the given string.
    ///
    /// `last_row` is the row above, if there is one: the border then has a
    /// junction wherever either row has a column boundary. Without it the
    /// border is the table's top edge.
    pub fn render_top_border(
        &self,
        rendered: &mut String,
        column_widths: &[usize],
        style: &Style,
        last_row: Option<&Row>,
    )
        ensures
            final(rendered)@ == old(rendered)@ + self@.top_border(
                column_widths@,
                *style,
                above_view(last_row),
            ),
    {
        let top_spans = match last_row {
            Some(row) => row.column_spans(),
            None => Vec::new(),
        };
        let bottom_spans = self.column_spans();
        let parts = list_intersections(top_spans.as_slice(), bottom_spans.as_slice());
        push_char(
            rendered,
            if last_row.is_none() {
                style.top_left_corner
            } else {
                style.outer_left_vertical
            },
        );
        render_border_runs(rendered, &parts, column_widths, style);
        push_char(
            rendered,
            if last_row.is_none() {
                style.top_right_corner
            } else {
                style.outer_right_vertical
            },
        );
    }
}

/// Returns the character that `style` draws for `kind` inside a border.
pub fn junction_of(style: &Style, kind: Intersection) -> (c: char)
    ensures
        c == junction(*style, kind),
{
    match kind {
        Intersection::Both => style.intersection,
        Intersection::Top => style.outer_bottom_horizontal,
        Intersection::Bottom => style.outer_top_horizontal,
    }
}

/// Appends to `rendered` what `cell` shows on the line with index
/// `line_index` of its row, given its content wrapped to `width`.
fn render_cell_line(
    rendered: &mut String,
    cell: &Cell,
    lines: &Vec<String>,
    width: usize,
    line_index: usize,
)
    requires
        views(lines@) == wrapped(cell@.content, width),
    ensures
        final(rendered)@ == old(rendered)@ + cell_line(cell@, width, line_index as int),
{
    if cell.has_padding {
        push_char(rendered, ' ');
    }
    if line_index < lines.len() {
        let line = lines[line_index].as_str();
        render_aligned(rendered, line, width, cell.alignment);
    } else {
        push_repeated(rendered, ' ', width);
    }
    if cell.has_padding {
        push_char(rendered, ' ');
    }
}

/// Appends `line` to `rendered`, placed in a field of `width` columns by its
/// visible width.
pub fn render_aligned(rendered: &mut String, line: &str, width: usize, alignment: Alignment)
    ensures
        final(rendered)@ == old(rendered)@ + aligned(line@, width, alignment),
{
    render_placed(rendered, line, visible_width(line), width, alignment);
}

/// Appends `line`, which is `line_width` columns wide, to `rendered`, placed
/// in a field of `width` columns.
pub fn render_placed(
    rendered: &mut String,
    line: &str,
    line_width: usize,
    width: usize,
    alignment: Alignment,
)
    ensures
        final(rendered)@ == old(rendered)@ + placed(line@, line_width, width, alignment),
{
    let slack = width.saturating_sub(line_width);
    match alignment {
        Alignment::Left => {
            rendered.append(line);
            push_repeated(rendered, ' ', slack);
        },
        Alignment::Center => {
            let padding = slack / 2;
            push_repeated(rendered, ' ', padding);
            rendered.append(line);
            push_repeated(rendered, ' ', slack - padding);
        },
        Alignment::Right => {
            push_repeated(rendered, ' ', slack);
            rendered.append(line);
        },
    }
}

/// Appends the inside of a border to `rendered`: a run of the horizontal
/// character for each of `parts`, and between two runs the junction of the
/// part on the left.
pub fn render_border_runs(
    rendered: &mut String,
    parts: &Vec<(usize, Intersection)>,
    column_widths: &[usize],
    style: &Style,
)
    ensures
        final(rendered)@ == old(rendered)@ + border_runs(
            parts@,
            column_widths@,
            *style,
            parts.len() as int,
        ),
{
    let mut spanned_columns: usize = 0;
    let mut k: usize = 0;
    while k < parts.len()
        invariant
            k <= parts.len(),
            spanned_columns == part_start(parts@, k as int),
            rendered@ == old(rendered)@ + border_runs(parts@, column_widths@, *style, k as int),
        decreases parts.len() - k,
    {
        let (column_span, _) = parts[k];
        if k > 0 {
            let (_, kind) = parts[k - 1];
            push_char(rendered, junction_of(style, kind));
        }
        let width = columns_width(column_widths, spanned_columns, column_span);
        push_repeated(rendered, style.horizontal, width);
        spanned_columns = spanned_columns.saturating_add(column_span);
        k = k + 1;
    }
}

/// On every line of its row, a padded cell shows what the same cell without
/// padding shows in the same width, with one space before it and one after.
pub proof fn lemma_padding_is_one_space_each_side(cell: CellView, width: usize, k: int)
    ensures
        cell_line(CellView { has_padding: true, ..cell }, width, k) == seq![' '] + cell_line(
            CellView { has_padding: false, ..cell },
            width,
            k,
        ) + seq![' '],
{
}

} // verus!
