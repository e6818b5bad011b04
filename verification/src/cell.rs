//! Cells: the content of one table cell, how it is to be laid out, and its
//! natural width.

use crate::text::visible_width;
use crate::text::visible_width_of;
use crate::text::views;
use crate::wrap::wrap;
use crate::wrap::wrapped;
use std::fmt::Display;
use vstd::prelude::*;
use vstd::string::to_string_from_display_ensures;

verus! {

/// The alignment of a cell's content.
#[derive(Debug, Clone, Copy, PartialEq, Eq, Hash)]
pub enum Alignment {
    /// Align the content to the left.
    Left,
    /// Align the content to the center.
    Center,
    /// Align the content to the right.
    Right,
}

/// A cell in a table row.
#[derive(Debug, Clone, PartialEq)]
pub struct Cell {
    /// The content of the cell.
    pub content: String,
    /// The number of columns the cell spans.
    pub column_span: usize,
    /// The alignment of the cell's content.
    pub alignment: Alignment,
    /// Whether the cell's content should be horizontally padded.
    pub has_padding: bool,
}

/// The mathematical model of a [`Cell`]: the same fields, with the content as
/// a sequence of characters.
pub struct CellView {
    pub content: Seq<char>,
    pub column_span: usize,
    pub alignment: Alignment,
    pub has_padding: bool,
}

impl View for Cell {
    type V = CellView;

    open spec fn view(&self) -> CellView {
        CellView {
            content: self.content@,
            column_span: self.column_span,
            alignment: self.alignment,
            has_padding: self.has_padding,
        }
    }
}

/// The models of `cells`.
pub open spec fn cell_views(cells: Seq<Cell>) -> Seq<CellView> {
    cells.map_values(|c: Cell| c@)
}

impl CellView {
    /// The columns taken by the padding of the cell: one on each side, or none.
    pub open spec fn padding(self) -> usize {
        if self.has_padding {
            2
        } else {
            0
        }
    }

    /// The natural width of the cell: the visible width of its content plus
    /// its padding, capped at `usize::MAX`.
    pub open spec fn width(self) -> usize {
        visible_width_of(self.content).saturating_add(self.padding())
    }
}

impl Cell {
    /// Creates a new cell with the given content, spanning one column,
    /// aligned to the left and padded.
    pub fn new<T: Display + ?Sized>(content: &T) -> (cell: Cell)
        ensures
            to_string_from_display_ensures::<T>(content, cell.content),
            cell.column_span == 1,
            cell.alignment == Alignment::Left,
            cell.has_padding,
    {
        Cell {
            content: content.to_string(),
            column_span: 1,
            alignment: Alignment::Left,
            has_padding: true,
        }
    }

    /// Sets the number of columns the cell spans.
    pub fn with_column_span(self, column_span: usize) -> (cell: Cell)
        ensures
            cell@ == (CellView { column_span: column_span, ..self@ }),
    {
        let mut cell = self;
        cell.column_span = column_span;
        cell
    }

    /// Sets the alignment of the cell's content.
    pub fn with_alignment(self, alignment: Alignment) -> (cell: Cell)
        ensures
            cell@ == (CellView { alignment: alignment, ..self@ }),
    {
        let mut cell = self;
        cell.alignment = alignment;
        cell
    }

    /// Disables horizontal padding for the cell.
    pub fn without_padding(self) -> (cell: Cell)
        ensures
            cell@ == (CellView { has_padding: false, ..self@ }),
    {
        let mut cell = self;
        cell.has_padding = false;
        cell
    }

    /// Returns the width of the cell: the visible width of its content, plus
    /// two columns if it is padded.
    pub fn width(&self) -> (width: usize)
        ensures
            width == self@.width(),
    {
        let padding: usize = if self.has_padding {
            2
        } else {
            0
        };
        visible_width(self.content.as_str()).saturating_add(padding)
    }

    /// Returns the contents of the cell, wrapped to fit in `max_width`.
    ///
    /// A new line starts at each line feed, wherever the line so far has
    /// reached `max_width` visible columns, and wherever the next character
    /// would make a line that shows something wider than `max_width`. An
    /// escape sequence is never broken and never counts towards the width.
    /// The last line is always handed out, so an empty content gives one
    /// empty line.
    pub fn wrapped_content(&self, max_width: usize) -> (lines: Vec<String>)
        ensures
            views(lines@) == wrapped(self@.content, max_width),
    {
        wrap(self.content.as_str(), max_width)
    }
}

/// Padding is worth exactly two columns: a padded cell is two columns wider
/// than the same cell without padding, as long as the width is not capped.
pub proof fn lemma_padding_adds_two(cell: CellView)
    requires
        visible_width_of(cell.content) + 2 <= usize::MAX,
    ensures
        (CellView { has_padding: true, ..cell }).width() == (CellView {
            has_padding: false,
            ..cell
        }).width() + 2,
        (CellView { has_padding: false, ..cell }).width() == visible_width_of(cell.content),
{
}

} // verus!
