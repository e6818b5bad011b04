//! Styles: the characters that borders and junctions are drawn with.

use vstd::prelude::*;

verus! {

/// A struct that contains the characters used to draw a table.
#[derive(Debug, Clone, PartialEq, Eq, Hash)]
pub struct Style {
    /// The character used for a top-left corner.
    pub top_left_corner: char,
    /// The character used for a top-right corner.
    pub top_right_corner: char,
    /// The character used for a bottom-left corner.
    pub bottom_left_corner: char,
    /// The character used for a bottom-right corner.
    pub bottom_right_corner: char,
    /// The character used for a vertical line with a right intersection.
    pub outer_left_vertical: char,
    /// The character used for a vertical line with a left intersection.
    pub outer_right_vertical: char,
    /// The character used for a horizontal line with a top intersection.
    pub outer_bottom_horizontal: char,
    /// The character used for a horizontal line with a bottom intersection.
    pub outer_top_horizontal: char,
    /// The character used for a four-way intersection of lines.
    pub intersection: char,
    /// The character used for a vertical line.
    pub vertical: char,
    /// The character used for a horizontal line.
    pub horizontal: char,
}

impl Style {
    /// A simple plain ASCII table style.
    ///
    /// <pre>
    /// +---------------------+
    /// |       centered      |
    /// +----------+----------+
    /// | left     |    right |
    /// +----------+----------+
    /// | left     |    right |
    /// +----------+----------+
    /// | one cell over both  |
    /// +---------------------+
    /// </pre>
    pub fn ascii() -> (style: Style)
        ensures
            style.top_left_corner == '+',
            style.top_right_corner == '+',
            style.bottom_left_corner == '+',
            style.bottom_right_corner == '+',
            style.outer_left_vertical == '+',
            style.outer_right_vertical == '+',
            style.outer_bottom_horizontal == '+',
            style.outer_top_horizontal == '+',
            style.intersection == '+',
            style.vertical == '|',
            style.horizontal == '-',
    {
        Style {
            top_left_corner: '+',
            top_right_corner: '+',
            bottom_left_corner: '+',
            bottom_right_corner: '+',
            outer_left_vertical: '+',
            outer_right_vertical: '+',
            outer_bottom_horizontal: '+',
            outer_top_horizontal: '+',
            intersection: '+',
            vertical: '|',
            horizontal: '-',
        }
    }

    /// A heavy table style with double lines.
    ///
    /// <pre>
    /// ╔═════════════════════╗
    /// ║       centered      ║
    /// ╠══════════╦══════════╣
    /// ║ left     ║    right ║
    /// ╠══════════╬══════════╣
    /// ║ left     ║    right ║
    /// ╠══════════╩══════════╣
    /// ║ one cell over both  ║
    /// ╚═════════════════════╝
    /// </pre>
    pub fn heavy() -> (style: Style)
        ensures
            style.top_left_corner == '╔',
            style.top_right_corner == '╗',
            style.bottom_left_corner == '╚',
            style.bottom_right_corner == '╝',
            style.outer_left_vertical == '╠',
            style.outer_right_vertical == '╣',
            style.outer_bottom_horizontal == '╩',
            style.outer_top_horizontal == '╦',
            style.intersection == '╬',
            style.vertical == '║',
            style.horizontal == '═',
    {
        Style {
            top_left_corner: '╔',
            top_right_corner: '╗',
            bottom_left_corner: '╚',
            bottom_right_corner: '╝',
            outer_left_vertical: '╠',
            outer_right_vertical: '╣',
            outer_bottom_horizontal: '╩',
            outer_top_horizontal: '╦',
            intersection: '╬',
            vertical: '║',
            horizontal: '═',
        }
    }

    /// A thin table style with single lines.
    ///
    /// <pre>
    /// ┌─────────────────────┐
    /// │       centered      │
    /// ├──────────┬──────────┤
    /// │ left     │    right │
    /// ├──────────┼──────────┤
    /// │ left     │    right │
    /// ├──────────┴──────────┤
    /// │ one cell over both  │
    /// └─────────────────────┘
    /// </pre>
    pub fn thin() -> (style: Style)
        ensures
            style.top_left_corner == '┌',
            style.top_right_corner == '┐',
            style.bottom_left_corner == '└',
            style.bottom_right_corner == '┘',
            style.outer_left_vertical == '├',
            style.outer_right_vertical == '┤',
            style.outer_bottom_horizontal == '┴',
            style.outer_top_horizontal == '┬',
            style.intersection == '┼',
            style.vertical == '│',
            style.horizontal == '─',
    {
        Style {
            top_left_corner: '┌',
            top_right_corner: '┐',
            bottom_left_corner: '└',
            bottom_right_corner: '┘',
            outer_left_vertical: '├',
            outer_right_vertical: '┤',
            outer_bottom_horizontal: '┴',
            outer_top_horizontal: '┬',
            intersection: '┼',
            vertical: '│',
            horizontal: '─',
        }
    }

    /// A thin table style with single lines and rounded corners.
    ///
    /// <pre>
    /// ╭─────────────────────╮
    /// │       centered      │
    /// ├──────────┬──────────┤
    /// │ left     │    right │
    /// ├──────────┼──────────┤
    /// │ left     │    right │
    /// ├──────────┴──────────┤
    /// │ one cell over both  │
    /// ╰─────────────────────╯
    /// </pre>
    pub fn rounded() -> (style: Style)
        ensures
            style.top_left_corner == '╭',
            style.top_right_corner == '╮',
            style.bottom_left_corner == '╰',
            style.bottom_right_corner == '╯',
            style.outer_left_vertical == '├',
            style.outer_right_vertical == '┤',
            style.outer_bottom_horizontal == '┴',
            style.outer_top_horizontal == '┬',
            style.intersection == '┼',
            style.vertical == '│',
            style.horizontal == '─',
    {
        Style {
            top_left_corner: '╭',
            top_right_corner: '╮',
            bottom_left_corner: '╰',
            bottom_right_corner: '╯',
            outer_left_vertical: '├',
            outer_right_vertical: '┤',
            outer_bottom_horizontal: '┴',
            outer_top_horizontal: '┬',
            intersection: '┼',
            vertical: '│',
            horizontal: '─',
        }
    }

    /// A fancy table style with thin lines and pronounced corners.
    ///
    /// <pre>
    /// ╔─────────────────────╗
    /// │       centered      │
    /// ╠──────────╦──────────╣
    /// │ left     │    right │
    /// ╠──────────┼──────────╣
    /// │ left     │    right │
    /// ╠──────────╩──────────╣
    /// │ one cell over both  │
    /// ╚─────────────────────╝
    /// </pre>
    pub fn fancy() -> (style: Style)
        ensures
            style.top_left_corner == '╔',
            style.top_right_corner == '╗',
            style.bottom_left_corner == '╚',
            style.bottom_right_corner == '╝',
            style.outer_left_vertical == '╠',
            style.outer_right_vertical == '╣',
            style.outer_bottom_horizontal == '╩',
            style.outer_top_horizontal == '╦',
            style.intersection == '┼',
            style.vertical == '│',
            style.horizontal == '─',
    {
        Style {
            top_left_corner: '╔',
            top_right_corner: '╗',
            bottom_left_corner: '╚',
            bottom_right_corner: '╝',
            outer_left_vertical: '╠',
            outer_right_vertical: '╣',
            outer_bottom_horizontal: '╩',
            outer_top_horizontal: '╦',
            intersection: '┼',
            vertical: '│',
            horizontal: '─',
        }
    }

    /// A table style that does not draw any lines (using spaces).
    ///
    /// <pre>
    ///
    ///         centered
    ///
    ///   left          right
    ///
    ///   left          right
    ///
    ///   one cell over both
    ///
    /// </pre>
    pub fn empty() -> (style: Style)
        ensures
            style.top_left_corner == ' ',
            style.top_right_corner == ' ',
            style.bottom_left_corner == ' ',
            style.bottom_right_corner == ' ',
            style.outer_left_vertical == ' ',
            style.outer_right_vertical == ' ',
            style.outer_bottom_horizontal == ' ',
            style.outer_top_horizontal == ' ',
            style.intersection == ' ',
            style.vertical == ' ',
            style.horizontal == ' ',
    {
        Style {
            top_left_corner: ' ',
            top_right_corner: ' ',
            bottom_left_corner: ' ',
            bottom_right_corner: ' ',
            outer_left_vertical: ' ',
            outer_right_vertical: ' ',
            outer_bottom_horizontal: ' ',
            outer_top_horizontal: ' ',
            intersection: ' ',
            vertical: ' ',
            horizontal: ' ',
        }
    }
}

} // verus!
