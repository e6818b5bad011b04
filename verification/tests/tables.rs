use tableau::layout::columns_width;
use tableau::Alignment;
use tableau::Cell;
use tableau::Row;
use tableau::Style;
use tableau::Table;

fn row(contents: &[&str]) -> Row {
    Row::new().with_cells(contents.iter().map(|c| Cell::new(*c)).collect())
}

#[test]
fn new_table_has_default_settings() {
    let table = Table::new();
    assert!(table.rows.is_empty());
    assert_eq!(table.style, Style::rounded());
    assert_eq!(table.max_column_width, None);
    assert!(table.max_column_widths.is_empty());
    assert!(table.has_separate_rows);
    assert!(table.has_top_border);
    assert!(table.has_bottom_border);
    assert_eq!(Table::default(), Table::new());
}

#[test]
fn table_builders_set_one_field_each() {
    let table = Table::new()
        .with_style(Style::heavy())
        .with_max_column_width(12)
        .with_max_column_width_at_index(2, 5)
        .with_max_column_width_at_index(0, 7)
        .with_row(row(&["a"]))
        .with_rows(vec![row(&["b"]), row(&["c"])]);
    assert_eq!(table.style, Style::heavy());
    assert_eq!(table.max_column_width, Some(12));
    assert_eq!(table.max_column_widths.len(), 2);
    assert_eq!(table.max_column_widths.get(&0), Some(&7));
    assert_eq!(table.max_column_widths.get(&2), Some(&5));
    assert_eq!(table.rows.len(), 3);
    assert_eq!(table.rows[2].cells[0].content, "c");
    assert!(!table.clone().without_separate_rows().has_separate_rows);
    assert!(!table.clone().without_top_border().has_top_border);
    assert!(!table.clone().without_bottom_border().has_bottom_border);
}

#[test]
fn renders_one_row_of_two_cells() {
    let table = Table::new()
        .with_style(Style::ascii())
        .with_row(Row::new().with_cell(Cell::new("A")).with_cell(Cell::new("BB")));
    assert_eq!(table.render(), "+---+----+\n| A | BB |\n+---+----+");
}

#[test]
fn renders_an_empty_table_as_the_empty_string() {
    assert_eq!(Table::new().render(), "");
    assert_eq!(Table::new().without_bottom_border().render(), "");
}

#[test]
fn rendering_twice_gives_the_same_string() {
    let table = Table::new().with_row(row(&["a", "b"])).with_row(row(&["c"]));
    assert_eq!(table.render(), table.render());
}

#[test]
fn column_widths_are_the_widest_cell_of_each_column() {
    let table = Table::new()
        .with_row(row(&["a", "bbbb", ""]))
        .with_row(row(&["cccccc", "d"]))
        .with_row(
            Row::new()
                .with_cell(Cell::new("ee").without_padding())
                .with_cell(Cell::new("ffffff").without_padding())
                .with_cell(Cell::new("日本").without_padding()),
        );
    assert_eq!(table.calculate_column_widths(), vec![8, 6, 4]);
}

#[test]
fn column_widths_of_a_spanning_cell_are_divided_with_the_rest_on_the_left() {
    // Ten columns of content and two of padding, less the two separators
    // that the cell covers, leave ten: three for each column, and one more
    // for the first.
    let table = Table::new().with_row(Row::new().with_cell(Cell::new("0123456789").with_column_span(3)));
    assert_eq!(table.calculate_column_widths(), vec![4, 3, 3]);
}

#[test]
fn column_widths_are_not_widened_by_a_span_that_already_fits() {
    let table = Table::new()
        .with_row(row(&["aaaa", "bbbb"]))
        .with_row(Row::new().with_cell(Cell::new("cc").with_column_span(2)));
    assert_eq!(table.calculate_column_widths(), vec![6, 6]);
}

#[test]
fn column_widths_of_a_cell_narrower_than_its_separators_are_zero() {
    let table = Table::new()
        .with_row(Row::new().with_cell(Cell::new("").without_padding().with_column_span(4)));
    assert_eq!(table.calculate_column_widths(), vec![0, 0, 0, 0]);
    let table = Table::new()
        .with_row(Row::new().with_cell(Cell::new("ab").without_padding().with_column_span(4)));
    assert_eq!(table.calculate_column_widths(), vec![0, 0, 0, 0]);
}

#[test]
fn column_widths_count_the_widest_row() {
    let table = Table::new()
        .with_row(row(&["a"]))
        .with_row(row(&["b", "c", "d"]))
        .with_row(Row::new().with_cell(Cell::new("e").with_column_span(2)));
    assert_eq!(table.calculate_column_widths().len(), 3);
    assert_eq!(Table::new().calculate_column_widths(), Vec::<usize>::new());
}

#[test]
fn column_widths_are_lowered_to_the_maximum_width() {
    let table = Table::new()
        .with_row(row(&["aaaaaaaa", "bb", "cccccccc"]))
        .with_max_column_width(6);
    assert_eq!(table.calculate_column_widths(), vec![6, 4, 6]);
}

#[test]
fn column_widths_prefer_the_maximum_width_of_the_column() {
    let table = Table::new()
        .with_row(row(&["aaaaaaaa", "bbbbbbbb", "cccccccc"]))
        .with_max_column_width(6)
        .with_max_column_width_at_index(1, 8)
        .with_max_column_width_at_index(2, 3);
    assert_eq!(table.calculate_column_widths(), vec![6, 8, 3]);
}

#[test]
fn a_maximum_width_never_widens_a_column() {
    let table = Table::new()
        .with_row(row(&["a", "b"]))
        .with_max_column_width(40)
        .with_max_column_width_at_index(1, 50);
    assert_eq!(table.calculate_column_widths(), vec![3, 3]);
}

#[test]
fn a_maximum_width_makes_the_content_wrap() {
    let table = Table::new()
        .with_style(Style::ascii())
        .with_row(row(&["hello world"]))
        .with_max_column_width(7);
    assert_eq!(
        table.render(),
        "+-------+\n| hello |\n|  worl |\n| d     |\n+-------+"
    );
}

#[test]
fn renders_borders_between_rows() {
    let table = Table::new()
        .with_style(Style::ascii())
        .with_row(row(&["a", "b"]))
        .with_row(row(&["c", "d"]));
    assert_eq!(
        table.render(),
        "+---+---+\n| a | b |\n+---+---+\n| c | d |\n+---+---+"
    );
}

#[test]
fn renders_without_separate_rows() {
    let table = Table::new()
        .with_style(Style::ascii())
        .with_row(row(&["a", "b"]))
        .with_row(row(&["c", "d"]))
        .without_separate_rows();
    assert_eq!(table.render(), "+---+---+\n| a | b |\n| c | d |\n+---+---+");
}

#[test]
fn renders_without_top_border() {
    let table = Table::new()
        .with_style(Style::ascii())
        .with_row(row(&["a"]))
        .with_row(row(&["b"]))
        .without_top_border();
    assert_eq!(table.render(), "| a |\n+---+\n| b |\n+---+");
}

#[test]
fn renders_without_bottom_border() {
    let table = Table::new()
        .with_style(Style::ascii())
        .with_row(row(&["a"]))
        .without_bottom_border();
    assert_eq!(table.render(), "+---+\n| a |");
}

#[test]
fn a_row_without_top_border_overrides_the_table() {
    let table = Table::new()
        .with_style(Style::ascii())
        .with_row(row(&["a"]).without_top_border())
        .with_row(row(&["b"]))
        .with_row(row(&["c"]).without_top_border());
    assert_eq!(table.render(), "| a |\n+---+\n| b |\n| c |\n+---+");
}

#[test]
fn renders_spans_with_merged_borders() {
    let table = Table::new()
        .with_style(Style::thin())
        .with_row(
            Row::new()
                .with_cell(Cell::new("ab").with_column_span(2))
                .with_cell(Cell::new("cd").with_column_span(2)),
        )
        .with_row(row(&["1", "2", "3", "4"]));
    let expected = [
        "┌───────┬───────┐",
        "│ ab    │ cd    │",
        "├───┬───┼───┬───┤",
        "│ 1 │ 2 │ 3 │ 4 │",
        "└───┴───┴───┴───┘",
    ];
    assert_eq!(table.render(), expected.join("\n"));
}

#[test]
fn border_between_a_coarse_and_a_fine_row_has_three_junctions() {
    let table = Table::new()
        .with_style(Style::heavy())
        .with_row(
            Row::new()
                .with_cell(Cell::new("").with_column_span(2))
                .with_cell(Cell::new("").with_column_span(2)),
        )
        .with_row(row(&["", "", "", ""]));
    let rendered = table.render();
    let border: &str = rendered.lines().nth(2).unwrap();
    assert_eq!(border, "╠══╦══╬══╦══╣");
    let junctions: Vec<char> = border.chars().filter(|c| *c != '═').collect();
    // Between the outer characters: a boundary of the row below only, one
    // that both rows have, and again one of the row below only.
    assert_eq!(junctions, vec!['╠', '╦', '╬', '╦', '╣']);
}

#[test]
fn renders_a_heading_over_all_columns() {
    let table = Table::new()
        .with_style(Style::rounded())
        .with_row(
            Row::new().with_cell(
                Cell::new("Title")
                    .with_alignment(Alignment::Center)
                    .with_column_span(3),
            ),
        )
        .with_row(row(&["one", "two", "three"]));
    let expected = [
        "╭───────────────────╮",
        "│       Title       │",
        "├─────┬─────┬───────┤",
        "│ one │ two │ three │",
        "╰─────┴─────┴───────╯",
    ];
    assert_eq!(table.render(), expected.join("\n"));
}

#[test]
fn every_line_of_a_table_with_a_heading_is_equally_wide() {
    let table = Table::new()
        .with_style(Style::ascii())
        .with_row(Row::new().with_cell(Cell::new("a heading that is wider than the columns").with_column_span(3)))
        .with_row(row(&["one", "two", "three"]))
        .with_row(Row::new().with_cell(Cell::new("x").with_column_span(3)))
        .with_row(row(&["1", "multiple\nlines", "3"]));
    let rendered = table.render();
    let widths: Vec<usize> = rendered.lines().map(|l| l.chars().count()).collect();
    assert_eq!(widths.len(), 10);
    assert!(widths.iter().all(|w| *w == widths[0]));
    assert_eq!(widths[0], 44);
}

#[test]
fn renders_rows_that_span_fewer_columns_from_the_left() {
    let table = Table::new()
        .with_style(Style::ascii())
        .with_row(row(&["a", "b", "c"]))
        .with_row(row(&["d"]));
    assert_eq!(
        table.render(),
        "+---+---+---+\n| a | b | c |\n+---+---+---+\n| d |\n+---+"
    );
}

#[test]
fn renders_multiple_lines_in_a_cell() {
    let table = Table::new()
        .with_style(Style::ascii())
        .with_row(row(&["one\ntwo", "x"]));
    assert_eq!(
        table.render(),
        "+-----+---+\n| one | x |\n| two |   |\n+-----+---+"
    );
}

#[test]
fn renders_a_zero_span_without_failing() {
    let table = Table::new()
        .with_style(Style::ascii())
        .with_row(Row::new().with_cell(Cell::new("a").with_column_span(0)).with_cell(Cell::new("b")));
    assert_eq!(table.calculate_column_widths(), vec![3]);
    // The cell that spans no column has no room for its content, which is
    // wrapped at width zero and keeps its padding.
    assert_eq!(table.render(), "++---+\n|  | b |\n| a |   |\n++---+");
}

#[test]
fn renders_a_column_narrower_than_the_padding_without_failing() {
    let table = Table::new()
        .with_style(Style::ascii())
        .with_row(row(&["ab"]))
        .with_max_column_width(1);
    assert_eq!(table.calculate_column_widths(), vec![1]);
    assert_eq!(table.render(), "+-+\n|  |\n| a |\n| b |\n+-+");
}

#[test]
fn renders_escape_sequences_unchanged() {
    let table = Table::new()
        .with_style(Style::ascii())
        .with_row(row(&["\u{1b}[1mbold\u{1b}[0m", "plain"]));
    assert_eq!(
        table.render(),
        "+------+-------+\n| \u{1b}[1mbold\u{1b}[0m | plain |\n+------+-------+"
    );
}

#[test]
fn renders_wide_characters_by_their_width() {
    let table = Table::new()
        .with_style(Style::ascii())
        .with_row(row(&["日本"]))
        .with_row(row(&["abcd"]));
    assert_eq!(
        table.render(),
        "+------+\n| 日本 |\n+------+\n| abcd |\n+------+"
    );
}

#[test]
fn style_presets_have_their_characters() {
    let ascii = Style::ascii();
    assert_eq!(ascii.top_left_corner, '+');
    assert_eq!(ascii.intersection, '+');
    assert_eq!(ascii.vertical, '|');
    assert_eq!(ascii.horizontal, '-');
    let thin = Style::thin();
    assert_eq!(
        [thin.top_left_corner, thin.top_right_corner, thin.bottom_left_corner, thin.bottom_right_corner],
        ['┌', '┐', '└', '┘']
    );
    assert_eq!(
        [thin.outer_left_vertical, thin.outer_right_vertical, thin.outer_bottom_horizontal, thin.outer_top_horizontal],
        ['├', '┤', '┴', '┬']
    );
    assert_eq!([thin.intersection, thin.vertical, thin.horizontal], ['┼', '│', '─']);
    let rounded = Style::rounded();
    assert_eq!(
        [rounded.top_left_corner, rounded.top_right_corner, rounded.bottom_left_corner, rounded.bottom_right_corner],
        ['╭', '╮', '╰', '╯']
    );
    assert_eq!(Style { top_left_corner: '┌', top_right_corner: '┐', bottom_left_corner: '└', bottom_right_corner: '┘', ..rounded }, thin);
    let heavy = Style::heavy();
    assert_eq!(
        [heavy.top_left_corner, heavy.top_right_corner, heavy.bottom_left_corner, heavy.bottom_right_corner],
        ['╔', '╗', '╚', '╝']
    );
    assert_eq!(
        [heavy.outer_left_vertical, heavy.outer_right_vertical, heavy.outer_bottom_horizontal, heavy.outer_top_horizontal],
        ['╠', '╣', '╩', '╦']
    );
    assert_eq!([heavy.intersection, heavy.vertical, heavy.horizontal], ['╬', '║', '═']);
    let fancy = Style::fancy();
    assert_eq!(Style { intersection: '┼', vertical: '│', horizontal: '─', ..heavy }, fancy);
    let empty = Style::empty();
    assert_eq!(Style { vertical: ' ', horizontal: ' ', ..empty.clone() }, empty);
    assert_eq!(empty.top_left_corner, ' ');
    assert_eq!(empty.intersection, ' ');
}

#[test]
fn renders_with_the_empty_style() {
    let table = Table::new().with_style(Style::empty()).with_row(row(&["a", "b"]));
    assert_eq!(table.render(), "         \n  a   b  \n         ");
}

fn spanning_table() -> Table {
    Table::new()
        .with_row(Row::new().with_cell(Cell::new("a long heading over everything").with_column_span(4)))
        .with_row(row(&["one", "two", "three", "four"]))
        .with_row(
            Row::new()
                .with_cell(Cell::new("left pair").with_column_span(2))
                .with_cell(Cell::new("right pair, which is longer").with_column_span(2)),
        )
        .with_row(
            Row::new()
                .with_cell(Cell::new("x").without_padding())
                .with_cell(Cell::new("three in a row").with_column_span(3)),
        )
}

#[test]
fn columns_are_wide_enough_for_every_cell() {
    let table = spanning_table();
    let widths = table.calculate_column_widths();
    assert_eq!(widths.len(), 4);
    for row in &table.rows {
        let mut start = 0;
        for cell in &row.cells {
            let run = columns_width(&widths, start, cell.column_span);
            assert!(run >= cell.width());
            assert_eq!(cell.wrapped_content(run - if cell.has_padding { 2 } else { 0 }).len(), 1);
            start += cell.column_span;
        }
    }
}

#[test]
fn columns_width_adds_the_separators_between_columns() {
    let widths = [3, 4, 5];
    assert_eq!(columns_width(&widths, 0, 1), 3);
    assert_eq!(columns_width(&widths, 0, 2), 8);
    assert_eq!(columns_width(&widths, 1, 2), 10);
    assert_eq!(columns_width(&widths, 0, 3), 14);
    // Columns that do not exist add nothing but their separators.
    assert_eq!(columns_width(&widths, 2, 2), 6);
    assert_eq!(columns_width(&widths, 5, 1), 0);
    assert_eq!(columns_width(&widths, 0, 0), 0);
}

#[test]
fn shares_of_a_spanning_cell_add_up_to_its_width() {
    for content_width in 0..40 {
        for span in 1..6 {
            let content = "x".repeat(content_width);
            let cell = Cell::new(&content).with_column_span(span);
            let whole = cell.width();
            let widths = Table::new().with_row(Row::new().with_cell(cell)).calculate_column_widths();
            assert_eq!(widths.len(), span);
            let total: usize = widths.iter().sum::<usize>() + span - 1;
            if whole >= span - 1 {
                assert_eq!(total, whole);
            } else {
                assert_eq!(total, span - 1);
            }
            // The remainder goes to the first column; the others are equal.
            assert!(widths.iter().all(|w| *w <= widths[0]));
            assert!(widths[1..].iter().all(|w| *w == widths[span - 1]));
        }
    }
}

#[test]
fn a_column_is_never_wider_than_its_maximum_width() {
    let table = spanning_table().with_max_column_width(5).with_max_column_width_at_index(1, 2);
    let natural = spanning_table().calculate_column_widths();
    let widths = table.calculate_column_widths();
    assert_eq!(widths.len(), natural.len());
    for (index, width) in widths.iter().enumerate() {
        let max_width = if index == 1 { 2 } else { 5 };
        assert_eq!(*width, natural[index].min(max_width));
    }
}
