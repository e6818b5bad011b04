use tableau::text::visible_width;
use tableau::wrap::starts_new_line;
use tableau::wrap::wrap;
use tableau::Alignment;
use tableau::Cell;

fn strings(lines: &[&str]) -> Vec<String> {
    lines.iter().map(|s| s.to_string()).collect()
}

#[test]
fn new_cell_has_default_settings() {
    let cell = Cell::new("text");
    assert_eq!(cell.content, "text");
    assert_eq!(cell.column_span, 1);
    assert_eq!(cell.alignment, Alignment::Left);
    assert!(cell.has_padding);
}

#[test]
fn new_cell_takes_anything_that_displays() {
    assert_eq!(Cell::new(&42).content, "42");
    assert_eq!(Cell::new(&String::from("owned")).content, "owned");
    assert_eq!(Cell::new(&'c').content, "c");
}

#[test]
fn cell_builders_set_one_field_each() {
    let cell = Cell::new("x").with_column_span(3);
    assert_eq!(cell.column_span, 3);
    assert_eq!(cell.content, "x");
    assert_eq!(cell.alignment, Alignment::Left);
    assert!(cell.has_padding);

    let cell = Cell::new("x").with_alignment(Alignment::Right);
    assert_eq!(cell.alignment, Alignment::Right);
    assert_eq!(cell.column_span, 1);
    assert!(cell.has_padding);

    let cell = Cell::new("x").with_alignment(Alignment::Center).without_padding();
    assert!(!cell.has_padding);
    assert_eq!(cell.alignment, Alignment::Center);
    assert_eq!(cell.column_span, 1);
}

#[test]
fn cell_width_adds_two_for_padding() {
    assert_eq!(Cell::new("abc").width(), 5);
    assert_eq!(Cell::new("").width(), 2);
    assert_eq!(Cell::new("日本").width(), 6);
    assert_eq!(Cell::new("\u{1b}[31mred\u{1b}[0m").width(), 5);
}

#[test]
fn disabling_padding_lowers_the_width_by_two() {
    for content in ["", "a", "hello world", "日本語", "two\nlines", "\u{1b}[1mbold\u{1b}[0m"] {
        let padded = Cell::new(content);
        let bare = Cell::new(content).without_padding();
        assert_eq!(padded.width(), bare.width() + 2);
    }
    assert_eq!(Cell::new("abc").without_padding().width(), 3);
}

#[test]
fn wrapping_splits_on_width_alone() {
    assert_eq!(
        Cell::new("hello world").wrapped_content(5),
        strings(&["hello", " worl", "d"])
    );
}

#[test]
fn wrapping_an_empty_content_gives_one_empty_line() {
    assert_eq!(Cell::new("").wrapped_content(10), strings(&[""]));
    assert_eq!(Cell::new("").wrapped_content(0), strings(&[""]));
}

#[test]
fn wrapping_splits_at_line_feeds() {
    assert_eq!(Cell::new("ab\ncd").wrapped_content(10), strings(&["ab", "cd"]));
    assert_eq!(Cell::new("ab\n\ncd").wrapped_content(10), strings(&["ab", "", "cd"]));
}

#[test]
fn wrapping_keeps_an_empty_line_after_a_final_line_feed() {
    assert_eq!(Cell::new("ab\n").wrapped_content(10), strings(&["ab", ""]));
    assert_eq!(Cell::new("\n").wrapped_content(10), strings(&["", ""]));
}

#[test]
fn wrapping_content_that_fills_the_width_exactly_gives_one_line() {
    assert_eq!(Cell::new("hello").wrapped_content(5), strings(&["hello"]));
    assert_eq!(Cell::new("helloworld").wrapped_content(5), strings(&["hello", "world"]));
}

#[test]
fn wrapping_a_full_line_before_a_line_feed_splits_once() {
    assert_eq!(Cell::new("hello\nworld").wrapped_content(5), strings(&["hello", "world"]));
}

#[test]
fn wrapping_never_breaks_an_escape_sequence() {
    let content = "ab\u{1b}[31mcd\u{1b}[0m";
    assert_eq!(
        Cell::new(content).wrapped_content(2),
        strings(&["ab\u{1b}[31m", "cd\u{1b}[0m"])
    );
    assert_eq!(
        Cell::new(content).wrapped_content(3),
        strings(&["ab\u{1b}[31mc", "d\u{1b}[0m"])
    );
    assert_eq!(Cell::new(content).wrapped_content(4), strings(&[content]));
}

#[test]
fn wrapping_counts_wide_characters_twice() {
    assert_eq!(Cell::new("日本語").wrapped_content(4), strings(&["日本", "語"]));
    // A wide character that does not fit the rest of a line goes to the next.
    assert_eq!(Cell::new("a日本").wrapped_content(2), strings(&["a", "日", "本"]));
    assert_eq!(Cell::new("ab日c本").wrapped_content(3), strings(&["ab", "日c", "本"]));
}

#[test]
fn wrapping_at_width_zero_puts_each_character_on_its_own_line() {
    assert_eq!(Cell::new("ab").wrapped_content(0), strings(&["", "a", "b"]));
}

fn rejoin(content: &str, lines: &[String]) -> String {
    // Puts a line feed back after each line that ended at one: a line ended
    // at a line feed exactly if the content goes on with one there.
    let mut joined = String::new();
    for line in lines {
        joined.push_str(line);
        if content[joined.len()..].starts_with('\n') {
            joined.push('\n');
        }
    }
    joined
}

#[test]
fn wrapped_lines_rejoin_to_the_content() {
    let contents = [
        "",
        "hello world",
        "line one\nline two\n",
        "\n\nleading",
        "日本語のテキスト",
        "plain \u{1b}[1;31mcolored\u{1b}[0m plain",
    ];
    for content in contents {
        for width in [0, 1, 2, 3, 5, 8, 100] {
            let lines = Cell::new(content).wrapped_content(width);
            assert_eq!(rejoin(content, &lines), content);
        }
    }
}

#[test]
fn wrapping_a_wrapped_line_again_changes_nothing() {
    let contents = ["hello world", "line one\nline two", "日本語のテキスト", "a \u{1b}[32mgreen\u{1b}[0m word"];
    for content in contents {
        for width in [1, 2, 3, 5, 8, 100] {
            for line in Cell::new(content).wrapped_content(width) {
                assert_eq!(Cell::new(&line).wrapped_content(width), vec![line.clone()]);
            }
        }
    }
}

#[test]
fn wrap_is_what_a_cell_does_to_its_content() {
    for content in ["", "hello world", "a\nb", "ab\u{1b}[31mcd\u{1b}[0m"] {
        for width in [0, 1, 2, 5] {
            assert_eq!(wrap(content, width), Cell::new(content).wrapped_content(width));
        }
    }
    assert_eq!(wrap("abcdef", 4), strings(&["abcd", "ef"]));
}

#[test]
fn a_new_line_starts_at_a_line_feed_or_when_the_line_is_full() {
    assert!(starts_new_line(false, 'a', 5, 6, 5));
    assert!(starts_new_line(false, 'a', 6, 7, 5));
    assert!(!starts_new_line(false, 'a', 4, 5, 5));
    assert!(starts_new_line(false, '\n', 0, 0, 5));
    assert!(starts_new_line(false, 'a', 0, 1, 0));
}

#[test]
fn a_new_line_starts_before_a_character_that_would_overfill_the_line() {
    assert!(starts_new_line(false, '日', 4, 6, 5));
    assert!(starts_new_line(false, '日', 1, 3, 2));
    assert!(!starts_new_line(false, '日', 3, 5, 5));
    // A line that shows nothing takes any character.
    assert!(!starts_new_line(false, '日', 0, 2, 1));
    assert!(!starts_new_line(false, '日', 0, 6, 5));
}

#[test]
fn a_new_line_never_starts_at_a_hidden_character() {
    assert!(!starts_new_line(true, 'a', 5, 6, 5));
    assert!(!starts_new_line(true, '\n', 5, 5, 5));
    assert!(!starts_new_line(true, 'a', 0, 1, 0));
    assert!(!starts_new_line(true, 'a', 4, 9, 5));
}

#[test]
fn no_wrapped_line_is_wider_than_asked() {
    let contents = [
        "hello world",
        "a日本",
        "日本語のテキスト and some latin",
        "mixed 日本 \u{1b}[31mred 語\u{1b}[0m text\nnext 行",
        "x日x日x日x日",
    ];
    for content in contents {
        for width in 2..12 {
            for line in Cell::new(content).wrapped_content(width) {
                assert!(visible_width(&line) <= width);
            }
        }
    }
}

#[test]
fn a_character_wider_than_the_width_stands_alone() {
    assert_eq!(Cell::new("a日b").wrapped_content(1), strings(&["a", "日", "b"]));
    assert_eq!(Cell::new("日本").wrapped_content(1), strings(&["日", "本"]));
}

#[test]
fn a_character_that_narrows_the_one_before_it_comes_too_late_for_a_full_line() {
    // The selector makes the sign before it one column wide instead of two,
    // so the whole text is narrower than the sign alone.
    let content = "\u{231a}\u{fe0e}";
    assert_eq!(visible_width("\u{231a}"), 2);
    assert_eq!(visible_width(content), 1);
    // At width 2 the sign alone fills the line before the selector is read.
    assert_eq!(Cell::new(content).wrapped_content(2), strings(&["\u{231a}", "\u{fe0e}"]));
    assert_eq!(Cell::new(content).wrapped_content(3), strings(&[content]));
}

#[test]
fn a_width_above_every_stretch_of_the_content_splits_at_line_feeds_only() {
    let contents = ["", "one line", "two\nlines", "\nleading and trailing\n", "a\n\nb", "日本\n語"];
    for content in contents {
        let lines = Cell::new(content).wrapped_content(visible_width(content) + 1);
        assert_eq!(lines.join("\n"), content);
        assert_eq!(lines.len(), 1 + content.matches('\n').count());
    }
}
