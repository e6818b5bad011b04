use tableau::text::hidden_offsets;
use tableau::text::largest;
use tableau::text::offsets_in;
use tableau::text::split_lines;
use tableau::text::utf8_len;
use tableau::text::visible_width;
use tableau::text::widest_line;

#[test]
fn visible_width_of_plain_text() {
    assert_eq!(visible_width("hello"), 5);
}

#[test]
fn visible_width_of_empty_text_is_zero() {
    assert_eq!(visible_width(""), 0);
}

#[test]
fn visible_width_ignores_escape_sequences() {
    assert_eq!(visible_width("\u{1b}[31mred\u{1b}[0m"), 3);
    assert_eq!(visible_width("\u{1b}[1;32mbold green\u{1b}[0m"), 10);
}

#[test]
fn visible_width_of_only_escape_sequences_is_zero() {
    assert_eq!(visible_width("\u{1b}[31m\u{1b}[0m"), 0);
}

#[test]
fn visible_width_counts_wide_characters_twice() {
    assert_eq!(visible_width("日本"), 4);
    assert_eq!(visible_width("a日b"), 4);
}

#[test]
fn visible_width_counts_combining_marks_as_zero() {
    assert_eq!(visible_width("e\u{301}"), 1);
}

#[test]
fn visible_width_is_the_width_of_the_widest_line() {
    assert_eq!(visible_width("ab\ncdef\ng"), 4);
    assert_eq!(visible_width("abcdef\ng"), 6);
}

#[test]
fn widest_line_ends_lines_at_line_feeds() {
    assert_eq!(widest_line("one\nthree\nfour"), 5);
    assert_eq!(widest_line("one\n"), 3);
    assert_eq!(widest_line("\n"), 0);
    assert_eq!(widest_line(""), 0);
}

#[test]
fn widest_line_drops_a_carriage_return_before_a_line_feed() {
    // Without the line feed the carriage return stays in the line, where
    // it takes a column of its own.
    assert_eq!(widest_line("abc\r\nde"), 3);
    assert_eq!(widest_line("abc\r"), 4);
    assert_eq!(widest_line("a\rbc\nd"), 4);
}

#[test]
fn hidden_offsets_are_the_bytes_of_the_escape_sequences() {
    let hidden = hidden_offsets("a\u{1b}[31mb");
    let mut offsets: Vec<usize> = hidden.into_iter().collect();
    offsets.sort();
    assert_eq!(offsets, vec![1, 2, 3, 4, 5]);
}

#[test]
fn hidden_offsets_of_plain_text_are_none() {
    assert!(hidden_offsets("plain [31m text").is_empty());
}

#[test]
fn hidden_offsets_count_bytes_not_characters() {
    // 'é' takes two bytes, so the sequence starts at byte 2.
    let hidden = hidden_offsets("é\u{1b}[0mz");
    let mut offsets: Vec<usize> = hidden.into_iter().collect();
    offsets.sort();
    assert_eq!(offsets, vec![2, 3, 4, 5]);
}

#[test]
fn utf8_len_matches_the_encoding() {
    assert_eq!(utf8_len('a'), 1);
    assert_eq!(utf8_len('\u{7f}'), 1);
    assert_eq!(utf8_len('\u{80}'), 2);
    assert_eq!(utf8_len('é'), 2);
    assert_eq!(utf8_len('\u{7ff}'), 2);
    assert_eq!(utf8_len('\u{800}'), 3);
    assert_eq!(utf8_len('日'), 3);
    assert_eq!(utf8_len('\u{ffff}'), 3);
    assert_eq!(utf8_len('\u{10000}'), 4);
    assert_eq!(utf8_len('😀'), 4);
    for c in ['a', 'é', '日', '😀'] {
        assert_eq!(utf8_len(c), c.len_utf8());
    }
}

#[test]
fn the_pattern_is_the_escape_sequence_expression() {
    assert_eq!(
        tableau::text::ANSI_PATTERN,
        r"[\x1b\x9b][\[()#;?]*(?:[0-9]{1,4}(?:;[0-9]{0,4})*)?[0-9A-PRZcf-nqry=><]"
    );
}

#[test]
fn visible_width_knows_both_lead_characters() {
    assert_eq!(visible_width("\u{1b}[0mx"), 1);
    assert_eq!(visible_width("\u{9b}0mx"), 1);
    assert_eq!(visible_width("\u{1b}(Bxy"), 2);
    // A lead character that nothing follows is no sequence.
    assert_eq!(visible_width("ab\u{1b}"), 3);
}

#[test]
fn split_lines_splits_at_line_feeds() {
    assert_eq!(split_lines("a\nb"), vec!["a", "b"]);
    assert_eq!(split_lines("a\n\nb\n"), vec!["a", "", "b"]);
    assert_eq!(split_lines(""), Vec::<String>::new());
    assert_eq!(split_lines("\n"), vec![""]);
    assert_eq!(split_lines("a\r\nb\r"), vec!["a", "b\r"]);
    assert_eq!(split_lines("a\r\r\nb"), vec!["a\r", "b"]);
    assert_eq!(split_lines("a\rb"), vec!["a\rb"]);
}

#[test]
fn split_lines_agrees_with_the_standard_library() {
    for text in ["", "\n", "\r\n", "a", "a\n", "a\r", "a\r\n", "\ra\n\rb\r\n\r", "x\n\n\ny", "\r\r\n\n\r"] {
        let expected: Vec<String> = text.lines().map(|l| l.to_string()).collect();
        assert_eq!(split_lines(text), expected);
    }
}

#[test]
fn largest_of_no_values_is_zero() {
    assert_eq!(largest(&[]), 0);
    assert_eq!(largest(&[3, 7, 5]), 7);
    assert_eq!(largest(&[0, 0]), 0);
}

#[test]
fn offsets_in_spans_leave_out_each_end() {
    let mut offsets: Vec<usize> = offsets_in(&[(1, 3), (2, 5), (9, 9), (8, 7)]).into_iter().collect();
    offsets.sort();
    assert_eq!(offsets, vec![1, 2, 3, 4]);
}
