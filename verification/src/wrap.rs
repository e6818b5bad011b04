//! Wrapping: breaking a text into lines that fit a given width.
//!
//! The text is read from left to right. A new line is started at every line
//! feed, wherever the line built so far has already reached the width, and
//! wherever the next character would make a line that already shows
//! something wider than the width. Characters inside an escape sequence never
//! start a new line, so that a sequence is never broken and never counts
//! towards the width.
//!
//! A character is never left out and a line that shows nothing yet takes any
//! character, so a single character that is wider than the width stands on a
//! line of its own.

use crate::text::byte_offset;
use crate::text::covered_offsets;
use crate::text::escape_spans;
use crate::text::hidden_offsets;
use crate::text::is_hidden;
use crate::text::lemma_byte_offset_step;
use crate::text::lemma_views_push;
use crate::text::push_char;
use crate::text::utf8_len;
use crate::text::views;
use crate::text::visible_width;
use crate::text::visible_width_of;
use vstd::prelude::*;
use vstd::utf8::encode_utf8;

verus! {

/// One line produced by wrapping, together with the reason it ended.
pub struct Segment {
    /// The characters of the line.
    pub text: Seq<char>,
    /// Whether the line ended at a line feed of the content, which is then not
    /// part of `text`. A line that ended because it was full, and the last
    /// line, have `false` here.
    pub at_line_feed: bool,
}

/// Whether wrapping at `max_width` starts a new line before the character
/// `c`, when the line so far is `line_width` columns wide and would be
/// `next_width` columns wide with the character. The character must not be
/// hidden, and one of these must hold: it is a line feed; the line is full;
/// the line shows something and would be wider than `max_width` with the
/// character.
pub open spec fn starts_line(
    hidden: bool,
    c: char,
    line_width: usize,
    next_width: usize,
    max_width: usize,
) -> bool {
    !hidden && (c == '\n' || line_width >= max_width || (line_width > 0 && next_width
        > max_width))
}

/// Whether wrapping at `max_width` starts a new line before the character with
/// index `i` of `text`, when the line so far is `line`: the character does not
/// begin inside an escape sequence, and it is a line feed, or the line is
/// full, or the line shows something and would be too wide with the
/// character.
pub open spec fn breaks_before(text: Seq<char>, max_width: usize, i: int, line: Seq<char>) -> bool {
    starts_line(
        is_hidden(text, i),
        text[i],
        visible_width_of(line),
        visible_width_of(line.push(text[i])),
        max_width,
    )
}

/// The lines into which the characters of `text` from index `i` on are
/// wrapped at `max_width`, when `line` is the line built so far.
pub open spec fn segments_from(text: Seq<char>, max_width: usize, i: int, line: Seq<char>) -> Seq<
    Segment,
>
    decreases text.len() - i,
{
    if i < 0 || i >= text.len() {
        seq![Segment { text: line, at_line_feed: false }]
    } else if breaks_before(text, max_width, i, line) {
        if text[i] == '\n' {
            seq![Segment { text: line, at_line_feed: true }] + segments_from(
                text,
                max_width,
                i + 1,
                Seq::empty(),
            )
        } else {
            seq![Segment { text: line, at_line_feed: false }] + segments_from(
                text,
                max_width,
                i + 1,
                seq![text[i]],
            )
        }
    } else {
        segments_from(text, max_width, i + 1, line.push(text[i]))
    }
}

/// The lines into which `text` is wrapped at `max_width`: a new line starts
/// at every line feed, wherever the line so far has reached `max_width`
/// visible columns, and wherever the next character would make a line that
/// shows something wider than `max_width`; but never inside an escape
/// sequence.
pub open spec fn segments(text: Seq<char>, max_width: usize) -> Seq<Segment> {
    segments_from(text, max_width, 0, Seq::empty())
}

/// The texts of `segs`.
pub open spec fn texts(segs: Seq<Segment>) -> Seq<Seq<char>> {
    segs.map_values(|s: Segment| s.text)
}

/// The lines of `text` wrapped at `max_width`.
pub open spec fn wrapped(text: Seq<char>, max_width: usize) -> Seq<Seq<char>> {
    texts(segments(text, max_width))
}

/// `segs` put together again: the lines in order, with a line feed after each
/// line that ended at one.
pub open spec fn rejoined(segs: Seq<Segment>) -> Seq<char>
    decreases segs.len(),
{
    if segs.len() == 0 {
        Seq::empty()
    } else if segs[0].at_line_feed {
        segs[0].text + seq!['\n'] + rejoined(segs.drop_first())
    } else {
        segs[0].text + rejoined(segs.drop_first())
    }
}

/// Decides whether wrapping at `max_width` starts a new line before the
/// character `c`, when the line so far is `line_width` columns wide and would
/// be `next_width` columns wide with the character.
pub fn starts_new_line(
    hidden: bool,
    c: char,
    line_width: usize,
    next_width: usize,
    max_width: usize,
) -> (starts: bool)
    ensures
        starts == starts_line(hidden, c, line_width, next_width, max_width),
{
    !hidden && (c == '\n' || line_width >= max_width || (line_width > 0 && next_width
        > max_width))
}

/// Wraps `content` to fit in `max_width`.
///
/// A new line starts at each line feed, wherever the line so far has reached
/// `max_width` visible columns, and wherever the next character would make a
/// line that shows something wider than `max_width`. An escape sequence is
/// never broken and never counts towards the width. The last line is always
/// handed out, so an empty content gives one empty line.
pub fn wrap(content: &str, max_width: usize) -> (lines: Vec<String>)
    ensures
        views(lines@) == wrapped(content@, max_width),
{
    let hidden = hidden_offsets(content);
    let total = content.as_bytes().len();
    let mut lines: Vec<String> = Vec::new();
    let mut line = String::new();
    let mut byte_index: usize = 0;
    let ghost text = content@;
    let ghost mut done: Seq<Segment> = Seq::empty();
    for c in it: content.chars()
        invariant
            it.seq() == text,
            total == encode_utf8(text).len(),
            byte_index == byte_offset(text, it.index() as int),
            hidden@ == covered_offsets(escape_spans(text)),
            views(lines@) == texts(done),
            done + segments_from(text, max_width, it.index() as int, line@) == segments(
                text,
                max_width,
            ),
    {
        broadcast use vstd::std_specs::hash::group_hash_axioms;

        let ghost i = it.index() as int;
        let ghost before = line@;
        proof {
            lemma_byte_offset_step(text, i);
        }
        let hidden_here = hidden.contains(&byte_index);
        // The widths are only measured where they decide.
        let line_width = if hidden_here || c == '\n' {
            0
        } else {
            visible_width(line.as_str())
        };
        let next_width = if line_width == 0 || line_width >= max_width {
            0
        } else {
            let mut longer = line.clone();
            push_char(&mut longer, c);
            visible_width(longer.as_str())
        };
        let breaks = starts_new_line(hidden_here, c, line_width, next_width, max_width);
        if breaks {
            proof {
                let seg = Segment { text: before, at_line_feed: c == '\n' };
                lemma_views_push(lines@, line);
                done = done.push(seg);
            }
            lines.push(line);
            line = String::new();
        }
        if !(breaks && c == '\n') {
            push_char(&mut line, c);
        }
        byte_index = byte_index + utf8_len(c);
    }
    proof {
        lemma_views_push(lines@, line);
    }
    lines.push(line);
    lines
}

/// Wrapping never drops a character: the lines of a wrapped text, put
/// together again with a line feed after each line that ended at one, are
/// the text itself.
pub proof fn lemma_wrap_rejoin(text: Seq<char>, max_width: usize)
    ensures
        rejoined(segments(text, max_width)) == text,
{
    lemma_rejoin_from(text, max_width, 0, Seq::empty());
}

/// The general form of [`lemma_wrap_rejoin`], for wrapping that has already
/// reached index `i` with `line` as the line so far.
pub proof fn lemma_rejoin_from(text: Seq<char>, max_width: usize, i: int, line: Seq<char>)
    requires
        0 <= i <= text.len(),
    ensures
        rejoined(segments_from(text, max_width, i, line)) == line + text.skip(i),
    decreases text.len() - i,
{
    let segs = segments_from(text, max_width, i, line);
    if i >= text.len() {
        assert(rejoined(segs.drop_first()) =~= Seq::<char>::empty());
    } else if breaks_before(text, max_width, i, line) {
        if text[i] == '\n' {
            let rest = segments_from(text, max_width, i + 1, Seq::empty());
            lemma_rejoin_from(text, max_width, i + 1, Seq::empty());
            assert(segs.drop_first() =~= rest);
        } else {
            let rest = segments_from(text, max_width, i + 1, seq![text[i]]);
            lemma_rejoin_from(text, max_width, i + 1, seq![text[i]]);
            assert(segs.drop_first() =~= rest);
        }
    } else {
        lemma_rejoin_from(text, max_width, i + 1, line.push(text[i]));
    }
}

/// The index in the wrapped text at which the line with index `m` of `segs`
/// begins: after the lines before it and the line feeds that ended them.
pub open spec fn segment_start(segs: Seq<Segment>, m: int) -> nat
    decreases m,
{
    if m <= 0 {
        0
    } else {
        segment_start(segs, m - 1) + segs[m - 1].text.len() + if segs[m - 1].at_line_feed {
            1nat
        } else {
            0nat
        }
    }
}

/// Whether `line` stands in `text` from index `s` on and wrapping at
/// `max_width` keeps it in one piece there: the line does not begin with a
/// visible line feed, and no new line starts before any of its later
/// characters.
pub open spec fn stays_whole(text: Seq<char>, max_width: usize, s: int, line: Seq<char>) -> bool {
    &&& 0 <= s
    &&& s + line.len() <= text.len()
    &&& text.subrange(s, s + line.len()) == line
    &&& line.len() > 0 ==> is_hidden(text, s) || text[s] != '\n'
    &&& forall|j: int|
        1 <= j < line.len() ==> !breaks_before(text, max_width, s + j, #[trigger] line.take(j))
}

/// Whether the line with index `m` of `segs` ends where it should, when the
/// first of `segs` stands in `text` from index `s` on: a line that is not
/// the last ends where a new line starts, at a line feed exactly if it is
/// marked so; and the last line ends with the text.
pub open spec fn ends_rightly(
    text: Seq<char>,
    max_width: usize,
    segs: Seq<Segment>,
    s: int,
    m: int,
) -> bool {
    let end = s + segment_start(segs, m) + segs[m].text.len();
    if m + 1 < segs.len() {
        &&& 0 <= end < text.len()
        &&& breaks_before(text, max_width, end, segs[m].text)
        &&& segs[m].at_line_feed <==> text[end] == '\n'
    } else {
        end == text.len() && !segs[m].at_line_feed
    }
}

/// Whether the characters of `line` are hidden in the line taken alone
/// exactly where they are hidden in `text`, in which the line stands from
/// index `s` on.
pub open spec fn hides_alike(text: Seq<char>, s: int, line: Seq<char>) -> bool {
    forall|j: int| 0 <= j < line.len() ==> #[trigger] is_hidden(line, j) == is_hidden(text, s + j)
}

/// The start of a line, counted from the second line on.
pub proof fn lemma_segment_start_shift(first: Segment, rest: Seq<Segment>, m: int)
    requires
        0 <= m <= rest.len(),
    ensures
        segment_start(seq![first] + rest, m + 1) == first.text.len() + (if first.at_line_feed {
            1nat
        } else {
            0nat
        }) + segment_start(rest, m),
    decreases m,
{
    reveal_with_fuel(segment_start, 2);
    if m > 0 {
        lemma_segment_start_shift(first, rest, m - 1);
    }
}

/// Every line that wrapping produces stands in the text in one piece.
///
/// This is the general form, for wrapping that has reached index `i` with
/// `line` as the line so far.
pub proof fn lemma_segments_stay_whole(
    text: Seq<char>,
    max_width: usize,
    i: int,
    line: Seq<char>,
    m: int,
)
    requires
        0 <= i <= text.len(),
        stays_whole(text, max_width, i - line.len(), line),
        0 <= m < segments_from(text, max_width, i, line).len(),
    ensures
        stays_whole(
            text,
            max_width,
            i - line.len() + segment_start(segments_from(text, max_width, i, line), m),
            segments_from(text, max_width, i, line)[m].text,
        ),
    decreases text.len() - i,
{
    let s = i - line.len();
    if i >= text.len() {
    } else if breaks_before(text, max_width, i, line) {
        let c = text[i];
        let next: Seq<char> = if c == '\n' {
            Seq::empty()
        } else {
            seq![c]
        };
        let first = Segment { text: line, at_line_feed: c == '\n' };
        let rest = segments_from(text, max_width, i + 1, next);
        if m > 0 {
            assert(text.subrange(i + 1 - next.len(), i + 1) =~= next);
            lemma_segments_stay_whole(text, max_width, i + 1, next, m - 1);
            lemma_segment_start_shift(first, rest, m - 1);
        }
    } else {
        let longer = line.push(text[i]);
        assert(text.subrange(s, i + 1) =~= longer);
        assert forall|j: int| 1 <= j < longer.len() implies !breaks_before(
            text,
            max_width,
            s + j,
            #[trigger] longer.take(j),
        ) by {
            if j < line.len() {
                assert(longer.take(j) =~= line.take(j));
            } else {
                assert(longer.take(j) =~= line);
            }
        }
        lemma_segments_stay_whole(text, max_width, i + 1, longer, m);
    }
}

/// No line ends without a reason.
///
/// This is the general form, for wrapping that has reached index `i` with
/// `line` as the line so far.
pub proof fn lemma_segments_end_rightly(
    text: Seq<char>,
    max_width: usize,
    i: int,
    line: Seq<char>,
    m: int,
)
    requires
        line.len() <= i <= text.len(),
        0 <= m < segments_from(text, max_width, i, line).len(),
    ensures
        ends_rightly(
            text,
            max_width,
            segments_from(text, max_width, i, line),
            i - line.len(),
            m,
        ),
    decreases text.len() - i,
{
    if i >= text.len() {
    } else if breaks_before(text, max_width, i, line) {
        let c = text[i];
        let next: Seq<char> = if c == '\n' {
            Seq::empty()
        } else {
            seq![c]
        };
        let first = Segment { text: line, at_line_feed: c == '\n' };
        let rest = segments_from(text, max_width, i + 1, next);
        lemma_segments_not_empty(text, max_width, i + 1, next);
        if m > 0 {
            lemma_segments_end_rightly(text, max_width, i + 1, next, m - 1);
            lemma_segment_start_shift(first, rest, m - 1);
        }
    } else {
        lemma_segments_end_rightly(text, max_width, i + 1, line.push(text[i]), m);
    }
}

/// Wrapping always gives at least one line.
pub proof fn lemma_segments_not_empty(text: Seq<char>, max_width: usize, i: int, line: Seq<char>)
    ensures
        segments_from(text, max_width, i, line).len() >= 1,
    decreases text.len() - i,
{
    if 0 <= i < text.len() && !breaks_before(text, max_width, i, line) {
        lemma_segments_not_empty(text, max_width, i + 1, line.push(text[i]));
    }
}

/// Every line of a wrapped text but the last ends where a new line starts:
/// before a visible line feed, or before a visible character that finds the
/// line full or would make it too wide. The last line ends with the text.
pub proof fn lemma_wrapped_lines_end_rightly(text: Seq<char>, max_width: usize, m: int)
    requires
        0 <= m < segments(text, max_width).len(),
    ensures
        ends_rightly(text, max_width, segments(text, max_width), 0, m),
{
    lemma_segments_end_rightly(text, max_width, 0, Seq::empty(), m);
}

/// Every line of a wrapped text stands in the text in one piece, at the place
/// that the lines before it leave: no new line starts before any character
/// of the line but its first.
pub proof fn lemma_wrapped_lines_stay_whole(text: Seq<char>, max_width: usize, m: int)
    requires
        0 <= m < segments(text, max_width).len(),
    ensures
        stays_whole(
            text,
            max_width,
            segment_start(segments(text, max_width), m) as int,
            segments(text, max_width)[m].text,
        ),
{
    assert(text.subrange(0, 0) =~= Seq::<char>::empty());
    lemma_segments_stay_whole(text, max_width, 0, Seq::empty(), m);
}

/// No character overfills a line that shows something.
///
/// Take the line with index `m` of a wrapped text and its character with
/// index `j`. If the character is visible and the line before it is wider
/// than 0, then the line before it is narrower than `max_width`, and with
/// the character it is no wider than `max_width`.
pub proof fn lemma_no_character_overfills(text: Seq<char>, max_width: usize, m: int, j: int)
    requires
        0 <= m < segments(text, max_width).len(),
        0 <= j < segments(text, max_width)[m].text.len(),
        !is_hidden(text, segment_start(segments(text, max_width), m) + j),
        visible_width_of(segments(text, max_width)[m].text.take(j)) > 0,
    ensures
        visible_width_of(segments(text, max_width)[m].text.take(j)) < max_width,
        visible_width_of(segments(text, max_width)[m].text.take(j + 1)) <= max_width,
{
    let line = segments(text, max_width)[m].text;
    lemma_wrapped_lines_stay_whole(text, max_width, m);
    if j > 0 {
        assert(line.take(j).push(line[j]) =~= line.take(j + 1));
    }
}

/// A text before none of whose characters, from index `i` on, a new line
/// starts is wrapped into one line.
pub proof fn lemma_unbroken_is_one_line(line: Seq<char>, max_width: usize, i: int)
    requires
        0 <= i <= line.len(),
        forall|j: int|
            i <= j < line.len() ==> !breaks_before(line, max_width, j, #[trigger] line.take(j)),
    ensures
        segments_from(line, max_width, i, line.take(i)) == seq![
            Segment { text: line, at_line_feed: false },
        ],
    decreases line.len() - i,
{
    if i < line.len() {
        assert(line.take(i).push(line[i]) =~= line.take(i + 1));
        lemma_unbroken_is_one_line(line, max_width, i + 1);
    } else {
        assert(line.take(i) =~= line);
    }
}

/// Wrapping a wrapped line again at the same width changes nothing: the line
/// with index `m` of a wrapped text is wrapped into itself.
///
/// This holds for a width of at least 1, where an empty line is not yet
/// full, and for a line whose characters are hidden in the line taken alone
/// exactly where they are hidden in the text.
pub proof fn lemma_wrapped_line_wraps_to_itself(text: Seq<char>, max_width: usize, m: int)
    requires
        0 <= m < segments(text, max_width).len(),
        max_width >= 1,
        hides_alike(
            text,
            segment_start(segments(text, max_width), m) as int,
            segments(text, max_width)[m].text,
        ),
    ensures
        wrapped(segments(text, max_width)[m].text, max_width) == seq![
            segments(text, max_width)[m].text,
        ],
        wrapped(text, max_width)[m] == segments(text, max_width)[m].text,
{
    let line = segments(text, max_width)[m].text;
    lemma_wrapped_lines_stay_whole(text, max_width, m);
    lemma_unbroken_is_one_line(line, max_width, 0);
    assert(line.take(0) =~= Seq::<char>::empty());
}

/// Whether every stretch of `text` is narrower than `max_width`.
pub open spec fn narrow_throughout(text: Seq<char>, max_width: usize) -> bool {
    forall|s: int, e: int|
        0 <= s <= e <= text.len() ==> visible_width_of(#[trigger] text.subrange(s, e)) < max_width
}

/// The number of visible line feeds among the characters of `text` from
/// index `i` on.
pub open spec fn visible_line_feeds(text: Seq<char>, i: int) -> nat
    decreases text.len() - i,
{
    if i < 0 || i >= text.len() {
        0
    } else if text[i] == '\n' && !is_hidden(text, i) {
        1 + visible_line_feeds(text, i + 1)
    } else {
        visible_line_feeds(text, i + 1)
    }
}

/// Whether every one of `segs` but the last ended at a line feed.
pub open spec fn split_at_line_feeds(segs: Seq<Segment>) -> bool {
    forall|m: int| 0 <= m && m + 1 < segs.len() ==> (#[trigger] segs[m]).at_line_feed
}

/// The general form of [`lemma_narrow_text_splits_at_line_feeds`], for
/// wrapping that has reached index `i` with `line` as the line so far.
pub proof fn lemma_narrow_splits_from(text: Seq<char>, max_width: usize, i: int, line: Seq<char>)
    requires
        narrow_throughout(text, max_width),
        line.len() <= i <= text.len(),
        text.subrange(i - line.len(), i) == line,
    ensures
        split_at_line_feeds(segments_from(text, max_width, i, line)),
        segments_from(text, max_width, i, line).len() == 1 + visible_line_feeds(text, i),
    decreases text.len() - i,
{
    let s = i - line.len();
    if i < text.len() {
        let c = text[i];
        assert(text.subrange(s, i + 1) =~= line.push(c));
        if breaks_before(text, max_width, i, line) {
            let first = Segment { text: line, at_line_feed: true };
            assert(text.subrange(i + 1, i + 1) =~= Seq::<char>::empty());
            lemma_narrow_splits_from(text, max_width, i + 1, Seq::empty());
        } else {
            lemma_narrow_splits_from(text, max_width, i + 1, line.push(c));
        }
    }
}

/// A width above that of every stretch of the text leaves only the splits at
/// line feeds: every line but the last ended at a visible line feed, and
/// there is one line more than there are visible line feeds. With
/// [`lemma_wrap_rejoin`], the lines joined by line feeds are the text.
pub proof fn lemma_narrow_text_splits_at_line_feeds(text: Seq<char>, max_width: usize)
    requires
        narrow_throughout(text, max_width),
    ensures
        split_at_line_feeds(segments(text, max_width)),
        segments(text, max_width).len() == 1 + visible_line_feeds(text, 0),
{
    assert(text.subrange(0, 0) =~= Seq::<char>::empty());
    lemma_narrow_splits_from(text, max_width, 0, Seq::empty());
}

} // verus!
