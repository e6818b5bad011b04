//! Width measurement of text that may hold escape sequences and wide characters.
//!
//! The visible width of a text is the number of terminal columns its widest
//! line occupies once every escape sequence has been taken out. Matching of
//! escape sequences is done by the `regex` crate and column counting by the
//! `unicode-width` crate; both are reached through the small trusted functions
//! at the top of this module, and everything else is verified against them.
//!
//! The pattern is compiled anew by each call that matches it. Should it not
//! compile, no character counts as hidden.

use regex::Regex;
use std::collections::HashSet;
use unicode_width::UnicodeWidthStr;
use vstd::prelude::*;
use vstd::utf8::encode_scalar;
use vstd::utf8::encode_utf8;

verus! {

/// The regular expression that recognises one escape sequence: a lead
/// character (ESC or CSI), optional intermediate punctuation, an optional
/// list of numeric parameters, and one final command character.
pub const ANSI_PATTERN: &'static str =
    "[\\x1b\\x9b][\\[()#;?]*(?:[0-9]{1,4}(?:;[0-9]{0,4})*)?[0-9A-PRZcf-nqry=><]";

/// What `regex::Regex::find_iter` yields on `haystack` for the expression
/// compiled from `pattern` by `regex::Regex::new`: the start and end of each
/// successive non-overlapping match, as byte offsets into the UTF-8 encoding
/// of `haystack`. `None` when `pattern` does not compile.
pub uninterp spec fn regex_find_spans(pattern: Seq<char>, haystack: Seq<char>) -> Option<
    Seq<(usize, usize)>,
>;

/// What `unicode_width::UnicodeWidthStr::width` returns on `text`: the number
/// of terminal columns the text occupies.
pub uninterp spec fn display_width(text: Seq<char>) -> usize;

/// Calls `regex::Regex::new` on `pattern` and, if it compiles,
/// `regex::Regex::find_iter` on `haystack`, handing out the `start()` and
/// `end()` of every match. The contract only names the outcome: it is
/// [`regex_find_spans`] of the two texts.
#[verifier::external_body]
fn find_spans(pattern: &str, haystack: &str) -> (spans: Option<Vec<(usize, usize)>>)
    ensures
        match spans {
            Some(found) => regex_find_spans(pattern@, haystack@) == Some(found@),
            None => regex_find_spans(pattern@, haystack@) is None,
        },
{
    match Regex::new(pattern) {
        Ok(re) => {
            let mut found = Vec::new();
            for m in re.find_iter(haystack) {
                found.push((m.start(), m.end()));
            }
            Some(found)
        },
        Err(_) => None,
    }
}

/// Calls `regex::Regex::new` on `pattern` and, if it compiles,
/// `regex::Regex::replace_all` on `haystack` with the empty `replacement`.
/// With a replacement that holds no `$`, `replace_all` copies what lies
/// between the matches that `find_iter` yields and puts the replacement in
/// place of each match; the replacement being empty, what comes back is the
/// haystack without its matches. Matches begin and end between characters,
/// so these are the characters that do not begin inside a match.
#[verifier::external_body]
fn replace_all(pattern: &str, haystack: &str, replacement: &str) -> (replaced: Option<String>)
    requires
        replacement@.len() == 0,
    ensures
        match replaced {
            Some(rest) => regex_find_spans(pattern@, haystack@) matches Some(spans) && rest@
                == without_spans(haystack@, spans),
            None => regex_find_spans(pattern@, haystack@) is None,
        },
{
    match Regex::new(pattern) {
        Ok(re) => Some(re.replace_all(haystack, replacement).into_owned()),
        Err(_) => None,
    }
}

/// Calls `unicode_width::UnicodeWidthStr::width` on `text`. The contract only
/// names the outcome: it is [`display_width`] of the text.
#[verifier::external_body]
fn str_width(text: &str) -> (width: usize)
    ensures
        width == display_width(text@),
{
    UnicodeWidthStr::width(text)
}

/// Calls `String::push`, which appends one character to the end of the text.
#[verifier::external_body]
pub(crate) fn push_char(text: &mut String, c: char)
    ensures
        final(text)@ == old(text)@.push(c),
{
    text.push(c)
}

/// The number of bytes that the UTF-8 encoding of `c` takes.
pub open spec fn utf8_len_of(c: char) -> nat {
    encode_scalar(c as u32).len()
}

/// The byte offset, in the UTF-8 encoding of `text`, at which the character
/// with index `i` starts.
pub open spec fn byte_offset(text: Seq<char>, i: int) -> nat {
    encode_utf8(text.take(i)).len()
}

/// The set of byte offsets that lie inside one of `spans`.
pub open spec fn covered_offsets(spans: Seq<(usize, usize)>) -> Set<usize> {
    Set::new(
        |offset: usize|
            exists|k: int| 0 <= k < spans.len() && (#[trigger] spans[k]).0 <= offset < spans[k].1,
    )
}

/// The byte spans of the escape sequences in `text`. A pattern that does not
/// compile has no matches.
pub open spec fn escape_spans(text: Seq<char>) -> Seq<(usize, usize)> {
    match regex_find_spans(ANSI_PATTERN@, text) {
        Some(spans) => spans,
        None => Seq::empty(),
    }
}

/// Whether the byte offset `offset` lies inside one of `spans`.
pub open spec fn offset_covered(spans: Seq<(usize, usize)>, offset: nat) -> bool {
    offset <= usize::MAX && covered_offsets(spans).contains(offset as usize)
}

/// Whether the character with index `i` of `text` begins inside an escape
/// sequence of `text`.
pub open spec fn is_hidden(text: Seq<char>, i: int) -> bool {
    offset_covered(escape_spans(text), byte_offset(text, i))
}

/// Those of the first `n` characters of `text` that do not begin inside one
/// of `spans`, in order.
pub open spec fn kept_chars(text: Seq<char>, spans: Seq<(usize, usize)>, n: int) -> Seq<char>
    decreases n,
{
    if n <= 0 {
        Seq::empty()
    } else if offset_covered(spans, byte_offset(text, n - 1)) {
        kept_chars(text, spans, n - 1)
    } else {
        kept_chars(text, spans, n - 1).push(text[n - 1])
    }
}

/// `text` without the characters that begin inside one of `spans`.
pub open spec fn without_spans(text: Seq<char>, spans: Seq<(usize, usize)>) -> Seq<char> {
    kept_chars(text, spans, text.len() as int)
}

/// `text` with every escape sequence taken out.
pub open spec fn stripped(text: Seq<char>) -> Seq<char> {
    without_spans(text, escape_spans(text))
}

/// The index of the first line feed in `text`, or the length of `text` if it
/// holds none.
pub open spec fn line_end(text: Seq<char>) -> int
    decreases text.len(),
{
    if text.len() == 0 || text[0] == '\n' {
        0
    } else {
        1 + line_end(text.drop_first())
    }
}

/// `line` without a carriage return at its end.
pub open spec fn without_cr(line: Seq<char>) -> Seq<char> {
    if line.len() > 0 && line.last() == '\r' {
        line.drop_last()
    } else {
        line
    }
}

/// The lines of `text`. A line ends at a line feed, or at a carriage return
/// directly followed by a line feed; neither belongs to the line. What follows
/// the last line feed is a line of its own unless it is empty.
pub open spec fn lines(text: Seq<char>) -> Seq<Seq<char>>
    decreases text.len(),
{
    if text.len() == 0 {
        Seq::empty()
    } else {
        let n = line_end(text);
        if 0 <= n < text.len() {
            seq![without_cr(text.take(n))] + lines(text.skip(n + 1))
        } else {
            seq![text]
        }
    }
}

/// The views of `lines`.
pub open spec fn views(lines: Seq<String>) -> Seq<Seq<char>> {
    lines.map_values(|s: String| s@)
}

/// The largest of the first `n` of `values`, and 0 if `n` is 0.
pub open spec fn max_first(values: Seq<usize>, n: int) -> usize
    decreases n,
{
    if n <= 0 {
        0
    } else {
        let before = max_first(values, n - 1);
        if values[n - 1] > before {
            values[n - 1]
        } else {
            before
        }
    }
}

/// The largest of `values`, and 0 if there are none.
pub open spec fn max_of(values: Seq<usize>) -> usize {
    max_first(values, values.len() as int)
}

/// The display widths of `ls`.
pub open spec fn display_widths(ls: Seq<Seq<char>>) -> Seq<usize> {
    ls.map_values(|line: Seq<char>| display_width(line))
}

/// The largest display width among `ls`, and 0 if there are none.
pub open spec fn widest(ls: Seq<Seq<char>>) -> usize {
    max_of(display_widths(ls))
}

/// The visible width of `text`: the display width of its widest line after the
/// escape sequences have been taken out.
pub open spec fn visible_width_of(text: Seq<char>) -> usize {
    widest(lines(stripped(text)))
}

/// The first line feed of `text` lies within the text or at its end, and no
/// character before it is a line feed.
pub proof fn lemma_line_end_bounds(text: Seq<char>)
    ensures
        0 <= line_end(text) <= text.len(),
        line_end(text) < text.len() ==> text[line_end(text)] == '\n',
        forall|k: int| 0 <= k < line_end(text) ==> text[k] != '\n',
    decreases text.len(),
{
    if text.len() > 0 && text[0] != '\n' {
        let rest = text.drop_first();
        lemma_line_end_bounds(rest);
        assert forall|k: int| 0 <= k < line_end(text) implies text[k] != '\n' by {
            if k > 0 {
                assert(text[k] == rest[k - 1]);
            }
        }
    }
}

/// The first line feed of `text` is at `n` if no earlier character is one and
/// either `n` is the length of `text` or the character at `n` is a line feed.
pub proof fn lemma_line_end_is(text: Seq<char>, n: int)
    requires
        0 <= n <= text.len(),
        forall|k: int| 0 <= k < n ==> text[k] != '\n',
        n < text.len() ==> text[n] == '\n',
    ensures
        line_end(text) == n,
{
    lemma_line_end_bounds(text);
}

/// The encoding of a text that ends in `c` is the encoding of what precedes
/// `c`, followed by the encoding of `c`.
pub proof fn lemma_encode_push(text: Seq<char>, c: char)
    ensures
        encode_utf8(text.push(c)) == encode_utf8(text) + encode_scalar(c as u32),
    decreases text.len(),
{
    let whole = text.push(c);
    if text.len() == 0 {
        assert(encode_utf8(whole.drop_first()) =~= Seq::<u8>::empty());
    } else {
        assert(whole.drop_first() =~= text.drop_first().push(c));
        lemma_encode_push(text.drop_first(), c);
    }
}

/// Byte offsets grow along the text, by the encoded length of each character,
/// and never pass the encoded length of the whole text.
pub proof fn lemma_byte_offset_step(text: Seq<char>, i: int)
    requires
        0 <= i < text.len(),
    ensures
        byte_offset(text, i + 1) == byte_offset(text, i) + utf8_len_of(text[i]),
        1 <= utf8_len_of(text[i]) <= 4,
        byte_offset(text, i + 1) <= encode_utf8(text).len(),
    decreases text.len() - i,
{
    assert(text.take(i + 1) =~= text.take(i).push(text[i]));
    lemma_encode_push(text.take(i), text[i]);
    if i + 1 < text.len() {
        lemma_byte_offset_step(text, i + 1);
    } else {
        assert(text.take(i + 1) =~= text);
    }
}

/// The views of a list of lines that ends in `line`.
pub proof fn lemma_views_push(lines: Seq<String>, line: String)
    ensures
        views(lines.push(line)) == views(lines).push(line@),
{
}

/// The empty text shows nothing: its visible width is 0.
pub proof fn lemma_empty_has_no_width()
    ensures
        visible_width_of(Seq::empty()) == 0,
{
}

/// Without spans, every character is kept.
pub proof fn lemma_nothing_covered(text: Seq<char>, n: int)
    requires
        0 <= n <= text.len(),
    ensures
        kept_chars(text, Seq::empty(), n) == text.take(n),
        n == text.len() ==> without_spans(text, Seq::empty()) == text,
    decreases n,
{
    if n > 0 {
        lemma_nothing_covered(text, n - 1);
    }
}

/// The number of bytes that the UTF-8 encoding of `c` takes.
pub fn utf8_len(c: char) -> (n: usize)
    ensures
        n == utf8_len_of(c),
        1 <= n <= 4,
{
    let v: u32 = c as u32;
    if v < 0x80 {
        1
    } else if v < 0x800 {
        2
    } else if v < 0x10000 {
        3
    } else {
        4
    }
}

/// Collects the byte offsets that lie inside one of `spans`.
pub fn offsets_in(spans: &[(usize, usize)]) -> (covered: HashSet<usize>)
    ensures
        covered@ == covered_offsets(spans@),
{
    broadcast use vstd::std_specs::hash::group_hash_axioms;

    let mut covered: HashSet<usize> = HashSet::new();
    let mut k: usize = 0;
    while k < spans.len()
        invariant
            0 <= k <= spans.len(),
            covered@ == covered_offsets(spans@.take(k as int)),
        decreases spans.len() - k,
    {
        let (start, end) = spans[k];
        let ghost before = covered@;
        let mut offset: usize = start;
        while offset < end
            invariant
                start <= offset,
                offset <= end || offset == start,
                covered@ =~= before.union(Set::new(|o: usize| start <= o < offset)),
            decreases end - offset,
        {
            covered.insert(offset);
            offset = offset + 1;
        }
        proof {
            let done = spans@.take(k as int);
            let next = spans@.take(k as int + 1);
            assert forall|o: usize| covered_offsets(next).contains(o) <==> covered@.contains(
                o,
            ) by {
                if covered_offsets(next).contains(o) {
                    let j = choose|j: int|
                        0 <= j < next.len() && (#[trigger] next[j]).0 <= o < next[j].1;
                }
                if covered@.contains(o) {
                    if before.contains(o) {
                        let j = choose|j: int|
                            0 <= j < done.len() && (#[trigger] done[j]).0 <= o < done[j].1;
                    } else {
                        assert(next[k as int].0 <= o < next[k as int].1);
                    }
                }
            }
        }
        k = k + 1;
    }
    assert(spans@.take(k as int) =~= spans@);
    covered
}

/// Collects the byte offsets covered by the escape sequences of `text`.
pub fn hidden_offsets(text: &str) -> (hidden: HashSet<usize>)
    ensures
        hidden@ == covered_offsets(escape_spans(text@)),
{
    match find_spans(ANSI_PATTERN, text) {
        Some(spans) => offsets_in(spans.as_slice()),
        None => {
            let none: Vec<(usize, usize)> = Vec::new();
            offsets_in(none.as_slice())
        },
    }
}

/// Splits `text` into its lines.
///
/// A line ends at a line feed, or at a carriage return directly followed by
/// a line feed; neither belongs to the line. What follows the last line feed
/// is a line of its own unless it is empty.
pub fn split_lines(text: &str) -> (ls: Vec<String>)
    ensures
        views(ls@) == lines(text@),
{
    let mut ls: Vec<String> = Vec::new();
    let mut line = String::new();
    // A carriage return that has been read but not yet added to `line`: it is
    // dropped if a line feed follows, and added otherwise.
    let mut pending_cr = false;
    let mut open = false;
    let ghost mut start: int = 0;
    proof {
        assert(text@.skip(0) =~= text@);
    }
    for c in it: text.chars()
        invariant
            it.seq() == text@,
            0 <= start <= it.index(),
            open <==> start < it.index(),
            forall|k: int| start <= k < it.index() ==> text@[k] != '\n',
            !pending_cr && line@.len() > 0 ==> line@.last() != '\r',
            text@.subrange(start, it.index() as int) == if pending_cr {
                line@.push('\r')
            } else {
                line@
            },
            views(ls@) + lines(text@.skip(start)) == lines(text@),
    {
        let ghost i = it.index() as int;
        let ghost rest = text@.skip(start);
        if c == '\n' {
            proof {
                lemma_line_end_is(rest, i - start);
                assert(rest.take(i - start) =~= text@.subrange(start, i));
                assert(rest.skip(i - start + 1) =~= text@.skip(i + 1));
                if pending_cr {
                    assert(line@.push('\r').drop_last() =~= line@);
                }
            }
            ls.push(line);
            line = String::new();
            pending_cr = false;
            open = false;
            proof {
                start = i + 1;
            }
        } else {
            if pending_cr {
                push_char(&mut line, '\r');
            }
            if c == '\r' {
                pending_cr = true;
            } else {
                pending_cr = false;
                push_char(&mut line, c);
            }
            open = true;
        }
    }
    let ghost rest = text@.skip(start);
    if open {
        if pending_cr {
            push_char(&mut line, '\r');
        }
        proof {
            lemma_line_end_is(rest, rest.len() as int);
        }
        ls.push(line);
    }
    ls
}

/// Returns the largest of `values`, and 0 if there are none.
pub fn largest(values: &[usize]) -> (max: usize)
    ensures
        max == max_of(values@),
{
    let mut max: usize = 0;
    let mut i: usize = 0;
    while i < values.len()
        invariant
            i <= values.len(),
            max == max_first(values@, i as int),
        decreases values.len() - i,
    {
        if values[i] > max {
            max = values[i];
        }
        i = i + 1;
    }
    max
}

/// The display width of the widest line of `text`.
pub fn widest_line(text: &str) -> (width: usize)
    ensures
        width == widest(lines(text@)),
{
    let ls = split_lines(text);
    let mut widths: Vec<usize> = Vec::new();
    let mut i: usize = 0;
    while i < ls.len()
        invariant
            i <= ls.len(),
            views(ls@) == lines(text@),
            widths@ == display_widths(lines(text@)).take(i as int),
        decreases ls.len() - i,
    {
        widths.push(str_width(ls[i].as_str()));
        i = i + 1;
    }
    assert(widths@ =~= display_widths(lines(text@)));
    largest(widths.as_slice())
}

/// The visible width of `text`: the number of terminal columns that its
/// widest line occupies, escape sequences not counted.
pub fn visible_width(text: &str) -> (width: usize)
    ensures
        width == visible_width_of(text@),
{
    proof {
        reveal_strlit("");
    }
    match replace_all(ANSI_PATTERN, text, "") {
        Some(rest) => widest_line(rest.as_str()),
        None => {
            proof {
                lemma_nothing_covered(text@, text@.len() as int);
            }
            widest_line(text)
        },
    }
}

} // verus!
