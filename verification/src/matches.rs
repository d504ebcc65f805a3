//! Matches: where a search found them, and the line of text that shows them.

use crate::text::{get_slice, lemma_between_boundaries, slice_is_a_middle_part, text_between};
use vstd::prelude::*;
use vstd::string::*;
use vstd::utf8::*;

verus! {

/// A range of buffer positions that follows the text as it is edited. The editor that made the
/// two anchors finds them again by these numbers.
#[derive(Clone, Copy, Debug, PartialEq, Eq, Structural)]
pub struct AnchorRange {
    pub start: u64,
    pub end: u64,
}

/// A range of byte offsets.
#[derive(Clone, Copy, Debug, PartialEq, Eq, Structural)]
pub struct ByteRange {
    pub start: usize,
    pub end: usize,
}

/// A match as the search reports it: its anchors, and the bytes of the searched text that they
/// stand for.
#[derive(Clone, Copy, Debug, PartialEq, Eq, Structural)]
pub struct FoundRange {
    pub range: AnchorRange,
    pub offsets: ByteRange,
}

/// A match as the panel shows it: the lines that it touches, and the part of them that it covers.
#[derive(Debug)]
pub struct MatchData {
    pub range: AnchorRange,
    pub line_text: String,
    pub match_range_in_line: ByteRange,
}

/// The value of a [`MatchData`].
pub struct MatchModel {
    pub range: AnchorRange,
    pub line_text: Seq<char>,
    pub start: int,
    pub end: int,
}

impl View for MatchData {
    type V = MatchModel;

    open spec fn view(&self) -> MatchModel {
        MatchModel {
            range: self.range,
            line_text: self.line_text@,
            start: self.match_range_in_line.start as int,
            end: self.match_range_in_line.end as int,
        }
    }
}

impl MatchModel {
    /// The part of the line that the match covers; nothing where the line has no such part.
    pub open spec fn matched_text(self) -> Seq<char> {
        match text_between(self.line_text, self.start, self.end) {
            Some(matched) => matched,
            None => Seq::empty(),
        }
    }

    /// The line has the part that the match covers.
    pub open spec fn in_line(self) -> bool {
        text_between(self.line_text, self.start, self.end) is Some
    }
}

/// The byte that ends a line.
pub const NEWLINE: u8 = 10;

/// The number of the line that holds the byte offset: how many lines end before it.
pub open spec fn row(bytes: Seq<u8>, offset: int) -> nat
    decreases offset,
{
    if offset <= 0 {
        0
    } else if bytes[offset - 1] == NEWLINE {
        row(bytes, offset - 1) + 1
    } else {
        row(bytes, offset - 1)
    }
}

/// Where the line that holds the byte offset starts.
pub open spec fn line_start(bytes: Seq<u8>, offset: int) -> int
    decreases offset,
{
    if offset <= 0 || bytes[offset - 1] == NEWLINE {
        offset
    } else {
        line_start(bytes, offset - 1)
    }
}

/// Where the line that holds the byte offset ends: before its newline, or with the text.
pub open spec fn line_end(bytes: Seq<u8>, offset: int) -> int
    decreases bytes.len() - offset,
{
    if offset >= bytes.len() || bytes[offset] == NEWLINE {
        offset
    } else {
        line_end(bytes, offset + 1)
    }
}

impl FoundRange {
    /// Tests whether the offsets mark a slice of `text`.
    pub fn fits_in(&self, text: &str) -> (fits: bool)
        ensures
            fits == self.fits(text@),
    {
        get_slice(text, self.offsets.start, self.offsets.end).is_some()
    }

    /// The offsets mark a slice of `text`.
    pub open spec fn fits(self, text: Seq<char>) -> bool {
        text_between(text, self.offsets.start as int, self.offsets.end as int) is Some
    }

    /// What the panel shows of the match: the lines from its first to its last, and in them the
    /// match itself. A match that runs over several lines is shown up to the end of the last.
    pub open spec fn shown(self, text: Seq<char>) -> MatchModel {
        let bytes = encode_utf8(text);
        let (start, end) = (self.offsets.start as int, self.offsets.end as int);
        let first = line_start(bytes, start);
        let last = line_end(bytes, end);
        MatchModel {
            range: self.range,
            line_text: decode_utf8(bytes.subrange(first, last)),
            start: start - first,
            end: if row(bytes, start) == row(bytes, end) {
                end - first
            } else {
                last - first
            },
        }
    }
}

proof fn lemma_line_start(bytes: Seq<u8>, offset: int)
    requires
        valid_utf8(bytes),
        is_char_boundary(bytes, offset),
    ensures
        0 <= line_start(bytes, offset) <= offset <= bytes.len(),
        is_char_boundary(bytes, line_start(bytes, offset)),
{
    lemma_line_start_bounds(bytes, offset);
    let first = line_start(bytes, offset);
    if first == offset {
    } else if first > 0 {
        lemma_boundary_after_newline(bytes, first - 1);
    }
}

proof fn lemma_line_start_bounds(bytes: Seq<u8>, offset: int)
    requires
        0 <= offset <= bytes.len(),
    ensures
        0 <= line_start(bytes, offset) <= offset,
        line_start(bytes, offset) == 0 || bytes[line_start(bytes, offset) - 1] == NEWLINE,
        forall|k: int| line_start(bytes, offset) <= k < offset ==> bytes[k] != NEWLINE,
    decreases offset,
{
    if offset > 0 && bytes[offset - 1] != NEWLINE {
        lemma_line_start_bounds(bytes, offset - 1);
    }
}

/// What follows a newline starts a character.
proof fn lemma_boundary_after_newline(bytes: Seq<u8>, newline: int)
    requires
        valid_utf8(bytes),
        0 <= newline < bytes.len(),
        bytes[newline] == NEWLINE,
    ensures
        is_char_boundary(bytes, newline + 1),
{
    is_char_boundary_iff_not_is_continuation_byte(bytes, newline);
    valid_utf8_split(bytes, newline);
    let rest = bytes.subrange(newline, bytes.len() as int);
    assert(pop_first_scalar(rest) =~= bytes.subrange(newline + 1, bytes.len() as int));
    if newline + 1 < bytes.len() {
        assert(valid_utf8(pop_first_scalar(rest)));
        assert(valid_first_scalar(pop_first_scalar(rest)));
        assert(pop_first_scalar(rest)[0] == bytes[newline + 1]);
        is_char_boundary_iff_not_is_continuation_byte(bytes, newline + 1);
    } else {
        is_char_boundary_start_end_of_seq(bytes);
    }
}

proof fn lemma_line_end(bytes: Seq<u8>, offset: int)
    requires
        valid_utf8(bytes),
        0 <= offset <= bytes.len(),
    ensures
        offset <= line_end(bytes, offset) <= bytes.len(),
        is_char_boundary(bytes, line_end(bytes, offset)),
        line_end(bytes, offset) == bytes.len() || bytes[line_end(bytes, offset)] == NEWLINE,
        forall|k: int| offset <= k < line_end(bytes, offset) ==> bytes[k] != NEWLINE,
    decreases bytes.len() - offset,
{
    if offset >= bytes.len() {
        is_char_boundary_start_end_of_seq(bytes);
    } else if bytes[offset] == NEWLINE {
        is_char_boundary_iff_not_is_continuation_byte(bytes, offset);
    } else {
        lemma_line_end(bytes, offset + 1);
    }
}

/// The two offsets are on one line exactly if no newline lies between them.
proof fn lemma_same_row(bytes: Seq<u8>, start: int, end: int)
    requires
        0 <= start <= end <= bytes.len(),
    ensures
        row(bytes, start) <= row(bytes, end),
        row(bytes, start) == row(bytes, end) <==> (forall|k: int|
            start <= k < end ==> bytes[k] != NEWLINE),
    decreases end - start,
{
    if start < end {
        lemma_same_row(bytes, start, end - 1);
    }
}

/// Finds the start of the line that holds the byte offset.
fn find_line_start(bytes: &[u8], offset: usize) -> (first: usize)
    requires
        offset <= bytes@.len(),
    ensures
        first == line_start(bytes@, offset as int),
{
    let mut first: usize = offset;
    while first > 0 && bytes[first - 1] != NEWLINE
        invariant
            first <= offset <= bytes@.len(),
            line_start(bytes@, first as int) == line_start(bytes@, offset as int),
        decreases first,
    {
        first = first - 1;
    }
    first
}

/// Finds the end of the line that holds the byte offset.
fn find_line_end(bytes: &[u8], offset: usize) -> (last: usize)
    requires
        offset <= bytes@.len(),
    ensures
        last == line_end(bytes@, offset as int),
{
    let mut last: usize = offset;
    while last < bytes.len() && bytes[last] != NEWLINE
        invariant
            offset <= last <= bytes@.len(),
            line_end(bytes@, last as int) == line_end(bytes@, offset as int),
        decreases bytes@.len() - last,
    {
        last = last + 1;
    }
    last
}

/// Whether the two byte offsets are on one line.
fn on_one_line(bytes: &[u8], start: usize, end: usize) -> (same: bool)
    requires
        start <= end <= bytes@.len(),
    ensures
        same == (row(bytes@, start as int) == row(bytes@, end as int)),
{
    proof {
        lemma_same_row(bytes@, start as int, end as int);
    }
    let mut at: usize = start;
    while at < end
        invariant
            start <= at <= end <= bytes@.len(),
            forall|k: int| start <= k < at ==> bytes@[k] != NEWLINE,
            row(bytes@, start as int) == row(bytes@, end as int) <==> (forall|k: int|
                start <= k < end ==> bytes@[k] != NEWLINE),
        decreases end - at,
    {
        if bytes[at] == NEWLINE {
            return false;
        }
        at = at + 1;
    }
    true
}

impl MatchData {
    /// Cuts out of the searched text what the panel shows of a match.
    pub fn new(text: &str, found: &FoundRange) -> (shown: MatchData)
        requires
            found.fits(text@),
        ensures
            shown@ == found.shown(text@),
    {
        let ghost bytes_of_text = encode_utf8(text@);
        let (start, end) = (found.offsets.start, found.offsets.end);
        proof {
            encode_utf8_valid_utf8(text@);
            lemma_between_boundaries(bytes_of_text, start as int, end as int);
            lemma_line_start(bytes_of_text, start as int);
            lemma_line_end(bytes_of_text, end as int);
        }
        let bytes = text.as_bytes();
        let first = find_line_start(bytes, start);
        let last = find_line_end(bytes, end);
        let line_text = match get_slice(text, first, last) {
            Some(lines) => lines.to_owned(),
            None => String::new(),
        };
        let end_in_line: usize = if on_one_line(bytes, start, end) {
            end - first
        } else {
            last - first
        };
        MatchData {
            range: found.range,
            line_text,
            match_range_in_line: ByteRange { start: start - first, end: end_in_line },
        }
    }

    /// The part of the line that the match covers.
    pub fn matched_text(&self) -> (matched: &str)
        ensures
            matched@ == self@.matched_text(),
    {
        match get_slice(
            self.line_text.as_str(),
            self.match_range_in_line.start,
            self.match_range_in_line.end,
        ) {
            Some(matched) => matched,
            None => {
                proof {
                    reveal_strlit("");
                    assert(""@ =~= Seq::empty());
                }
                ""
            },
        }
    }
}

/// The line has the part that a match covers. That part is what the search found, if the match is
/// on one line. If it runs over several lines, the part goes on to the end of the last of them.
pub proof fn shown_match_covers_found_text(text: Seq<char>, found: FoundRange)
    requires
        found.fits(text),
    ensures
        ({
            let bytes = encode_utf8(text);
            let (start, end) = (found.offsets.start as int, found.offsets.end as int);
            let to = if row(bytes, start) == row(bytes, end) {
                end
            } else {
                line_end(bytes, end)
            };
            &&& found.shown(text).in_line()
            &&& Some(found.shown(text).matched_text()) == text_between(text, start, to)
        }),
{
    let bytes = encode_utf8(text);
    let (start, end) = (found.offsets.start as int, found.offsets.end as int);
    let first = line_start(bytes, start);
    let last = line_end(bytes, end);
    let to = if row(bytes, start) == row(bytes, end) {
        end
    } else {
        last
    };
    encode_utf8_valid_utf8(text);
    lemma_between_boundaries(bytes, start, end);
    lemma_line_start(bytes, start);
    lemma_line_end(bytes, end);
    lemma_between_boundaries(bytes, first, last);
    let line = bytes.subrange(first, last);
    decode_utf8_encode_utf8(line);
    lemma_boundary_within(bytes, first, last, start);
    lemma_boundary_within(bytes, first, last, to);
    lemma_between_boundaries(bytes, start, to);
    assert(line.subrange(start - first, to - first) =~= bytes.subrange(start, to));
}

/// A boundary of the text is one of each slice that holds it.
proof fn lemma_boundary_within(bytes: Seq<u8>, first: int, last: int, index: int)
    requires
        valid_utf8(bytes),
        is_char_boundary(bytes, first),
        is_char_boundary(bytes, last),
        is_char_boundary(bytes, index),
        first <= index <= last,
    ensures
        is_char_boundary(bytes.subrange(first, last), index - first),
{
    lemma_between_boundaries(bytes, first, last);
    let slice = bytes.subrange(first, last);
    if index < last {
        is_char_boundary_iff_not_is_continuation_byte(bytes, index);
        is_char_boundary_iff_not_is_continuation_byte(slice, index - first);
    } else {
        is_char_boundary_start_end_of_seq(slice);
    }
}

/// A match on one line is shown with that line alone.
pub proof fn one_line_match_shows_one_line(text: Seq<char>, found: FoundRange)
    requires
        found.fits(text),
        row(encode_utf8(text), found.offsets.start as int) == row(
            encode_utf8(text),
            found.offsets.end as int,
        ),
    ensures
        !encode_utf8(found.shown(text).line_text).contains(NEWLINE),
{
    let bytes = encode_utf8(text);
    let (start, end) = (found.offsets.start as int, found.offsets.end as int);
    encode_utf8_valid_utf8(text);
    lemma_between_boundaries(bytes, start, end);
    lemma_line_start(bytes, start);
    lemma_line_start_bounds(bytes, start);
    lemma_line_end(bytes, end);
    lemma_same_row(bytes, start, end);
    let (first, last) = (line_start(bytes, start), line_end(bytes, end));
    lemma_between_boundaries(bytes, first, last);
    decode_utf8_encode_utf8(bytes.subrange(first, last));
}

/// What is shown of a match are whole lines. They start at the start of the text or after a newline,
/// end before a newline or with the text, and go on neither before the line of the match's start
/// nor after that of its end. The match covers in them what it covers in the text or, if it has a
/// newline in it, goes on to the end.
pub proof fn whole_lines_are_shown(text: Seq<char>, found: FoundRange)
    requires
        found.fits(text),
    ensures
        ({
            let bytes = encode_utf8(text);
            let (start, end) = (found.offsets.start as int, found.offsets.end as int);
            let shown = found.shown(text);
            let first = start - shown.start;
            let last = first + encode_utf8(shown.line_text).len();
            &&& shown.range == found.range
            &&& 0 <= first <= start <= end <= last <= bytes.len()
            &&& encode_utf8(shown.line_text) == bytes.subrange(first, last)
            &&& first == 0 || bytes[first - 1] == 10u8
            &&& forall|k: int| first <= k < start ==> #[trigger] bytes[k] != 10u8
            &&& last == bytes.len() || bytes[last] == 10u8
            &&& forall|k: int| end <= k < last ==> #[trigger] bytes[k] != 10u8
            &&& (forall|k: int| start <= k < end ==> #[trigger] bytes[k] != 10u8) ==> first
                + shown.end == end
            &&& (exists|k: int| start <= k < end && #[trigger] bytes[k] == 10u8) ==> first
                + shown.end == last
        }),
{
    let bytes = encode_utf8(text);
    let (start, end) = (found.offsets.start as int, found.offsets.end as int);
    encode_utf8_valid_utf8(text);
    lemma_between_boundaries(bytes, start, end);
    lemma_line_start(bytes, start);
    lemma_line_start_bounds(bytes, start);
    lemma_line_end(bytes, end);
    lemma_same_row(bytes, start, end);
    let (first, last) = (line_start(bytes, start), line_end(bytes, end));
    lemma_between_boundaries(bytes, first, last);
    decode_utf8_encode_utf8(bytes.subrange(first, last));
}

/// A match fits into a text exactly if the text can be cut before it and after it.
pub proof fn fitting_match_is_a_middle_part(text: Seq<char>, found: FoundRange)
    ensures
        found.fits(text) <==> exists|a: Seq<char>, b: Seq<char>, c: Seq<char>|
            text == #[trigger] (a + b + c) && encode_utf8(a).len() == found.offsets.start
                && encode_utf8(b).len() == found.offsets.end - found.offsets.start,
{
    let (start, end) = (found.offsets.start as int, found.offsets.end as int);
    if found.fits(text) {
        let b = text_between(text, start, end)->0;
        slice_is_a_middle_part(text, start, end, b);
        let (a, c) = choose|a: Seq<char>, c: Seq<char>|
            text == #[trigger] (a + b + c) && encode_utf8(a).len() == start && encode_utf8(b).len()
                == end - start;
        assert(text == a + b + c);
    }
    if exists|a: Seq<char>, b: Seq<char>, c: Seq<char>|
        text == #[trigger] (a + b + c) && encode_utf8(a).len() == found.offsets.start
            && encode_utf8(b).len() == found.offsets.end - found.offsets.start {
        let (a, b, c) = choose|a: Seq<char>, b: Seq<char>, c: Seq<char>|
            text == #[trigger] (a + b + c) && encode_utf8(a).len() == found.offsets.start
                && encode_utf8(b).len() == found.offsets.end - found.offsets.start;
        slice_is_a_middle_part(text, start, end, b);
    }
}

/// The matched text is what stands in the line between the match's start and its end. Where the
/// line cannot be cut there, it is empty.
pub proof fn matched_text_is_cut_out_of_the_line(found: MatchModel, b: Seq<char>)
    ensures
        (exists|a: Seq<char>, c: Seq<char>|
            found.line_text == #[trigger] (a + b + c) && encode_utf8(a).len() == found.start
                && encode_utf8(b).len() == found.end - found.start) ==> found.matched_text() == b,
        found.matched_text() == b && b.len() > 0 ==> exists|a: Seq<char>, c: Seq<char>|
            found.line_text == #[trigger] (a + b + c) && encode_utf8(a).len() == found.start
                && encode_utf8(b).len() == found.end - found.start,
{
    slice_is_a_middle_part(found.line_text, found.start, found.end, b);
}

/// The value of a match has its fields.
pub proof fn match_value_has_its_fields(data: MatchData)
    ensures
        data@.range == data.range,
        data@.line_text == data.line_text@,
        data@.start == data.match_range_in_line.start,
        data@.end == data.match_range_in_line.end,
{
}

} // verus!
