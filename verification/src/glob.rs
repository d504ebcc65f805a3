//! The comma-separated lists of glob patterns that say which files to search.

use crate::text::{
    byte_len, char_width, get_slice, is_white_space, lemma_boundary_of_concat, lemma_encode_concat,
    lemma_trimmed_ends, text_between, trimmed, without_leading_space, without_trailing_space,
};
use vstd::prelude::*;
use vstd::utf8::*;

verus! {

/// What the characters read so far say about the next one.
pub struct Scan {
    /// How many alternations are open: `{a,b}` is one pattern.
    pub depth: nat,
    /// Whether the last character is a backslash that escapes the next one.
    pub escaped: bool,
}

/// The state before the first character.
pub open spec fn scan_start() -> Scan {
    Scan { depth: 0, escaped: false }
}

/// The state after one more character.
pub open spec fn scan_step(state: Scan, c: char) -> Scan {
    if state.escaped {
        Scan { escaped: false, ..state }
    } else if c == '\\' {
        Scan { escaped: true, ..state }
    } else if c == '{' {
        Scan { depth: state.depth + 1, ..state }
    } else if c == '}' && state.depth > 0 {
        Scan { depth: (state.depth - 1) as nat, ..state }
    } else {
        state
    }
}

/// The state after `text`.
pub open spec fn scan(text: Seq<char>) -> Scan
    decreases text.len(),
{
    if text.len() == 0 {
        scan_start()
    } else {
        scan_step(scan(text.drop_last()), text.last())
    }
}

/// Whether the last character of `text` ends a pattern: a comma that is neither escaped nor
/// inside braces.
pub open spec fn ends_with_separator(text: Seq<char>) -> bool {
    text.len() > 0 && text.last() == ',' && scan(text.drop_last()) == scan_start()
}

/// The parts of `text` between its separators.
pub open spec fn pieces(text: Seq<char>) -> Seq<Seq<char>>
    decreases text.len(),
{
    if text.len() == 0 {
        seq![Seq::empty()]
    } else {
        let before = pieces(text.drop_last());
        if ends_with_separator(text) {
            before.push(Seq::empty())
        } else {
            before.drop_last().push(before.last().push(text.last()))
        }
    }
}

/// The given parts without the white space around them, and without those that are blank.
pub open spec fn non_blank(parts: Seq<Seq<char>>) -> Seq<Seq<char>> {
    parts.map_values(|part: Seq<char>| trimmed(part)).filter(
        |part: Seq<char>| part.len() > 0,
    )
}

/// The patterns that `text` lists.
pub open spec fn glob_patterns(text: Seq<char>) -> Seq<Seq<char>> {
    non_blank(pieces(text))
}

/// The characters of each string of a list.
pub open spec fn views(list: Seq<&str>) -> Seq<Seq<char>> {
    list.map_values(|s: &str| s@)
}

proof fn lemma_pieces_nonempty(text: Seq<char>)
    ensures
        pieces(text).len() > 0,
    decreases text.len(),
{
    if text.len() > 0 {
        lemma_pieces_nonempty(text.drop_last());
    }
}

proof fn lemma_non_blank_push(parts: Seq<Seq<char>>, part: Seq<char>)
    ensures
        non_blank(parts.push(part)) == if trimmed(part).len() > 0 {
            non_blank(parts).push(trimmed(part))
        } else {
            non_blank(parts)
        },
{
    reveal(Seq::filter);
    let f = |part: Seq<char>| trimmed(part);
    assert(parts.push(part).map_values(f) =~= parts.map_values(f).push(f(part)));
    assert(parts.map_values(f).push(f(part)).drop_last() =~= parts.map_values(f));
}

/// The byte range of the characters `from..to`, and what a slice there holds.
proof fn lemma_char_slice(text: Seq<char>, from: int, to: int)
    requires
        0 <= from <= to <= text.len(),
    ensures
        ({
            let start = encode_utf8(text.take(from)).len() as int;
            let end = encode_utf8(text.take(to)).len() as int;
            &&& start <= end
            &&& text_between(text, start, end) == Some(text.subrange(from, to))
        }),
{
    let bytes = encode_utf8(text);
    let start = encode_utf8(text.take(from)).len() as int;
    let end = encode_utf8(text.take(to)).len() as int;
    encode_utf8_valid_utf8(text);
    assert(text.take(from) + text.skip(from) =~= text);
    assert(text.take(to) + text.skip(to) =~= text);
    assert(text.take(from) + text.subrange(from, to) =~= text.take(to));
    lemma_encode_concat(text.take(from), text.subrange(from, to));
    lemma_encode_concat(text.take(to), text.skip(to));
    lemma_boundary_of_concat(text.take(from), text.skip(from));
    lemma_boundary_of_concat(text.take(to), text.skip(to));
    assert(bytes.subrange(start, end) =~= encode_utf8(text.subrange(from, to)));
    encode_utf8_decode_utf8(text.subrange(from, to));
}

/// Adds the pattern between two byte offsets to the list, unless it is blank.
fn push_pattern<'a>(patterns: &mut Vec<&'a str>, text: &'a str, start: usize, end: usize)
    requires
        text_between(text@, start as int, end as int) is Some,
    ensures
        ({
            let pattern = trimmed(
                text_between(text@, start as int, end as int)->0,
            );
            views(final(patterns)@) == if pattern.len() > 0 {
                views(old(patterns)@).push(pattern)
            } else {
                views(old(patterns)@)
            }
        }),
{
    let piece: &'a str = match get_slice(text, start, end) {
        Some(piece) => piece,
        None => "",
    };
    let pattern: &'a str = piece.trim();
    if !pattern.is_empty() {
        patterns.push(pattern);
        assert(views(patterns@) =~= views(old(patterns)@).push(pattern@));
    }
}

/// Splits a list of glob patterns at its commas. A comma inside braces, or after a backslash,
/// belongs to its pattern. White space around a pattern is dropped, and so are blank patterns.
pub fn split_glob_patterns(text: &str) -> (patterns: Vec<&str>)
    ensures
        views(patterns@) == glob_patterns(text@),
{
    let mut patterns: Vec<&str> = Vec::new();
    let mut pattern_start: usize = 0;
    let mut brace_depth: usize = 0;
    let mut escaped: bool = false;
    let mut index: usize = 0;
    let len: usize = byte_len(text);
    let ghost mut from: int = 0;
    let ghost mut done: Seq<Seq<char>> = Seq::empty();

    proof {
        assert(text@.take(0) =~= Seq::empty());
        assert(text@.subrange(0, 0) =~= Seq::empty());
        assert(done.push(text@.subrange(0, 0)) =~= pieces(text@.take(0)));
        reveal(Seq::filter);
        assert(views(patterns@) =~= non_blank(done));
    }

    for character in iter: text.chars()
        invariant
            iter.seq() == text@,
            len == encode_utf8(text@).len(),
            index == encode_utf8(text@.take(iter.index())).len(),
            brace_depth <= index,
            scan(text@.take(iter.index())) == (Scan { depth: brace_depth as nat, escaped }),
            0 <= from <= iter.index(),
            pattern_start == encode_utf8(text@.take(from)).len(),
            pieces(text@.take(iter.index())) == done.push(text@.subrange(from, iter.index())),
            views(patterns@) == non_blank(done),
    {
        let ghost i = iter.index();
        let width = char_width(character);
        proof {
            let read = text@.take(i + 1);
            assert(read.drop_last() =~= text@.take(i));
            assert(read.last() == character);
            assert(read =~= text@.take(i) + seq![character]);
            lemma_encode_concat(text@.take(i), seq![character]);
            assert(seq![character].drop_first() =~= Seq::empty());
            assert(encode_utf8(seq![character]) =~= encode_scalar(character as u32)) by {
                reveal_with_fuel(encode_utf8, 2);
            }
            assert(read + text@.skip(i + 1) =~= text@);
            lemma_encode_concat(read, text@.skip(i + 1));
            assert(index + width <= len);
            let current = text@.subrange(from, i);
            assert(done.push(current).drop_last() =~= done);
            assert(done.push(current).last() == current);
            assert(text@.subrange(from, i + 1) =~= current.push(character));
        }
        if escaped {
            escaped = false;
        } else if character == '\\' {
            escaped = true;
        } else if character == '{' {
            brace_depth = brace_depth + 1;
        } else if character == '}' {
            brace_depth = brace_depth.saturating_sub(1);
        } else if character == ',' && brace_depth == 0 {
            proof {
                lemma_char_slice(text@, from, i);
            }
            push_pattern(&mut patterns, text, pattern_start, index);
            pattern_start = index + 1;
            proof {
                lemma_non_blank_push(done, text@.subrange(from, i));
                done = done.push(text@.subrange(from, i));
                from = i + 1;
                assert(text@.subrange(from, i + 1) =~= Seq::empty());
            }
        }
        index = index + width;
    }

    proof {
        assert(text@.take(text@.len() as int) =~= text@);
        lemma_char_slice(text@, from, text@.len() as int);
        lemma_non_blank_push(done, text@.subrange(from, text@.len() as int));
    }
    push_pattern(&mut patterns, text, pattern_start, len);
    patterns
}

/// The state after `text`, read from another state than the first.
spec fn scan_from(state: Scan, text: Seq<char>) -> Scan
    decreases text.len(),
{
    if text.len() == 0 {
        state
    } else {
        scan_step(scan_from(state, text.drop_last()), text.last())
    }
}

proof fn lemma_scan_concat(a: Seq<char>, b: Seq<char>)
    ensures
        scan(a + b) == scan_from(scan(a), b),
    decreases b.len(),
{
    if b.len() == 0 {
        assert(a + b =~= a);
    } else {
        assert((a + b).drop_last() =~= a + b.drop_last());
        lemma_scan_concat(a, b.drop_last());
    }
}

proof fn lemma_scan_from_start(text: Seq<char>)
    ensures
        scan_from(scan_start(), text) == scan(text),
    decreases text.len(),
{
    if text.len() > 0 {
        lemma_scan_from_start(text.drop_last());
    }
}

/// No prefix of `text` ends with a separator.
pub open spec fn one_piece(text: Seq<char>) -> bool {
    forall|k: int| 0 <= k <= text.len() ==> !ends_with_separator(#[trigger] text.take(k))
}

proof fn lemma_pieces_have_no_separator(text: Seq<char>)
    ensures
        forall|j: int| 0 <= j < pieces(text).len() ==> one_piece(#[trigger] pieces(text)[j]),
        scan(pieces(text).last()) == scan(text),
    decreases text.len(),
{
    lemma_pieces_nonempty(text);
    if text.len() > 0 {
        let before = text.drop_last();
        lemma_pieces_nonempty(before);
        lemma_pieces_have_no_separator(before);
        if !ends_with_separator(text) {
            let last = pieces(before).last();
            let longer = last.push(text.last());
            assert(longer.drop_last() =~= last);
            assert forall|k: int| 0 <= k <= longer.len() implies !ends_with_separator(
                #[trigger] longer.take(k),
            ) by {
                if k < longer.len() {
                    assert(longer.take(k) =~= last.take(k));
                    assert(one_piece(last));
                } else {
                    assert(longer.take(k) =~= longer);
                }
            }
        }
    }
}

proof fn lemma_one_piece(text: Seq<char>)
    requires
        one_piece(text),
    ensures
        pieces(text) == seq![text],
    decreases text.len(),
{
    if text.len() == 0 {
        assert(text =~= Seq::empty());
    } else {
        let before = text.drop_last();
        assert forall|k: int| 0 <= k <= before.len() implies !ends_with_separator(
            #[trigger] before.take(k),
        ) by {
            assert(before.take(k) =~= text.take(k));
        }
        lemma_one_piece(before);
        assert(text.take(text.len() as int) =~= text);
        assert(before.push(text.last()) =~= text);
        assert(pieces(text) =~= seq![text]);
    }
}

proof fn lemma_one_piece_without_leading_space(text: Seq<char>)
    requires
        one_piece(text),
    ensures
        one_piece(without_leading_space(text)),
    decreases text.len(),
{
    if text.len() > 0 && is_white_space(text[0]) {
        let rest = text.drop_first();
        assert forall|k: int| 0 <= k <= rest.len() implies !ends_with_separator(
            #[trigger] rest.take(k),
        ) by {
            if k > 0 {
                let longer = text.take(k + 1);
                assert(longer.drop_last() =~= seq![text[0]] + rest.take(k).drop_last());
                lemma_scan_concat(seq![text[0]], rest.take(k).drop_last());
                assert(seq![text[0]].drop_last() =~= Seq::empty());
                assert(scan(Seq::<char>::empty()) == scan_start());
                assert(scan(seq![text[0]]) == scan_step(scan_start(), text[0]));
                lemma_scan_from_start(rest.take(k).drop_last());
                assert(!ends_with_separator(longer));
            }
        }
        lemma_one_piece_without_leading_space(rest);
    }
}

proof fn lemma_one_piece_without_trailing_space(text: Seq<char>)
    requires
        one_piece(text),
    ensures
        one_piece(without_trailing_space(text)),
    decreases text.len(),
{
    if text.len() > 0 && is_white_space(text.last()) {
        let rest = text.drop_last();
        assert forall|k: int| 0 <= k <= rest.len() implies !ends_with_separator(
            #[trigger] rest.take(k),
        ) by {
            assert(rest.take(k) =~= text.take(k));
        }
        lemma_one_piece_without_trailing_space(rest);
    }
}

proof fn lemma_non_blank_member(parts: Seq<Seq<char>>, i: int)
    requires
        0 <= i < non_blank(parts).len(),
    ensures
        non_blank(parts)[i].len() > 0,
        exists|j: int|
            0 <= j < parts.len() && non_blank(parts)[i] == trimmed(
                #[trigger] parts[j],
            ),
    decreases parts.len(),
{
    if parts.len() == 0 {
        reveal(Seq::filter);
        assert(parts.map_values(|part: Seq<char>| trimmed(part)) =~= Seq::empty());
    } else {
        let before = parts.drop_last();
        assert(parts =~= before.push(parts.last()));
        lemma_non_blank_push(before, parts.last());
        if i < non_blank(before).len() {
            lemma_non_blank_member(before, i);
            let j = choose|j: int|
                0 <= j < before.len() && non_blank(before)[i] == trimmed(
                    #[trigger] before[j],
                );
            assert(parts[j] == before[j]);
        } else {
            assert(parts[parts.len() - 1] == parts.last());
        }
    }
}

proof fn lemma_non_blank_concat(a: Seq<Seq<char>>, b: Seq<Seq<char>>)
    ensures
        non_blank(a + b) == non_blank(a) + non_blank(b),
    decreases b.len(),
{
    if b.len() == 0 {
        assert(a + b =~= a);
        reveal(Seq::filter);
        assert(b.map_values(|part: Seq<char>| trimmed(part)) =~= Seq::empty());
        assert(non_blank(a) + non_blank(b) =~= non_blank(a));
    } else {
        assert(a + b =~= (a + b.drop_last()).push(b.last()));
        assert(b =~= b.drop_last().push(b.last()));
        lemma_non_blank_concat(a, b.drop_last());
        lemma_non_blank_push(a + b.drop_last(), b.last());
        lemma_non_blank_push(b.drop_last(), b.last());
        assert(non_blank(a + b) =~= non_blank(a) + non_blank(b));
    }
}

proof fn lemma_pieces_after_separator(a: Seq<char>, b: Seq<char>)
    requires
        scan(a) == scan_start(),
    ensures
        pieces(a.push(',') + b) == pieces(a) + pieces(b),
    decreases b.len(),
{
    let head = a.push(',');
    assert(head.drop_last() =~= a);
    assert(scan(head) == scan_start());
    if b.len() == 0 {
        assert(head + b =~= head);
        assert(pieces(head) =~= pieces(a) + pieces(b));
    } else {
        let text = head + b;
        assert(text.drop_last() =~= head + b.drop_last());
        lemma_pieces_after_separator(a, b.drop_last());
        lemma_pieces_nonempty(b.drop_last());
        lemma_scan_concat(head, b.drop_last());
        lemma_scan_from_start(b.drop_last());
        assert(pieces(text) =~= pieces(a) + pieces(b));
    }
}

/// A pattern is never blank, and has no white space at its ends.
pub proof fn patterns_are_trimmed(text: Seq<char>, i: int)
    requires
        0 <= i < glob_patterns(text).len(),
    ensures
        glob_patterns(text)[i].len() > 0,
        !is_white_space(glob_patterns(text)[i].first()),
        !is_white_space(glob_patterns(text)[i].last()),
{
    lemma_non_blank_member(pieces(text), i);
    let j = choose|j: int|
        0 <= j < pieces(text).len() && non_blank(pieces(text))[i] == trimmed(
            #[trigger] pieces(text)[j],
        );
    lemma_trimmed_ends(pieces(text)[j]);
}

/// A comma outside braces and escapes separates: the patterns of the two sides are listed one
/// after the other.
pub proof fn comma_separates(before: Seq<char>, after: Seq<char>)
    requires
        scan(before) == scan_start(),
    ensures
        glob_patterns(before.push(',') + after) == glob_patterns(before) + glob_patterns(after),
{
    lemma_pieces_after_separator(before, after);
    lemma_non_blank_concat(pieces(before), pieces(after));
}

/// Where every comma is escaped or inside braces, the whole text is one pattern.
pub proof fn protected_commas_do_not_separate(text: Seq<char>)
    requires
        one_piece(text),
        trimmed(text).len() > 0,
    ensures
        glob_patterns(text) == seq![trimmed(text)],
{
    lemma_one_piece(text);
    let none: Seq<Seq<char>> = Seq::empty();
    assert(none.push(text) =~= seq![text]);
    lemma_non_blank_push(none, text);
    reveal(Seq::filter);
    assert(none.map_values(|part: Seq<char>| trimmed(part)) =~= Seq::empty());
    assert(non_blank(none) =~= Seq::empty());
    assert(glob_patterns(text) =~= seq![trimmed(text)]);
}

/// A pattern, split again, is itself.
pub proof fn splitting_a_pattern_changes_nothing(text: Seq<char>, i: int)
    requires
        0 <= i < glob_patterns(text).len(),
    ensures
        glob_patterns(glob_patterns(text)[i]) == seq![glob_patterns(text)[i]],
{
    let pattern = glob_patterns(text)[i];
    lemma_non_blank_member(pieces(text), i);
    let j = choose|j: int|
        0 <= j < pieces(text).len() && non_blank(pieces(text))[i] == trimmed(
            #[trigger] pieces(text)[j],
        );
    let piece = pieces(text)[j];
    lemma_pieces_have_no_separator(text);
    lemma_one_piece_without_leading_space(piece);
    lemma_one_piece_without_trailing_space(without_leading_space(piece));
    lemma_trimmed_ends(piece);
    assert(trimmed(pattern) == pattern);
    protected_commas_do_not_separate(pattern);
}

/// The given patterns as a list: with a comma between each and the next.
pub open spec fn joined(patterns: Seq<Seq<char>>) -> Seq<char>
    decreases patterns.len(),
{
    if patterns.len() == 0 {
        Seq::empty()
    } else if patterns.len() == 1 {
        patterns[0]
    } else {
        patterns[0].push(',') + joined(patterns.drop_first())
    }
}

/// Every part but the last leaves nothing open.
proof fn lemma_pieces_are_closed(text: Seq<char>)
    ensures
        forall|j: int|
            0 <= j < pieces(text).len() - 1 ==> scan(#[trigger] pieces(text)[j]) == scan_start(),
    decreases text.len(),
{
    if text.len() > 0 {
        let before = text.drop_last();
        lemma_pieces_nonempty(before);
        lemma_pieces_are_closed(before);
        lemma_pieces_have_no_separator(before);
        assert forall|j: int| 0 <= j < pieces(text).len() - 1 implies scan(
            #[trigger] pieces(text)[j],
        ) == scan_start() by {
            assert(pieces(text)[j] == pieces(before)[j]);
            if j == pieces(before).len() - 1 {
                assert(ends_with_separator(text));
                assert(pieces(before)[j] == pieces(before).last());
            }
        }
    }
}

/// The parts of a text without a backslash have none either.
proof fn lemma_pieces_without_backslash(text: Seq<char>)
    requires
        !text.contains('\\'),
    ensures
        forall|j: int| 0 <= j < pieces(text).len() ==> !(#[trigger] pieces(text)[j]).contains('\\'),
    decreases text.len(),
{
    if text.len() > 0 {
        let before = text.drop_last();
        assert forall|k: int| 0 <= k < before.len() implies before[k] != '\\' by {
            assert(text[k] == before[k]);
        }
        assert(text[text.len() - 1] == text.last());
        lemma_pieces_nonempty(before);
        lemma_pieces_without_backslash(before);
        assert forall|j: int| 0 <= j < pieces(text).len() implies !(
        #[trigger] pieces(text)[j]).contains('\\') by {
            if j < pieces(before).len() {
                let part = pieces(before)[j];
                assert(!part.contains('\\'));
                assert forall|k: int| 0 <= k < pieces(text)[j].len() implies pieces(text)[j][k]
                    != '\\' by {
                    if k < part.len() {
                        assert(part[k] == pieces(text)[j][k]);
                    }
                }
            }
        }
    }
}

/// Without a backslash nothing is escaped.
proof fn lemma_not_escaped(text: Seq<char>)
    requires
        !text.contains('\\'),
    ensures
        !scan(text).escaped,
    decreases text.len(),
{
    if text.len() > 0 {
        let before = text.drop_last();
        assert forall|k: int| 0 <= k < before.len() implies before[k] != '\\' by {
            assert(text[k] == before[k]);
        }
        assert(text[text.len() - 1] == text.last());
        lemma_not_escaped(before);
    }
}

/// Without a backslash, the white space around a part opens and closes nothing.
proof fn lemma_trimming_keeps_scan(text: Seq<char>)
    requires
        !text.contains('\\'),
    ensures
        scan(trimmed(text)) == scan(text),
{
    lemma_leading_space_keeps_scan(text);
    lemma_trailing_space_keeps_scan(without_leading_space(text));
}

proof fn lemma_leading_space_keeps_scan(text: Seq<char>)
    requires
        !text.contains('\\'),
    ensures
        scan(without_leading_space(text)) == scan(text),
        !without_leading_space(text).contains('\\'),
    decreases text.len(),
{
    if text.len() > 0 && is_white_space(text[0]) {
        let rest = text.drop_first();
        assert forall|k: int| 0 <= k < rest.len() implies rest[k] != '\\' by {
            assert(text[k + 1] == rest[k]);
        }
        assert(text =~= seq![text[0]] + rest);
        lemma_scan_concat(seq![text[0]], rest);
        assert(seq![text[0]].drop_last() =~= Seq::empty());
        assert(scan(Seq::<char>::empty()) == scan_start());
        assert(scan(seq![text[0]]) == scan_step(scan_start(), text[0]));
        lemma_scan_from_start(rest);
        lemma_leading_space_keeps_scan(rest);
    }
}

proof fn lemma_trailing_space_keeps_scan(text: Seq<char>)
    requires
        !text.contains('\\'),
    ensures
        scan(without_trailing_space(text)) == scan(text),
    decreases text.len(),
{
    if text.len() > 0 && is_white_space(text.last()) {
        let rest = text.drop_last();
        assert forall|k: int| 0 <= k < rest.len() implies rest[k] != '\\' by {
            assert(text[k] == rest[k]);
        }
        lemma_not_escaped(rest);
        lemma_trailing_space_keeps_scan(rest);
    }
}

/// Patterns that split to themselves, of which only the last may leave something open, are the
/// patterns of their list.
proof fn lemma_joined(patterns: Seq<Seq<char>>)
    requires
        forall|i: int|
            0 <= i < patterns.len() ==> glob_patterns(#[trigger] patterns[i]) == seq![patterns[i]],
        forall|i: int|
            0 <= i < patterns.len() - 1 ==> scan(#[trigger] patterns[i]) == scan_start(),
    ensures
        glob_patterns(joined(patterns)) == patterns,
    decreases patterns.len(),
{
    if patterns.len() == 0 {
        let nothing: Seq<char> = Seq::empty();
        let none: Seq<Seq<char>> = Seq::empty();
        assert(none.push(nothing) =~= seq![nothing]);
        lemma_non_blank_push(none, nothing);
        reveal(Seq::filter);
        assert(none.map_values(|part: Seq<char>| trimmed(part)) =~= Seq::empty());
        assert(glob_patterns(joined(patterns)) =~= patterns);
    } else if patterns.len() == 1 {
        assert(patterns =~= seq![patterns[0]]);
    } else {
        let rest = patterns.drop_first();
        assert forall|i: int| 0 <= i < rest.len() implies glob_patterns(#[trigger] rest[i])
            == seq![rest[i]] by {
            assert(rest[i] == patterns[i + 1]);
        }
        assert forall|i: int| 0 <= i < rest.len() - 1 implies scan(#[trigger] rest[i])
            == scan_start() by {
            assert(rest[i] == patterns[i + 1]);
        }
        lemma_joined(rest);
        comma_separates(patterns[0], joined(rest));
        assert(seq![patterns[0]] + rest =~= patterns);
    }
}

/// The patterns of a text, joined by commas and split again, are the same patterns, if only the last
/// of them leaves something open. (A pattern may end with a backslash, whose white space was
/// trimmed away, and that would come to escape the comma.)
pub proof fn joining_closed_patterns_undoes_splitting(text: Seq<char>)
    requires
        forall|i: int|
            0 <= i < glob_patterns(text).len() - 1 ==> scan(#[trigger] glob_patterns(text)[i])
                == scan_start(),
    ensures
        glob_patterns(joined(glob_patterns(text))) == glob_patterns(text),
{
    let patterns = glob_patterns(text);
    assert forall|i: int| 0 <= i < patterns.len() implies glob_patterns(#[trigger] patterns[i])
        == seq![patterns[i]] by {
        splitting_a_pattern_changes_nothing(text, i);
    }
    lemma_joined(patterns);
}

/// The patterns of a text without a backslash, joined by commas and split again, are the same
/// patterns.
pub proof fn joining_undoes_splitting(text: Seq<char>)
    requires
        !text.contains('\\'),
    ensures
        glob_patterns(joined(glob_patterns(text))) == glob_patterns(text),
{
    let parts = pieces(text);
    let patterns = glob_patterns(text);
    lemma_pieces_nonempty(text);
    lemma_pieces_are_closed(text);
    lemma_pieces_without_backslash(text);
    let closed = parts.drop_last();
    assert(parts =~= closed.push(parts.last()));
    lemma_non_blank_push(closed, parts.last());
    assert forall|i: int| 0 <= i < patterns.len() - 1 implies scan(#[trigger] patterns[i])
        == scan_start() by {
        assert(patterns[i] == non_blank(closed)[i]);
        lemma_non_blank_member(closed, i);
        let j = choose|j: int|
            0 <= j < closed.len() && non_blank(closed)[i] == trimmed(#[trigger] closed[j]);
        assert(closed[j] == parts[j]);
        lemma_trimming_keeps_scan(parts[j]);
    }
    joining_closed_patterns_undoes_splitting(text);
}

/// Every character is white space.
pub open spec fn blank(text: Seq<char>) -> bool {
    forall|k: int| 0 <= k < text.len() ==> is_white_space(#[trigger] text[k])
}

/// Every character is a comma or white space.
pub open spec fn only_separators(text: Seq<char>) -> bool {
    forall|k: int| 0 <= k < text.len() ==> #[trigger] text[k] == ',' || is_white_space(text[k])
}

proof fn lemma_blank_is_trimmed_away(text: Seq<char>)
    ensures
        trimmed(text).len() == 0 <==> blank(text),
    decreases text.len(),
{
    if text.len() > 0 {
        if is_white_space(text[0]) {
            let rest = text.drop_first();
            lemma_blank_is_trimmed_away(rest);
            if blank(rest) {
                assert forall|k: int| 0 <= k < text.len() implies is_white_space(
                    #[trigger] text[k],
                ) by {
                    if k > 0 {
                        assert(rest[k - 1] == text[k]);
                    }
                }
            }
            if blank(text) {
                assert forall|k: int| 0 <= k < rest.len() implies is_white_space(
                    #[trigger] rest[k],
                ) by {
                    assert(text[k + 1] == rest[k]);
                }
            }
        } else {
            lemma_first_character_stays(text);
        }
    }
}

proof fn lemma_first_character_stays(text: Seq<char>)
    requires
        text.len() > 0,
        !is_white_space(text[0]),
    ensures
        without_trailing_space(text).len() > 0,
    decreases text.len(),
{
    if is_white_space(text.last()) {
        lemma_first_character_stays(text.drop_last());
    }
}

proof fn lemma_all_blank(parts: Seq<Seq<char>>)
    ensures
        non_blank(parts).len() == 0 <==> (forall|j: int|
            0 <= j < parts.len() ==> blank(#[trigger] parts[j])),
    decreases parts.len(),
{
    if parts.len() == 0 {
        reveal(Seq::filter);
        assert(parts.map_values(|part: Seq<char>| trimmed(part)) =~= Seq::empty());
    } else {
        let before = parts.drop_last();
        assert(parts =~= before.push(parts.last()));
        lemma_all_blank(before);
        lemma_non_blank_push(before, parts.last());
        lemma_blank_is_trimmed_away(parts.last());
        assert(parts[parts.len() - 1] == parts.last());
        assert forall|j: int| 0 <= j < before.len() implies #[trigger] before[j] == parts[j] by {}
        if non_blank(parts).len() == 0 {
            assert forall|j: int| 0 <= j < parts.len() implies blank(#[trigger] parts[j]) by {
                if j < before.len() {
                    assert(blank(before[j]));
                }
            }
        } else if forall|j: int| 0 <= j < parts.len() ==> blank(#[trigger] parts[j]) {
            assert forall|j: int| 0 <= j < before.len() implies blank(#[trigger] before[j]) by {
                assert(blank(parts[j]));
            }
        }
    }
}

proof fn lemma_separators_leave_nothing_open(text: Seq<char>)
    requires
        only_separators(text),
    ensures
        scan(text) == scan_start(),
    decreases text.len(),
{
    if text.len() > 0 {
        let before = text.drop_last();
        assert forall|k: int| 0 <= k < before.len() implies #[trigger] before[k] == ','
            || is_white_space(before[k]) by {
            assert(text[k] == before[k]);
        }
        assert(text[text.len() - 1] == text.last());
        lemma_separators_leave_nothing_open(before);
    }
}

proof fn lemma_blank_pieces(text: Seq<char>)
    ensures
        (forall|j: int| 0 <= j < pieces(text).len() ==> blank(#[trigger] pieces(text)[j]))
            <==> only_separators(text),
    decreases text.len(),
{
    if text.len() > 0 {
        let before = text.drop_last();
        let (old_parts, parts) = (pieces(before), pieces(text));
        let n = old_parts.len() as int;
        lemma_pieces_nonempty(before);
        lemma_blank_pieces(before);
        assert(text[text.len() - 1] == text.last());
        assert(old_parts[n - 1] == old_parts.last());
        if only_separators(text) {
            assert forall|k: int| 0 <= k < before.len() implies #[trigger] before[k] == ','
                || is_white_space(before[k]) by {
                assert(text[k] == before[k]);
            }
            lemma_separators_leave_nothing_open(before);
            assert forall|j: int| 0 <= j < parts.len() implies blank(#[trigger] parts[j]) by {
                if j < n {
                    assert(blank(old_parts[j]));
                }
            }
        }
        if forall|j: int| 0 <= j < parts.len() ==> blank(#[trigger] parts[j]) {
            assert forall|j: int| 0 <= j < n implies blank(#[trigger] old_parts[j]) by {
                assert(blank(parts[j]));
                assert forall|k: int| 0 <= k < old_parts[j].len() implies is_white_space(
                    #[trigger] old_parts[j][k],
                ) by {
                    assert(parts[j][k] == old_parts[j][k]);
                }
            }
            if !ends_with_separator(text) {
                assert(blank(parts[n - 1]));
                assert(parts[n - 1][parts[n - 1].len() - 1] == text.last());
            }
            assert forall|k: int| 0 <= k < text.len() implies #[trigger] text[k] == ','
                || is_white_space(text[k]) by {
                if k < before.len() {
                    assert(before[k] == text[k]);
                }
            }
        }
    } else {
        assert(blank(Seq::<char>::empty()));
    }
}

/// There are no patterns exactly if every character is a comma or white space.
pub proof fn no_patterns_in_separators_alone(text: Seq<char>)
    ensures
        glob_patterns(text).len() == 0 <==> only_separators(text),
{
    lemma_all_blank(pieces(text));
    lemma_blank_pieces(text);
}

/// How many backslashes stand directly before a character.
pub open spec fn backslashes_before(text: Seq<char>, k: int) -> nat
    decreases k,
{
    if k <= 0 || text[k - 1] != '\\' {
        0
    } else {
        backslashes_before(text, k - 1) + 1
    }
}

/// A character is escaped: an odd number of backslashes stands directly before it, so that they do
/// not escape each other in pairs.
pub open spec fn escaped_at(text: Seq<char>, k: int) -> bool {
    backslashes_before(text, k) % 2 == 1
}

/// How many braces of one kind stand from `j` on and before `k`, escaped ones aside.
pub open spec fn braces(text: Seq<char>, brace: char, j: int, k: int) -> nat
    decreases k - j,
{
    if j >= k {
        0
    } else if text[k - 1] == brace && !escaped_at(text, k - 1) {
        braces(text, brace, j, k - 1) + 1
    } else {
        braces(text, brace, j, k - 1)
    }
}

/// The comma at `k` stands between two patterns: it is not escaped, and from no place before it on
/// more braces are opened than closed.
pub open spec fn separates(text: Seq<char>, k: int) -> bool {
    &&& text[k] == ','
    &&& !escaped_at(text, k)
    &&& forall|j: int|
        0 <= j <= k ==> #[trigger] braces(text, '{', j, k) <= braces(text, '}', j, k)
}

/// What reading the characters before `k` leaves open, by what can be counted among them.
proof fn lemma_scan_counts(text: Seq<char>, k: int)
    requires
        0 <= k <= text.len(),
    ensures
        scan(text.take(k)).escaped == escaped_at(text, k),
        forall|j: int|
            0 <= j <= k ==> #[trigger] braces(text, '{', j, k) <= braces(text, '}', j, k) + scan(
                text.take(k),
            ).depth,
        exists|j: int|
            0 <= j <= k && #[trigger] braces(text, '{', j, k) == braces(text, '}', j, k) + scan(
                text.take(k),
            ).depth,
    decreases k,
{
    if k == 0 {
        assert(text.take(0) =~= Seq::empty());
        assert(braces(text, '{', 0, 0) == 0);
    } else {
        lemma_scan_counts(text, k - 1);
        assert(text.take(k).drop_last() =~= text.take(k - 1));
        assert(text.take(k).last() == text[k - 1]);
        let (before, after) = (scan(text.take(k - 1)), scan(text.take(k)));
        let w = choose|j: int|
            0 <= j <= k - 1 && #[trigger] braces(text, '{', j, k - 1) == braces(
                text,
                '}',
                j,
                k - 1,
            ) + before.depth;
        assert forall|j: int| 0 <= j <= k implies #[trigger] braces(text, '{', j, k) <= braces(
            text,
            '}',
            j,
            k,
        ) + after.depth by {
            if j < k {
                assert(braces(text, '{', j, k - 1) <= braces(text, '}', j, k - 1) + before.depth);
            }
        }
        if before.depth == 0 && text[k - 1] == '}' && !before.escaped {
            assert(braces(text, '{', k, k) == 0);
        } else {
            assert(braces(text, '{', w, k) == braces(text, '}', w, k) + after.depth);
        }
    }
}

proof fn lemma_separates(text: Seq<char>, k: int)
    requires
        0 <= k < text.len(),
    ensures
        separates(text, k) == ends_with_separator(text.take(k + 1)),
{
    lemma_scan_counts(text, k);
    assert(text.take(k + 1).drop_last() =~= text.take(k));
    let depth = scan(text.take(k)).depth;
    if depth > 0 {
        let j = choose|j: int|
            0 <= j <= k && #[trigger] braces(text, '{', j, k) == braces(text, '}', j, k) + depth;
        assert(braces(text, '{', j, k) > braces(text, '}', j, k));
    }
}

/// A comma that is not escaped, and before which every brace is closed, parts the list in two: the
/// patterns are those of what stands before it and then those of what stands after it.
pub proof fn separating_comma_parts_the_list(text: Seq<char>, k: int)
    requires
        0 <= k < text.len(),
        separates(text, k),
    ensures
        glob_patterns(text) == glob_patterns(text.take(k)) + glob_patterns(text.skip(k + 1)),
{
    lemma_separates(text, k);
    assert(text.take(k + 1).drop_last() =~= text.take(k));
    assert(text =~= text.take(k).push(',') + text.skip(k + 1));
    comma_separates(text.take(k), text.skip(k + 1));
}

/// A text in which no comma separates is one pattern, without the white space around it; or none,
/// if there is nothing but white space.
pub proof fn list_without_separators_is_one_pattern(text: Seq<char>)
    requires
        forall|k: int| 0 <= k < text.len() ==> !#[trigger] separates(text, k),
    ensures
        (forall|k: int| 0 <= k < text.len() ==> is_white_space(#[trigger] text[k]))
            ==> glob_patterns(text) == Seq::<Seq<char>>::empty(),
        !(forall|k: int| 0 <= k < text.len() ==> is_white_space(#[trigger] text[k]))
            ==> glob_patterns(text) == seq![trimmed(text)],
{
    assert forall|k: int| 0 <= k <= text.len() implies !ends_with_separator(
        #[trigger] text.take(k),
    ) by {
        if k > 0 {
            assert(!separates(text, k - 1));
            lemma_separates(text, k - 1);
        }
    }
    lemma_blank_is_trimmed_away(text);
    if blank(text) {
        lemma_one_piece(text);
        lemma_all_blank(pieces(text));
        assert(glob_patterns(text) =~= Seq::<Seq<char>>::empty());
    } else {
        protected_commas_do_not_separate(text);
    }
}

/// The characters of each string of a list stand in the order of the list.
pub proof fn views_are_in_order(list: Seq<&str>, i: int)
    requires
        0 <= i < list.len(),
    ensures
        views(list).len() == list.len(),
        views(list)[i] == list[i]@,
{
}

} // verus!
