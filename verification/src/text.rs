//! Strings as UTF-8: slices by byte offset, white space, decimal numbers.

use vstd::prelude::*;
use vstd::string::*;
use vstd::utf8::*;

verus! {

/// The characters between two byte offsets of `text`, if both are character boundaries and in
/// order.
pub open spec fn text_between(text: Seq<char>, start: int, end: int) -> Option<Seq<char>> {
    let bytes = encode_utf8(text);
    if start <= end && is_char_boundary(bytes, start) && is_char_boundary(bytes, end) {
        Some(decode_utf8(bytes.subrange(start, end)))
    } else {
        None
    }
}

/// The Unicode property `White_Space`.
pub open spec fn is_white_space(c: char) -> bool {
    let code = c as u32;
    ||| 0x9 <= code <= 0xd
    ||| code == 0x20
    ||| code == 0x85
    ||| code == 0xa0
    ||| code == 0x1680
    ||| 0x2000 <= code <= 0x200a
    ||| code == 0x2028
    ||| code == 0x2029
    ||| code == 0x202f
    ||| code == 0x205f
    ||| code == 0x3000
}

/// `text` from its first character that is not white space on.
pub open spec fn without_leading_space(text: Seq<char>) -> Seq<char>
    decreases text.len(),
{
    if text.len() > 0 && is_white_space(text[0]) {
        without_leading_space(text.drop_first())
    } else {
        text
    }
}

/// `text` up to its last character that is not white space.
pub open spec fn without_trailing_space(text: Seq<char>) -> Seq<char>
    decreases text.len(),
{
    if text.len() > 0 && is_white_space(text.last()) {
        without_trailing_space(text.drop_last())
    } else {
        text
    }
}

/// `text` without the white space at its two ends.
pub open spec fn trimmed(text: Seq<char>) -> Seq<char> {
    without_trailing_space(without_leading_space(text))
}

/// What is left after trimming has no white space at its ends.
pub proof fn lemma_trimmed_ends(text: Seq<char>)
    ensures
        trimmed(text).len() > 0 ==> !is_white_space(trimmed(text).first()) && !is_white_space(
            trimmed(text).last(),
        ),
{
    lemma_leading_space(text);
    lemma_trailing_space(without_leading_space(text));
}

proof fn lemma_leading_space(text: Seq<char>)
    ensures
        without_leading_space(text).len() > 0 ==> !is_white_space(
            without_leading_space(text).first(),
        ),
    decreases text.len(),
{
    if text.len() > 0 && is_white_space(text[0]) {
        lemma_leading_space(text.drop_first());
    }
}

proof fn lemma_trailing_space(text: Seq<char>)
    ensures
        without_trailing_space(text).len() > 0 ==> !is_white_space(
            without_trailing_space(text).last(),
        ) && without_trailing_space(text).first() == text.first(),
    decreases text.len(),
{
    if text.len() > 0 && is_white_space(text.last()) {
        lemma_trailing_space(text.drop_last());
    }
}

/// `str::trim` returns the slice without leading and trailing white space, which it takes to be
/// the characters with the Unicode property `White_Space`.
pub assume_specification[ str::trim ](s: &str) -> (trimmed_text: &str)
    ensures
        trimmed_text@ == trimmed(s@),
;

/// `str::trim_start` returns the slice without leading white space, by the same property.
pub assume_specification[ str::trim_start ](s: &str) -> (trimmed_text: &str)
    ensures
        trimmed_text@ == without_leading_space(s@),
;

/// The bytes of a concatenation are the bytes of its parts.
pub proof fn lemma_encode_concat(a: Seq<char>, b: Seq<char>)
    ensures
        encode_utf8(a + b) == encode_utf8(a) + encode_utf8(b),
    decreases a.len(),
{
    if a.len() == 0 {
        assert(a + b =~= b);
        assert(encode_utf8(a) + encode_utf8(b) =~= encode_utf8(b));
    } else {
        assert((a + b).drop_first() =~= a.drop_first() + b);
        lemma_encode_concat(a.drop_first(), b);
        assert(encode_utf8(a + b) =~= encode_utf8(a) + encode_utf8(b));
    }
}

/// A split of the characters is a split of the bytes at a character boundary.
pub proof fn lemma_boundary_of_concat(a: Seq<char>, b: Seq<char>)
    ensures
        is_char_boundary(encode_utf8(a + b), encode_utf8(a).len() as int),
    decreases a.len(),
{
    encode_utf8_valid_utf8(a + b);
    if a.len() > 0 {
        encode_utf8_first_scalar(a + b);
        lemma_encode_concat(a, b);
        assert((a + b).drop_first() =~= a.drop_first() + b);
        lemma_boundary_of_concat(a.drop_first(), b);
        assert(pop_first_scalar(encode_utf8(a + b)) =~= encode_utf8(a.drop_first() + b));
    }
}

/// Two boundaries cut valid text into valid text.
pub proof fn lemma_between_boundaries(bytes: Seq<u8>, start: int, end: int)
    requires
        valid_utf8(bytes),
        start <= end,
        is_char_boundary(bytes, start),
        is_char_boundary(bytes, end),
    ensures
        0 <= start <= end <= bytes.len(),
        valid_utf8(bytes.subrange(start, end)),
        is_char_boundary(bytes.subrange(start, bytes.len() as int), end - start),
{
    lemma_boundary_in_range(bytes, start);
    lemma_boundary_in_range(bytes, end);
    let rest = bytes.subrange(start, bytes.len() as int);
    valid_utf8_split(bytes, start);
    if end < bytes.len() {
        is_char_boundary_iff_not_is_continuation_byte(bytes, end);
        is_char_boundary_iff_not_is_continuation_byte(rest, end - start);
    } else {
        is_char_boundary_start_end_of_seq(rest);
    }
    valid_utf8_split(rest, end - start);
    assert(rest.subrange(0, end - start) =~= bytes.subrange(start, end));
}

/// A boundary lies within the text.
pub proof fn lemma_boundary_in_range(bytes: Seq<u8>, index: int)
    requires
        valid_utf8(bytes),
        is_char_boundary(bytes, index),
    ensures
        0 <= index <= bytes.len(),
{
}

/// The number of bytes that `c` takes.
pub fn char_width(c: char) -> (width: usize)
    ensures
        width == encode_scalar(c as u32).len(),
        1 <= width <= 4,
{
    let code: u32 = c as u32;
    if code <= 0x7f {
        1
    } else if code <= 0x7ff {
        2
    } else if code <= 0xffff {
        3
    } else {
        4
    }
}

/// The length of `text` in bytes.
pub fn byte_len(text: &str) -> (len: usize)
    ensures
        len == encode_utf8(text@).len(),
{
    text.as_bytes().len()
}

/// The slice of `text` between two byte offsets, as `str::get` gives it.
pub fn get_slice<'a>(text: &'a str, start: usize, end: usize) -> (slice: Option<&'a str>)
    ensures
        match slice {
            Some(slice) => text_between(text@, start as int, end as int) == Some(slice@),
            None => text_between(text@, start as int, end as int) is None,
        },
        match slice {
            Some(slice) => encode_utf8(slice@) == encode_utf8(text@).subrange(
                start as int,
                end as int,
            ),
            None => true,
        },
{
    let ghost bytes = encode_utf8(text@);
    proof {
        encode_utf8_valid_utf8(text@);
    }
    if start <= end && text.is_char_boundary(start) && text.is_char_boundary(end) {
        proof {
            lemma_between_boundaries(bytes, start as int, end as int);
        }
        let rest = text.split_at(start).1;
        let slice = rest.split_at(end - start).0;
        proof {
            assert(encode_utf8(slice@) =~= bytes.subrange(start as int, end as int));
            encode_utf8_decode_utf8(slice@);
        }
        Some(slice)
    } else {
        None
    }
}

/// The decimal digit for `n`.
pub open spec fn digit(n: nat) -> char {
    ('0' as nat + n % 10) as char
}

/// `n` in decimal, without leading zeros.
pub open spec fn decimal(n: nat) -> Seq<char>
    decreases n,
{
    if n < 10 {
        seq![digit(n)]
    } else {
        decimal(n / 10).push(digit(n))
    }
}

/// `n` in decimal, with a minus sign where it is negative.
pub open spec fn signed_decimal(n: int) -> Seq<char> {
    if n < 0 {
        seq!['-'] + decimal((-n) as nat)
    } else {
        decimal(n as nat)
    }
}

fn digit_text(n: u64) -> (text: &'static str)
    ensures
        text@ == seq![digit(n as nat)],
{
    proof {
        reveal_strlit("0");
        reveal_strlit("1");
        reveal_strlit("2");
        reveal_strlit("3");
        reveal_strlit("4");
        reveal_strlit("5");
        reveal_strlit("6");
        reveal_strlit("7");
        reveal_strlit("8");
        reveal_strlit("9");
    }
    let text = match n % 10 {
        0 => "0",
        1 => "1",
        2 => "2",
        3 => "3",
        4 => "4",
        5 => "5",
        6 => "6",
        7 => "7",
        8 => "8",
        _ => "9",
    };
    assert(text@ =~= seq![digit(n as nat)]);
    text
}

/// Writes `n` in decimal.
pub fn decimal_text(n: u64) -> (text: String)
    ensures
        text@ == decimal(n as nat),
    decreases n,
{
    if n < 10 {
        digit_text(n).to_owned()
    } else {
        let mut text = decimal_text(n / 10);
        text.append(digit_text(n));
        assert(text@ =~= decimal(n as nat));
        text
    }
}

/// Writes `n` in decimal, with its sign.
pub fn signed_decimal_text(n: i64) -> (text: String)
    ensures
        text@ == signed_decimal(n as int),
{
    if n < 0 {
        let magnitude: u64 = (-(n as i128)) as u64;
        let mut text = "-".to_owned();
        text.append(decimal_text(magnitude).as_str());
        proof {
            reveal_strlit("-");
            assert(text@ =~= signed_decimal(n as int));
        }
        text
    } else {
        decimal_text(n as u64)
    }
}

/// The smallest character boundary of `text` at or after `index`.
pub open spec fn next_boundary(text: Seq<char>, index: int) -> int
    decreases encode_utf8(text).len() - index,
{
    if index >= encode_utf8(text).len() || is_char_boundary(encode_utf8(text), index) {
        index
    } else {
        next_boundary(text, index + 1)
    }
}

/// Finds the smallest character boundary at or after `index`.
pub fn ceil_char_boundary(text: &str, index: usize) -> (boundary: usize)
    requires
        index <= encode_utf8(text@).len(),
    ensures
        boundary == next_boundary(text@, index as int),
        index <= boundary <= encode_utf8(text@).len(),
        is_char_boundary(encode_utf8(text@), boundary as int),
        forall|other: int|
            index <= other <= encode_utf8(text@).len() && #[trigger] is_char_boundary(
                encode_utf8(text@),
                other,
            ) ==> boundary <= other,
{
    proof {
        encode_utf8_valid_utf8(text@);
        is_char_boundary_start_end_of_seq(encode_utf8(text@));
    }
    let len = byte_len(text);
    let mut boundary: usize = index;
    while boundary < len && !text.is_char_boundary(boundary)
        invariant
            index <= boundary <= len == encode_utf8(text@).len(),
            next_boundary(text@, index as int) == next_boundary(text@, boundary as int),
        decreases len - boundary,
    {
        boundary = boundary + 1;
    }
    proof {
        assert forall|other: int|
            index <= other <= encode_utf8(text@).len() && #[trigger] is_char_boundary(
                encode_utf8(text@),
                other,
            ) implies boundary <= other by {
            next_boundary_is_the_first(text@, index as int, other);
        }
    }
    boundary
}

/// `b` is what stands between two byte offsets of `text` exactly if it can be cut out there: with
/// something before it that takes as many bytes as the first offset says.
pub proof fn slice_is_a_middle_part(text: Seq<char>, start: int, end: int, b: Seq<char>)
    ensures
        text_between(text, start, end) == Some(b) <==> exists|a: Seq<char>, c: Seq<char>|
            text == #[trigger] (a + b + c) && encode_utf8(a).len() == start && encode_utf8(b).len()
                == end - start,
{
    let bytes = encode_utf8(text);
    encode_utf8_valid_utf8(text);
    is_char_boundary_start_end_of_seq(bytes);
    if text_between(text, start, end) == Some(b) {
        let len = bytes.len() as int;
        lemma_between_boundaries(bytes, start, end);
        lemma_between_boundaries(bytes, 0, start);
        lemma_between_boundaries(bytes, end, len);
        let (a, c) = (decode_utf8(bytes.subrange(0, start)), decode_utf8(bytes.subrange(end, len)));
        decode_utf8_encode_utf8(bytes.subrange(0, start));
        decode_utf8_encode_utf8(bytes.subrange(start, end));
        decode_utf8_encode_utf8(bytes.subrange(end, len));
        lemma_encode_concat(a, b);
        lemma_encode_concat(a + b, c);
        assert(encode_utf8(a + b + c) =~= bytes);
        encode_utf8_decode_utf8(text);
        encode_utf8_decode_utf8(a + b + c);
        assert(text == a + b + c);
    }
    if exists|a: Seq<char>, c: Seq<char>|
        text == #[trigger] (a + b + c) && encode_utf8(a).len() == start && encode_utf8(b).len()
            == end - start {
        let (a, c) = choose|a: Seq<char>, c: Seq<char>|
            text == #[trigger] (a + b + c) && encode_utf8(a).len() == start && encode_utf8(b).len()
                == end - start;
        assert(a + b + c =~= a + (b + c));
        lemma_boundary_of_concat(a, b + c);
        lemma_boundary_of_concat(a + b, c);
        lemma_encode_concat(a, b);
        lemma_encode_concat(a + b, c);
        assert(bytes.subrange(start, end) =~= encode_utf8(b));
        encode_utf8_decode_utf8(b);
    }
}

/// The number that a row of decimal digits stands for.
pub open spec fn read_number(digits: Seq<char>) -> int
    decreases digits.len(),
{
    if digits.len() == 0 {
        0
    } else {
        10 * read_number(digits.drop_last()) + (digits.last() as int - 48)
    }
}

/// A number in decimal can be read back. It has digits only, and does not start with a zero unless
/// that is all.
pub proof fn decimal_reads_back(n: nat)
    ensures
        read_number(decimal(n)) == n,
        decimal(n).len() > 0,
        decimal(n).len() > 1 ==> decimal(n)[0] != '0',
        forall|i: int| 0 <= i < decimal(n).len() ==> '0' <= #[trigger] decimal(n)[i] <= '9',
    decreases n,
{
    assert(read_number(Seq::empty()) == 0);
    if n < 10 {
        assert(decimal(n).drop_last() =~= Seq::empty());
        assert(decimal(n).last() == digit(n));
    } else {
        decimal_reads_back(n / 10);
        let more = decimal(n / 10);
        assert(decimal(n).drop_last() =~= more);
        assert(decimal(n).last() == digit(n));
        assert(decimal(n)[0] == more[0]);
        if more.len() == 1 {
            assert(more.drop_last() =~= Seq::empty());
            assert(read_number(more) == more[0] as int - 48) by {
                assert(more.last() == more[0]);
            }
        }
        assert forall|i: int| 0 <= i < decimal(n).len() implies '0' <= #[trigger] decimal(n)[i]
            <= '9' by {
            if i < more.len() {
                assert(decimal(n)[i] == more[i]);
            }
        }
    }
}

/// A signed number in decimal can be read back too: a negative one after its sign.
pub proof fn signed_decimal_reads_back(n: int)
    ensures
        n >= 0 ==> read_number(signed_decimal(n)) == n && '0' <= signed_decimal(n)[0] <= '9',
        n < 0 ==> signed_decimal(n)[0] == '-' && read_number(signed_decimal(n).skip(1)) == -n,
        n < 0 ==> signed_decimal(n).skip(1) == signed_decimal(-n),
{
    if n >= 0 {
        decimal_reads_back(n as nat);
    } else {
        decimal_reads_back((-n) as nat);
        assert(signed_decimal(n).skip(1) =~= decimal((-n) as nat));
    }
}

/// What is dropped at the start is white space, and what is left does not start with any.
pub proof fn only_leading_space_is_dropped(text: Seq<char>)
    ensures
        ({
            let left = without_leading_space(text);
            let dropped = text.len() - left.len();
            &&& 0 <= dropped
            &&& left == text.skip(dropped)
            &&& forall|k: int| 0 <= k < dropped ==> is_white_space(#[trigger] text[k])
            &&& left.len() > 0 ==> !is_white_space(left[0])
        }),
    decreases text.len(),
{
    if text.len() > 0 && is_white_space(text[0]) {
        let rest = text.drop_first();
        only_leading_space_is_dropped(rest);
        let left = without_leading_space(text);
        let dropped = text.len() - left.len();
        assert(left =~= text.skip(dropped));
        assert forall|k: int| 0 <= k < dropped implies is_white_space(#[trigger] text[k]) by {
            if k > 0 {
                assert(rest[k - 1] == text[k]);
            }
        }
    } else {
        assert(text.skip(0) =~= text);
    }
}

/// What is dropped at the end is white space, and what is left does not end with any.
pub proof fn only_trailing_space_is_dropped(text: Seq<char>)
    ensures
        ({
            let left = without_trailing_space(text);
            &&& left.len() <= text.len()
            &&& left == text.take(left.len() as int)
            &&& forall|k: int| left.len() <= k < text.len() ==> is_white_space(#[trigger] text[k])
            &&& left.len() > 0 ==> !is_white_space(left.last())
        }),
    decreases text.len(),
{
    if text.len() > 0 && is_white_space(text.last()) {
        let rest = text.drop_last();
        only_trailing_space_is_dropped(rest);
        let left = without_trailing_space(text);
        assert(left =~= text.take(left.len() as int));
        assert forall|k: int| left.len() <= k < text.len() implies is_white_space(
            #[trigger] text[k],
        ) by {
            if k < rest.len() {
                assert(rest[k] == text[k]);
            }
        }
    } else {
        assert(text.take(text.len() as int) =~= text);
    }
}

/// Trimming takes white space off the two ends and nothing else.
pub proof fn trimming_takes_off_the_ends(text: Seq<char>)
    ensures
        exists|a: Seq<char>, b: Seq<char>|
            {
                &&& text == #[trigger] (a + trimmed(text) + b)
                &&& forall|k: int| 0 <= k < a.len() ==> is_white_space(#[trigger] a[k])
                &&& forall|k: int| 0 <= k < b.len() ==> is_white_space(#[trigger] b[k])
            },
        trimmed(text).len() > 0 ==> !is_white_space(trimmed(text).first()) && !is_white_space(
            trimmed(text).last(),
        ),
{
    lemma_trimmed_ends(text);
    only_leading_space_is_dropped(text);
    let left = without_leading_space(text);
    only_trailing_space_is_dropped(left);
    let dropped = text.len() - left.len();
    let a = text.take(dropped);
    let b = left.skip(trimmed(text).len() as int);
    assert(text =~= a + trimmed(text) + b);
    assert forall|k: int| 0 <= k < a.len() implies is_white_space(#[trigger] a[k]) by {
        assert(a[k] == text[k]);
    }
    assert forall|k: int| 0 <= k < b.len() implies is_white_space(#[trigger] b[k]) by {
        assert(b[k] == left[k + trimmed(text).len()]);
    }
}

/// No boundary lies between an index and the next boundary.
pub proof fn next_boundary_is_the_first(text: Seq<char>, index: int, boundary: int)
    requires
        index <= boundary <= encode_utf8(text).len(),
        is_char_boundary(encode_utf8(text), boundary),
    ensures
        index <= next_boundary(text, index) <= boundary,
        is_char_boundary(encode_utf8(text), next_boundary(text, index)),
    decreases boundary - index,
{
    if index < boundary {
        next_boundary_is_the_first(text, index + 1, boundary);
    }
}

} // verus!
