use search_panel::matches::{AnchorRange, ByteRange, FoundRange, MatchData};

fn found(start: usize, end: usize) -> FoundRange {
    FoundRange {
        range: AnchorRange { start: 7, end: 8 },
        offsets: ByteRange { start, end },
    }
}

fn shown(text: &str, start: usize, end: usize) -> MatchData {
    let found = found(start, end);
    assert!(found.fits_in(text));
    MatchData::new(text, &found)
}

#[test]
fn match_is_shown_with_its_line() {
    let data = shown("one\ntwo three\nfour", 8, 13);
    assert_eq!(data.line_text, "two three");
    assert_eq!(data.match_range_in_line, ByteRange { start: 4, end: 9 });
    assert_eq!(data.range, AnchorRange { start: 7, end: 8 });
    assert_eq!(data.matched_text(), "three");
}

#[test]
fn match_on_the_first_and_on_the_last_line() {
    let first = shown("one\ntwo", 0, 3);
    assert_eq!(first.line_text, "one");
    assert_eq!(first.match_range_in_line, ByteRange { start: 0, end: 3 });
    let last = shown("one\ntwo", 5, 7);
    assert_eq!(last.line_text, "two");
    assert_eq!(last.match_range_in_line, ByteRange { start: 1, end: 3 });
}

#[test]
fn match_over_two_lines_runs_to_the_end_of_the_second() {
    let data = shown("one\ntwo three\nfour five\nsix", 8, 18);
    assert_eq!(data.line_text, "two three\nfour five");
    assert_eq!(data.match_range_in_line, ByteRange { start: 4, end: 19 });
    assert_eq!(data.matched_text(), "three\nfour five");
}

#[test]
fn match_that_ends_behind_a_newline_runs_over_the_next_line() {
    let data = shown("one\ntwo\nthree", 4, 8);
    assert_eq!(data.line_text, "two\nthree");
    assert_eq!(data.match_range_in_line, ByteRange { start: 0, end: 9 });
}

#[test]
fn empty_match() {
    let data = shown("ab\n\ncd", 3, 3);
    assert_eq!(data.line_text, "");
    assert_eq!(data.match_range_in_line, ByteRange { start: 0, end: 0 });
    assert_eq!(data.matched_text(), "");
}

#[test]
fn match_after_longer_characters() {
    let data = shown("é\nß日x", 8, 9);
    assert_eq!(data.line_text, "ß日x");
    assert_eq!(data.match_range_in_line, ByteRange { start: 5, end: 6 });
    assert_eq!(data.matched_text(), "x");
}

#[test]
fn ranges_that_mark_no_slice() {
    assert!(!found(0, 4).fits_in("abc"));
    assert!(!found(2, 1).fits_in("abc"));
    assert!(!found(0, 1).fits_in("é"));
    assert!(found(3, 3).fits_in("abc"));
}

#[test]
fn range_out_of_the_line_covers_nothing() {
    let data = MatchData {
        range: AnchorRange { start: 0, end: 1 },
        line_text: "é".to_string(),
        match_range_in_line: ByteRange { start: 0, end: 1 },
    };
    assert_eq!(data.matched_text(), "");
}
