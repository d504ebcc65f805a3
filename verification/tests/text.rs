use search_panel::text::{
    byte_len, ceil_char_boundary, char_width, decimal_text, get_slice, signed_decimal_text,
};

#[test]
fn slices_by_byte_offset() {
    assert_eq!(get_slice("hello", 1, 3), Some("el"));
    assert_eq!(get_slice("hello", 0, 5), Some("hello"));
    assert_eq!(get_slice("hello", 5, 5), Some(""));
    assert_eq!(get_slice("", 0, 0), Some(""));
}

#[test]
fn no_slice_out_of_the_text() {
    assert_eq!(get_slice("hello", 3, 6), None);
    assert_eq!(get_slice("hello", 6, 6), None);
    assert_eq!(get_slice("hello", 3, 2), None);
}

#[test]
fn no_slice_within_a_character() {
    assert_eq!(get_slice("aéb", 1, 3), Some("é"));
    assert_eq!(get_slice("aéb", 1, 2), None);
    assert_eq!(get_slice("aéb", 2, 3), None);
}

#[test]
fn widths_in_bytes() {
    assert_eq!(char_width('a'), 1);
    assert_eq!(char_width('\u{7f}'), 1);
    assert_eq!(char_width('\u{80}'), 2);
    assert_eq!(char_width('\u{7ff}'), 2);
    assert_eq!(char_width('\u{800}'), 3);
    assert_eq!(char_width('\u{ffff}'), 3);
    assert_eq!(char_width('\u{10000}'), 4);
    assert_eq!(byte_len("aé日😀"), 10);
}

#[test]
fn decimal_numbers() {
    assert_eq!(decimal_text(0), "0");
    assert_eq!(decimal_text(9), "9");
    assert_eq!(decimal_text(10), "10");
    assert_eq!(decimal_text(1234567890), "1234567890");
    assert_eq!(decimal_text(u64::MAX), "18446744073709551615");
}

#[test]
fn signed_decimal_numbers() {
    assert_eq!(signed_decimal_text(0), "0");
    assert_eq!(signed_decimal_text(-1), "-1");
    assert_eq!(signed_decimal_text(42), "42");
    assert_eq!(signed_decimal_text(i64::MAX), "9223372036854775807");
    assert_eq!(signed_decimal_text(i64::MIN), "-9223372036854775808");
}

#[test]
fn next_character_boundary() {
    assert_eq!(ceil_char_boundary("a😀b", 0), 0);
    assert_eq!(ceil_char_boundary("a😀b", 1), 1);
    assert_eq!(ceil_char_boundary("a😀b", 2), 5);
    assert_eq!(ceil_char_boundary("a😀b", 3), 5);
    assert_eq!(ceil_char_boundary("a😀b", 4), 5);
    assert_eq!(ceil_char_boundary("a😀b", 6), 6);
}
