use search_panel::glob::split_glob_patterns;

#[test]
fn plain_list() {
    assert_eq!(split_glob_patterns("*.rs, src/"), vec!["*.rs", "src/"]);
}

#[test]
fn nothing_to_list() {
    assert!(split_glob_patterns("").is_empty());
    assert!(split_glob_patterns("   ").is_empty());
    assert!(split_glob_patterns(" , ,,\t").is_empty());
}

#[test]
fn blank_patterns_are_dropped() {
    assert_eq!(split_glob_patterns(",a,, b ,"), vec!["a", "b"]);
}

#[test]
fn braces_hold_commas() {
    assert_eq!(
        split_glob_patterns("*.{rs,toml}, docs/"),
        vec!["*.{rs,toml}", "docs/"]
    );
    assert_eq!(
        split_glob_patterns("{a,{b,c},d},e"),
        vec!["{a,{b,c},d}", "e"]
    );
}

#[test]
fn open_brace_holds_the_rest() {
    assert_eq!(split_glob_patterns("{a,b,c"), vec!["{a,b,c"]);
}

#[test]
fn closing_brace_too_many_is_ignored() {
    assert_eq!(split_glob_patterns("a},b"), vec!["a}", "b"]);
    assert_eq!(split_glob_patterns("}},{a,b}"), vec!["}}", "{a,b}"]);
}

#[test]
fn backslash_escapes_the_next_character() {
    assert_eq!(split_glob_patterns(r"a\,b,c"), vec![r"a\,b", "c"]);
    assert_eq!(split_glob_patterns(r"\{a,b"), vec![r"\{a", "b"]);
    assert_eq!(split_glob_patterns(r"{a\},b},c"), vec![r"{a\},b}", "c"]);
    assert_eq!(split_glob_patterns(r"a\\,b"), vec![r"a\\", "b"]);
    assert_eq!(split_glob_patterns("a\\"), vec!["a\\"]);
}

#[test]
fn longer_characters_are_not_cut() {
    assert_eq!(
        split_glob_patterns("é/*.rs,日本/**,😀"),
        vec!["é/*.rs", "日本/**", "😀"]
    );
    assert_eq!(split_glob_patterns(r"\é,b"), vec![r"\é", "b"]);
}

#[test]
fn every_white_space_is_trimmed() {
    let spaces = "\t\n\u{b}\u{c}\r \u{85}\u{a0}\u{1680}\u{2000}\u{2001}\u{2002}\u{2003}\u{2004}\
                  \u{2005}\u{2006}\u{2007}\u{2008}\u{2009}\u{200a}\u{2028}\u{2029}\u{202f}\u{205f}\
                  \u{3000}";
    let text = format!("{spaces}a b{spaces},{spaces}");
    assert_eq!(split_glob_patterns(&text), vec!["a b"]);
}

#[test]
fn other_blanks_are_kept() {
    assert_eq!(split_glob_patterns("\u{200b}"), vec!["\u{200b}"]);
    assert_eq!(split_glob_patterns("\u{feff}a"), vec!["\u{feff}a"]);
    assert_eq!(split_glob_patterns("\u{8}\u{e}\u{1f}"), vec!["\u{8}\u{e}\u{1f}"]);
}

#[test]
fn space_inside_a_pattern_is_kept() {
    assert_eq!(split_glob_patterns(" my file.txt "), vec!["my file.txt"]);
}

#[test]
fn patterns_split_to_themselves() {
    for pattern in split_glob_patterns(r" *.{rs,toml} , a\,b , {x,y , z") {
        assert_eq!(split_glob_patterns(pattern), vec![pattern]);
    }
}

#[test]
fn lists_can_be_joined_with_a_comma() {
    let (a, b) = ("*.rs, {a,b}", r" c\,d, e");
    let mut both = split_glob_patterns(a);
    both.extend(split_glob_patterns(b));
    assert_eq!(split_glob_patterns(&format!("{a},{b}")), both);
}

#[test]
fn joined_patterns_split_as_before() {
    for text in [" a , b,,{c, d} ,e}", "{a,b", "x,{y , z", " , ", r"a\,b , \{c,d"] {
        let patterns = split_glob_patterns(text);
        let list = patterns.join(",");
        assert_eq!(split_glob_patterns(&list), patterns);
    }
}

#[test]
fn trimmed_escape_takes_the_comma_with_it() {
    let patterns = split_glob_patterns("a\\ ,b");
    assert_eq!(patterns, vec!["a\\", "b"]);
    let list = patterns.join(",");
    assert_eq!(split_glob_patterns(&list), vec!["a\\,b"]);
}

#[test]
fn any_other_character_makes_a_pattern() {
    assert!(split_glob_patterns(", \t,\u{3000},").is_empty());
    for text in [", {,", ",}", " \\ ,", ",,a", "{,}"] {
        assert!(!split_glob_patterns(text).is_empty());
    }
}
