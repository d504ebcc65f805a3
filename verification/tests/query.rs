use search_panel::query::{
    read_filter, request_query, QueryKind, SearchInputs, SearchOption, SearchOptions,
};

const OFF: SearchOptions = SearchOptions {
    whole_word: false,
    case_sensitive: false,
    include_ignored: false,
    regex: false,
};

const ALL: [SearchOption; 4] = [
    SearchOption::WholeWord,
    SearchOption::CaseSensitive,
    SearchOption::IncludeIgnored,
    SearchOption::Regex,
];

fn inputs() -> SearchInputs {
    SearchInputs {
        query: "needle".to_string(),
        include_text: "*.rs, src/".to_string(),
        exclude_text: "{a,b}".to_string(),
    }
}

#[test]
fn toggle_turns_one_switch_over() {
    for option in ALL {
        let mut options = OFF;
        options.toggle(option);
        for other in ALL {
            assert_eq!(options.contains(other), other == option);
        }
        options.toggle(option);
        assert_eq!(options, OFF);
    }
}

#[test]
fn text_query() {
    let query = request_query(&inputs(), OFF, true, false);
    assert_eq!(query.kind, QueryKind::Text);
    assert_eq!(query.query, "needle");
    assert!(!query.whole_word && !query.case_sensitive && !query.include_ignored);
    assert_eq!(query.files_to_include, vec!["*.rs", "src/"]);
    assert_eq!(query.files_to_exclude, vec!["{a,b}"]);
    assert!(!query.match_full_paths);
    assert!(!query.open_buffers_only);
}

#[test]
fn regex_query() {
    let mut options = OFF;
    for option in ALL {
        options.toggle(option);
    }
    let query = request_query(&inputs(), options, true, true);
    assert_eq!(
        query.kind,
        QueryKind::Regex {
            one_match_per_line: false
        }
    );
    assert!(query.whole_word && query.case_sensitive && query.include_ignored);
    assert!(!query.match_full_paths);
    assert!(query.open_buffers_only);
}

#[test]
fn filters_that_are_off() {
    let query = request_query(&inputs(), OFF, false, false);
    assert!(query.files_to_include.is_empty());
    assert!(query.files_to_exclude.is_empty());
    assert!(read_filter(false, "a,b").is_empty());
    assert_eq!(read_filter(true, "a,b"), vec!["a", "b"]);
}

#[test]
fn toggle_all_turns_a_set_over() {
    let start = SearchOptions {
        whole_word: true,
        case_sensitive: false,
        include_ignored: true,
        regex: false,
    };
    let flags = SearchOptions {
        whole_word: true,
        case_sensitive: true,
        include_ignored: false,
        regex: false,
    };
    let mut options = start;
    options.toggle_all(flags);
    assert_eq!(
        options,
        SearchOptions {
            whole_word: false,
            case_sensitive: true,
            include_ignored: true,
            regex: false,
        }
    );
    options.toggle_all(flags);
    assert_eq!(options, start);
    options.toggle_all(OFF);
    assert_eq!(options, start);
}

#[test]
fn set_of_one_switch() {
    for option in ALL {
        let set = SearchOptions::only(option);
        for other in ALL {
            assert_eq!(set.contains(other), other == option);
        }
        let (mut one, mut several) = (OFF, OFF);
        one.toggle(option);
        several.toggle_all(set);
        assert_eq!(one, several);
    }
}
