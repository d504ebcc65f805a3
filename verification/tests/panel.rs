use search_panel::entries::SearchPanelEntry;
use search_panel::files::ProjectPath;
use search_panel::matches::{AnchorRange, ByteRange, FoundRange};
use search_panel::panel::{
    OpenStep, PanelEditor, SearchPanel, SearchStep, Timer, SEARCH_DEBOUNCE_MILLIS,
};
use search_panel::query::{SearchInputs, SearchOption, SearchOptions};
use search_panel::results::{BufferResult, FileInfo, SearchResult};

const OFF: SearchOptions = SearchOptions {
    whole_word: false,
    case_sensitive: false,
    include_ignored: false,
    regex: false,
};

fn inputs(query: &str) -> SearchInputs {
    SearchInputs {
        query: query.to_string(),
        include_text: "*.rs".to_string(),
        exclude_text: "target/".to_string(),
    }
}

/// The matches of `x` in a text. The anchors of a match are a hundred times its buffer, and its
/// offsets.
fn result(buffer: u64, path: &str, text: &str) -> SearchResult {
    let ranges = text
        .match_indices('x')
        .map(|(at, _)| FoundRange {
            range: AnchorRange {
                start: buffer * 100 + at as u64,
                end: buffer * 100 + at as u64 + 1,
            },
            offsets: ByteRange {
                start: at,
                end: at + 1,
            },
        })
        .collect();
    SearchResult::Buffer(BufferResult {
        buffer,
        file: Some(FileInfo {
            path: ProjectPath {
                worktree_id: 1,
                path: path.to_string(),
            },
            file_name: path.rsplit('/').next().map(|name| name.to_string()),
            display_path: path.to_string(),
        }),
        text: text.to_string(),
        ranges,
    })
}

fn searching() -> SearchPanel {
    let mut panel = SearchPanel::new(OFF);
    match panel.execute_search(&inputs("x")) {
        SearchStep::Search(query) => assert_eq!(panel.search_started(query), 1),
        SearchStep::Cleared => panic!("there is a query"),
    }
    panel
}

fn add(panel: &mut SearchPanel, results: Vec<SearchResult>) {
    let search_id = panel.search_id();
    assert!(panel.awaits_results(search_id));
    assert!(panel.accepts_results(search_id, &results));
    panel.search_results(search_id, &results);
}

/// A panel with one match in `a`, two in `b` and one in `c`, whose search still runs.
fn three_files_so_far() -> SearchPanel {
    let mut panel = searching();
    add(
        &mut panel,
        vec![
            result(1, "a", "1x"),
            result(2, "b", "x2\nx3"),
            result(3, "c", "4x4"),
        ],
    );
    panel
}

/// The same panel at the end of its search.
fn three_files() -> SearchPanel {
    let mut panel = three_files_so_far();
    panel.search_finished(1);
    panel
}

fn rows(panel: &SearchPanel) -> Vec<String> {
    panel
        .entries()
        .iter()
        .map(|entry| match entry {
            SearchPanelEntry::FileHeader {
                path,
                match_count,
                collapsed,
                ..
            } => format!(
                "{} {}{}",
                path.path,
                match_count,
                if *collapsed { " collapsed" } else { "" }
            ),
            SearchPanelEntry::Match {
                path,
                match_index,
                line_text,
                match_range_in_line,
            } => format!(
                "  {}[{}] {} {}..{}",
                path.path,
                match_index,
                line_text,
                match_range_in_line.start,
                match_range_in_line.end
            ),
        })
        .collect()
}

#[test]
fn rows_of_three_files() {
    let panel = three_files();
    assert_eq!(
        rows(&panel),
        vec![
            "a 1",
            "  a[0] 1x 1..2",
            "b 2",
            "  b[0] x2 0..1",
            "  b[1] x3 0..1",
            "c 1",
            "  c[0] 4x4 1..2",
        ]
    );
    assert_eq!(panel.match_count(), 4);
    assert_eq!(panel.file_count(), 3);
    assert_eq!(panel.no_results(), Some(false));
}

#[test]
fn rest_before_searching() {
    assert_eq!(SEARCH_DEBOUNCE_MILLIS, 150);
    assert_eq!(
        SearchPanel::new(OFF).query_changed(),
        Timer {
            number: 1,
            millis: 150
        }
    );
}

#[test]
fn query_from_the_active_editor() {
    let panel = SearchPanel::new(OFF);
    assert_eq!(
        panel.seed_query_from_active_editor(Some("word".to_string())),
        Some("word".to_string())
    );
    assert_eq!(panel.seed_query_from_active_editor(Some(String::new())), None);
    assert_eq!(panel.seed_query_from_active_editor(None), None);
}

#[test]
fn empty_query_clears() {
    let mut panel = three_files();
    panel.select(2);
    assert!(matches!(
        panel.execute_search(&inputs("")),
        SearchStep::Cleared
    ));
    assert!(panel.entries().is_empty());
    assert_eq!(panel.selected_entry_index(), None);
    assert_eq!(panel.match_count(), 0);
    assert_eq!(panel.file_count(), 0);
    assert_eq!(panel.no_results(), None);
    assert!(panel.active_query().is_none());
    assert!(!panel.is_searching());
    assert_eq!(panel.search_id(), 1);
}

#[test]
fn blank_query_is_searched_for() {
    let mut panel = SearchPanel::new(OFF);
    match panel.execute_search(&inputs(" ")) {
        SearchStep::Search(query) => assert_eq!(query.query, " "),
        SearchStep::Cleared => panic!("a space is a query"),
    }
}

#[test]
fn results_stay_until_a_search_starts() {
    let mut panel = three_files();
    let before = rows(&panel);
    assert!(matches!(
        panel.execute_search(&inputs("y")),
        SearchStep::Search(_)
    ));
    assert_eq!(rows(&panel), before);
    assert_eq!(panel.search_id(), 1);
}

#[test]
fn search_starts_with_an_empty_list() {
    let mut panel = three_files_so_far();
    add(&mut panel, vec![SearchResult::LimitReached]);
    panel.select(2);
    panel.collapse_entry();
    match panel.execute_search(&inputs("y")) {
        SearchStep::Search(query) => assert_eq!(panel.search_started(query), 2),
        SearchStep::Cleared => panic!("there is a query"),
    }
    assert!(panel.entries().is_empty());
    assert_eq!(panel.match_count(), 0);
    assert_eq!(panel.search_id(), 2);
    assert!(panel.is_searching());
    assert!(!panel.limit_reached());
    assert_eq!(panel.no_results(), Some(true));
    assert_eq!(panel.active_query().map(|query| query.query.as_str()), Some("y"));
    assert_eq!(panel.selected_entry_index(), Some(2));
    assert!(panel.selected_entry().is_none());
    add(&mut panel, vec![result(2, "b", "x")]);
    assert_eq!(rows(&panel), vec!["b 1", "  b[0] x 0..1"]);
}

#[test]
fn later_matches_of_a_file_join_it() {
    let mut panel = searching();
    add(&mut panel, vec![result(1, "a", "x1"), result(2, "b", "x2")]);
    add(&mut panel, vec![result(9, "a", "x3")]);
    assert_eq!(
        rows(&panel),
        vec![
            "a 2",
            "  a[0] x1 0..1",
            "  a[1] x3 0..1",
            "b 1",
            "  b[0] x2 0..1",
        ]
    );
    panel.select(2);
    match panel.open_entry() {
        OpenStep::Open(found) => {
            assert_eq!(found.buffer, 1);
            assert_eq!(found.range, AnchorRange { start: 900, end: 901 });
        }
        _ => panic!("a match is selected"),
    }
}

#[test]
fn paths_of_two_worktrees_differ() {
    let mut panel = searching();
    let mut other = result(2, "a", "x2");
    if let SearchResult::Buffer(buffer) = &mut other {
        if let Some(file) = &mut buffer.file {
            file.path.worktree_id = 2;
        }
    }
    add(&mut panel, vec![result(1, "a", "x1"), other]);
    assert_eq!(panel.file_count(), 2);
    panel.select(0);
    panel.collapse_entry();
    assert_eq!(rows(&panel), vec!["a 1 collapsed", "a 1", "  a[0] x2 0..1"]);
}

#[test]
fn cut_into_batches_or_not() {
    let batch = || {
        vec![
            result(1, "a", "x"),
            SearchResult::LimitReached,
            result(2, "b", "xx"),
            result(1, "a", "yx"),
        ]
    };
    let mut whole = searching();
    add(&mut whole, batch());
    let mut cut = searching();
    for one in batch() {
        add(&mut cut, vec![one]);
    }
    assert_eq!(rows(&whole), rows(&cut));
    assert_eq!(whole.match_count(), cut.match_count());
    assert!(whole.limit_reached() && cut.limit_reached());
    assert_eq!(whole.no_results(), cut.no_results());
}

#[test]
fn results_that_add_nothing() {
    let mut panel = searching();
    let mut unsaved = result(1, "a", "x");
    if let SearchResult::Buffer(buffer) = &mut unsaved {
        buffer.file = None;
        buffer.text.clear();
    }
    assert!(unsaved.fits_in());
    assert_eq!(unsaved.count_matches(), 0);
    let without = result(2, "b", "none");
    assert_eq!(without.count_matches(), 0);
    add(&mut panel, vec![unsaved, without]);
    assert!(panel.entries().is_empty());
    assert_eq!(panel.no_results(), Some(true));
    add(&mut panel, vec![]);
    assert_eq!(panel.no_results(), Some(true));
    panel.search_finished(1);
    assert!(!panel.is_searching());
}

#[test]
fn limit_is_remembered() {
    let mut panel = searching();
    add(&mut panel, vec![SearchResult::LimitReached]);
    add(&mut panel, vec![result(1, "a", "x")]);
    assert!(panel.limit_reached());
    assert_eq!(SearchResult::LimitReached.count_matches(), 0);
}

#[test]
fn matches_out_of_their_text_are_not_accepted() {
    let panel = searching();
    let mut wrong = result(1, "a", "éx");
    if let SearchResult::Buffer(buffer) = &mut wrong {
        buffer.ranges[0].offsets.start = 1;
    }
    assert!(!wrong.fits_in());
    assert!(!panel.accepts_results(1, &vec![result(2, "b", "x"), wrong]));
}

#[test]
fn next_and_previous_go_round() {
    let mut panel = three_files();
    assert_eq!(panel.select_next(), Some(0));
    for row in 1..7 {
        assert_eq!(panel.select_next(), Some(row));
    }
    assert_eq!(panel.select_next(), Some(0));
    assert_eq!(panel.select_previous(), Some(6));
    assert_eq!(panel.select_previous(), Some(5));
    assert_eq!(panel.select_next(), Some(6));
}

#[test]
fn previous_starts_at_the_end() {
    let mut panel = three_files();
    assert_eq!(panel.select_previous(), Some(6));
}

#[test]
fn nothing_to_select() {
    let mut panel = searching();
    assert_eq!(panel.select_next(), None);
    assert_eq!(panel.select_previous(), None);
    assert_eq!(panel.selected_entry_index(), None);
}

#[test]
fn selection_past_the_end() {
    let mut panel = three_files();
    panel.select(20);
    assert_eq!(panel.select_previous(), Some(19));
    assert_eq!(panel.select_next(), Some(0));
    panel.select(usize::MAX);
    assert_eq!(panel.select_next(), Some(0));
}

#[test]
fn collapsing_and_expanding() {
    let mut panel = three_files();
    let before = rows(&panel);
    panel.select(2);
    assert!(panel.collapse_entry());
    let hidden = vec![
        "a 1",
        "  a[0] 1x 1..2",
        "b 2 collapsed",
        "c 1",
        "  c[0] 4x4 1..2",
    ];
    assert_eq!(rows(&panel), hidden);
    assert!(panel.collapse_entry());
    assert_eq!(rows(&panel), hidden);
    assert!(panel.expand_entry());
    assert_eq!(rows(&panel), before);
    assert!(panel.expand_entry());
    assert_eq!(rows(&panel), before);
    assert_eq!(panel.match_count(), 4);
}

#[test]
fn only_headers_collapse() {
    let mut panel = three_files();
    let before = rows(&panel);
    assert!(!panel.collapse_entry());
    panel.select(1);
    assert!(!panel.collapse_entry());
    assert!(!panel.expand_entry());
    panel.select(7);
    assert!(!panel.collapse_entry());
    assert_eq!(rows(&panel), before);
}

#[test]
fn collapsed_file_stays_collapsed_as_results_come() {
    let mut panel = three_files_so_far();
    panel.select(0);
    panel.collapse_entry();
    add(&mut panel, vec![result(1, "a", "x")]);
    assert_eq!(rows(&panel)[0], "a 2 collapsed");
    assert_eq!(rows(&panel)[1], "b 2");
}

#[test]
fn opening_a_header_turns_it_over() {
    let mut panel = three_files();
    let before = rows(&panel);
    assert!(matches!(panel.click_header(2), OpenStep::Toggled));
    assert_eq!(panel.selected_entry_index(), Some(2));
    assert_eq!(rows(&panel)[2], "b 2 collapsed");
    assert!(matches!(panel.open_entry(), OpenStep::Toggled));
    assert_eq!(rows(&panel), before);
}

#[test]
fn opening_a_match() {
    let mut panel = three_files();
    panel.select(4);
    match panel.open_entry() {
        OpenStep::Open(found) => {
            assert_eq!(found.path.worktree_id, 1);
            assert_eq!(found.path.path, "b");
            assert_eq!(found.buffer, 2);
            assert_eq!(found.range, AnchorRange { start: 203, end: 204 });
            assert!(!found.preview);
        }
        _ => panic!("a match is selected"),
    }
}

#[test]
fn clicks_open_previews() {
    let mut panel = three_files();
    for (tabs, clicks, preview) in [
        (true, 1, true),
        (true, 2, false),
        (false, 1, false),
        (false, 2, false),
    ] {
        match panel.click_match(1, tabs, clicks) {
            OpenStep::Open(found) => assert_eq!(found.preview, preview),
            _ => panic!("row 1 is a match"),
        }
        assert_eq!(panel.selected_entry_index(), Some(1));
    }
}

#[test]
fn nothing_to_open() {
    let mut panel = three_files();
    assert!(matches!(panel.open_entry(), OpenStep::Nothing));
    panel.select(7);
    assert!(matches!(panel.open_selected_match(true), OpenStep::Nothing));
}

#[test]
fn switches_search_anew() {
    let mut panel = three_files();
    match panel.toggle_search_option(SearchOption::Regex, &inputs("x")) {
        SearchStep::Search(query) => {
            assert!(matches!(
                query.kind,
                search_panel::query::QueryKind::Regex { .. }
            ));
            assert!(query.files_to_include.is_empty());
        }
        SearchStep::Cleared => panic!("there is a query"),
    }
    assert!(panel.search_options().regex);
    assert!(matches!(
        panel.toggle_search_option(SearchOption::Regex, &inputs("")),
        SearchStep::Cleared
    ));
    assert_eq!(panel.search_options(), OFF);
    assert!(panel.entries().is_empty());
}

#[test]
fn open_files_only() {
    let mut panel = three_files();
    match panel.toggle_opened_only(&inputs("x")) {
        SearchStep::Search(query) => assert!(query.open_buffers_only),
        SearchStep::Cleared => panic!("there is a query"),
    }
    assert!(panel.included_opened_only());
    assert!(matches!(
        panel.toggle_opened_only(&inputs("")),
        SearchStep::Cleared
    ));
    assert!(!panel.included_opened_only());
}

#[test]
fn filters_count_while_they_are_shown() {
    let mut panel = three_files();
    let before = rows(&panel);
    panel.toggle_filters();
    assert!(panel.filters_enabled());
    assert_eq!(rows(&panel), before);
    match panel.execute_search(&inputs("x")) {
        SearchStep::Search(query) => {
            assert_eq!(query.files_to_include, vec!["*.rs"]);
            assert_eq!(query.files_to_exclude, vec!["target/"]);
        }
        SearchStep::Cleared => panic!("there is a query"),
    }
    panel.toggle_filters();
    assert!(!panel.filters_enabled());
}

#[test]
fn replace_is_toggled() {
    let mut panel = SearchPanel::new(OFF);
    panel.toggle_replace();
    assert!(panel.replace_enabled());
    panel.toggle_replace();
    assert!(!panel.replace_enabled());
}

#[test]
fn dismissing_a_match() {
    let mut panel = three_files();
    panel.select(3);
    assert!(panel.dismiss_match());
    assert_eq!(
        rows(&panel),
        vec![
            "a 1",
            "  a[0] 1x 1..2",
            "b 1",
            "  b[0] x3 0..1",
            "c 1",
            "  c[0] 4x4 1..2",
        ]
    );
    assert_eq!(panel.match_count(), 3);
    assert_eq!(panel.selected_entry_index(), Some(3));
}

#[test]
fn last_file_takes_the_place_of_an_emptied_one() {
    let mut panel = three_files();
    assert!(panel.click_dismiss(1));
    assert_eq!(
        rows(&panel),
        vec![
            "c 1",
            "  c[0] 4x4 1..2",
            "b 2",
            "  b[0] x2 0..1",
            "  b[1] x3 0..1",
        ]
    );
    assert!(panel.click_dismiss(3));
    assert!(panel.click_dismiss(3));
    assert_eq!(rows(&panel), vec!["c 1", "  c[0] 4x4 1..2"]);
    assert!(panel.click_dismiss(1));
    assert!(panel.entries().is_empty());
    assert_eq!(panel.match_count(), 0);
    assert_eq!(panel.no_results(), Some(false));
}

#[test]
fn only_matches_are_dismissed() {
    let mut panel = three_files();
    let before = rows(&panel);
    assert!(!panel.dismiss_match());
    assert!(!panel.click_dismiss(0));
    assert_eq!(panel.selected_entry_index(), Some(0));
    assert!(!panel.click_dismiss(7));
    assert_eq!(rows(&panel), before);
}

#[test]
fn dismissed_file_can_come_back() {
    let mut panel = three_files_so_far();
    panel.click_dismiss(1);
    add(&mut panel, vec![result(8, "a", "xy")]);
    assert_eq!(rows(&panel)[5], "a 1");
    panel.select(6);
    match panel.open_entry() {
        OpenStep::Open(found) => assert_eq!(found.buffer, 8),
        _ => panic!("a match is selected"),
    }
}

#[test]
fn texts_to_ask_replacements_for() {
    let panel = three_files();
    assert_eq!(
        panel.replacement_requests(),
        Some(vec![vec!["x".to_string()], vec!["x".to_string(); 2], vec!["x".to_string()]])
    );
    assert_eq!(SearchPanel::new(OFF).replacement_requests(), None);
}

#[test]
fn replacing_all() {
    let mut panel = three_files();
    let replies = vec![
        vec![None],
        vec![Some("second".to_string()), Some("first".to_string())],
        vec![Some(String::new())],
    ];
    let edits = panel.replace_all(&replies, "plain").unwrap();
    let listed: Vec<_> = edits
        .iter()
        .map(|file| {
            let edits: Vec<_> = file
                .edits
                .iter()
                .map(|edit| (edit.range.start, edit.new_text.as_str()))
                .collect();
            (file.buffer, edits)
        })
        .collect();
    assert_eq!(
        listed,
        vec![
            (1, vec![(101, "plain")]),
            (2, vec![(203, "second"), (200, "first")]),
            (3, vec![(301, "")]),
        ]
    );
    assert!(panel.entries().is_empty());
    assert!(panel.active_query().is_none());
    assert_eq!(panel.no_results(), None);
}

#[test]
fn nothing_is_replaced_without_a_query() {
    let mut panel = SearchPanel::new(OFF);
    assert!(panel.replace_all(&vec![], "plain").is_none());
}

#[test]
fn nothing_to_replace_still_clears() {
    let mut panel = searching();
    let edits = panel.replace_all(&vec![], "plain").unwrap();
    assert!(edits.is_empty());
    assert!(panel.active_query().is_none());
    assert!(!panel.is_searching());
}

#[test]
fn accepting_a_replacement() {
    let mut panel = three_files();
    panel.select(4);
    assert_eq!(panel.selected_matched_text(), Some("x".to_string()));
    let edits = panel
        .accept_replacement(Some("new".to_string()), "plain")
        .unwrap();
    assert_eq!(edits.buffer, 2);
    assert_eq!(edits.edits.len(), 1);
    assert_eq!(edits.edits[0].range, AnchorRange { start: 203, end: 204 });
    assert_eq!(edits.edits[0].new_text, "new");
    assert_eq!(rows(&panel)[2], "b 1");
    assert_eq!(rows(&panel)[3], "  b[0] x2 0..1");
    assert_eq!(panel.match_count(), 3);
}

#[test]
fn accepting_without_a_reply() {
    let mut panel = three_files();
    panel.select(1);
    let edits = panel.accept_replacement(None, "plain").unwrap();
    assert_eq!(edits.edits[0].new_text, "plain");
    assert_eq!(rows(&panel)[0], "c 1");
}

#[test]
fn only_matches_are_replaced() {
    let mut panel = three_files();
    assert!(panel.accept_replacement(None, "plain").is_none());
    panel.select(0);
    assert_eq!(panel.selected_matched_text(), None);
    assert!(panel.accept_replacement(None, "plain").is_none());
    panel.select(7);
    assert_eq!(panel.selected_matched_text(), None);
    assert!(panel.accept_replacement(None, "plain").is_none());
    assert_eq!(panel.match_count(), 4);
}

#[test]
fn accepting_edits_what_replacing_all_would() {
    let mut one = three_files();
    one.select(6);
    let accepted = one.accept_replacement(None, "new").unwrap();
    let mut all = three_files();
    let replies = vec![vec![None], vec![None, None], vec![None]];
    let edits = all.replace_all(&replies, "new").unwrap();
    assert_eq!(accepted.buffer, edits[2].buffer);
    assert_eq!(accepted.edits[0].range, edits[2].edits[0].range);
    assert_eq!(accepted.edits[0].new_text, edits[2].edits[0].new_text);
}

#[test]
fn several_switches_at_once() {
    let flags = SearchOptions {
        whole_word: true,
        case_sensitive: false,
        include_ignored: false,
        regex: true,
    };
    let mut panel = three_files();
    match panel.toggle_search_options(flags, &inputs("x")) {
        SearchStep::Search(query) => {
            assert!(query.whole_word && !query.case_sensitive);
            assert!(matches!(
                query.kind,
                search_panel::query::QueryKind::Regex { .. }
            ));
            panel.search_started(query);
        }
        SearchStep::Cleared => panic!("there is a query"),
    }
    assert_eq!(panel.search_options(), flags);
    assert!(matches!(
        panel.toggle_search_options(flags, &inputs("")),
        SearchStep::Cleared
    ));
    assert_eq!(panel.search_options(), OFF);
}

#[test]
fn clicking_the_accept_button() {
    let mut panel = three_files();
    assert_eq!(panel.matched_text_at(4), Some("x".to_string()));
    assert_eq!(panel.selected_entry_index(), None);
    let edits = panel
        .click_accept(4, Some("new".to_string()), "plain")
        .unwrap();
    assert_eq!(edits.buffer, 2);
    assert_eq!(edits.edits.len(), 1);
    assert_eq!(edits.edits[0].range, AnchorRange { start: 203, end: 204 });
    assert_eq!(edits.edits[0].new_text, "new");
    assert_eq!(panel.selected_entry_index(), Some(4));
    assert_eq!(panel.match_count(), 3);
    assert_eq!(rows(&panel)[3], "  b[0] x2 0..1");
}

#[test]
fn accept_button_of_no_match() {
    let mut panel = three_files();
    assert_eq!(panel.matched_text_at(0), None);
    assert_eq!(panel.matched_text_at(7), None);
    assert!(panel.click_accept(0, None, "plain").is_none());
    assert_eq!(panel.selected_entry_index(), Some(0));
    assert!(panel.click_accept(7, None, "plain").is_none());
    assert_eq!(panel.selected_entry_index(), Some(7));
    assert_eq!(panel.match_count(), 4);
}

#[test]
fn late_results_of_a_replaced_search() {
    let mut panel = three_files_so_far();
    match panel.execute_search(&inputs("y")) {
        SearchStep::Search(query) => assert_eq!(panel.search_started(query), 2),
        SearchStep::Cleared => panic!("there is a query"),
    }
    assert!(!panel.awaits_results(1) && panel.awaits_results(2));
    let late = vec![result(1, "late", "x"), SearchResult::LimitReached];
    assert!(panel.accepts_results(1, &late));
    panel.search_results(1, &late);
    panel.search_finished(1);
    assert!(panel.entries().is_empty());
    assert_eq!(panel.match_count(), 0);
    assert!(!panel.limit_reached());
    assert_eq!(panel.no_results(), Some(true));
    assert!(panel.is_searching());
    add(&mut panel, vec![result(2, "b", "x")]);
    panel.search_results(1, &late);
    assert_eq!(rows(&panel), vec!["b 1", "  b[0] x 0..1"]);
}

#[test]
fn late_results_of_a_cleared_search() {
    let mut panel = three_files_so_far();
    panel.clear_results();
    assert!(!panel.awaits_results(1));
    panel.search_results(1, &vec![result(1, "late", "x")]);
    assert!(panel.entries().is_empty());
    assert_eq!(panel.no_results(), None);
}

#[test]
fn late_results_of_a_finished_search() {
    let mut panel = three_files();
    let before = rows(&panel);
    panel.search_results(1, &vec![result(1, "late", "x")]);
    assert_eq!(rows(&panel), before);
}

#[test]
fn results_without_a_search() {
    let mut panel = SearchPanel::new(OFF);
    panel.search_results(0, &vec![result(1, "a", "x")]);
    assert!(panel.entries().is_empty());
    panel.search_finished(0);
    assert!(!panel.is_searching());
}

#[test]
fn rejected_query_leaves_the_search_running() {
    let mut panel = three_files_so_far();
    assert!(matches!(
        panel.toggle_search_option(SearchOption::Regex, &inputs("(")),
        SearchStep::Search(_)
    ));
    assert!(panel.awaits_results(1));
    add(&mut panel, vec![result(4, "d", "x")]);
    assert_eq!(panel.file_count(), 4);
}

#[test]
fn burst_of_changes() {
    let mut panel = SearchPanel::new(OFF);
    let first = panel.query_changed();
    let last = panel.query_changed();
    assert!(panel.debounce_elapsed(first.number, &inputs("x")).is_none());
    assert!(matches!(
        panel.debounce_elapsed(last.number, &inputs("x")),
        Some(SearchStep::Search(_))
    ));
    assert!(panel.debounce_elapsed(last.number, &inputs("x")).is_none());
    let again = panel.query_changed();
    assert!(matches!(
        panel.debounce_elapsed(again.number, &inputs("")),
        Some(SearchStep::Cleared)
    ));
}

#[test]
fn events_of_the_editors() {
    let mut panel = SearchPanel::new(OFF);
    for editor in [PanelEditor::Query, PanelEditor::Include, PanelEditor::Exclude] {
        assert!(panel.editor_event(editor, false).is_none());
        assert_eq!(panel.editor_event(editor, true).map(|timer| timer.millis), Some(150));
    }
    assert!(panel.editor_event(PanelEditor::Replacement, true).is_none());
    assert!(panel.editor_event(PanelEditor::Replacement, false).is_none());
}
