use search_panel::entries::SearchPanelEntry;
use search_panel::files::ProjectPath;
use search_panel::matches::{AnchorRange, ByteRange, FoundRange};
use search_panel::panel::{SearchPanel, SearchStep};
use search_panel::query::{SearchInputs, SearchOption, SearchOptions};
use search_panel::render::{
    render_context, Button, ButtonAction, EntryView, IconName, ResultsView, RowAction,
};
use search_panel::results::{BufferResult, FileInfo, SearchResult};

const OFF: SearchOptions = SearchOptions {
    whole_word: false,
    case_sensitive: false,
    include_ignored: false,
    regex: false,
};

fn inputs(query: &str) -> SearchInputs {
    SearchInputs {
        query: query.to_string(),
        include_text: String::new(),
        exclude_text: String::new(),
    }
}

fn searching() -> SearchPanel {
    let mut panel = SearchPanel::new(OFF);
    match panel.execute_search(&inputs("x")) {
        SearchStep::Search(query) => assert_eq!(panel.search_started(query), 1),
        SearchStep::Cleared => panic!("there is a query"),
    }
    panel
}

fn add(panel: &mut SearchPanel, path: &str, text: &str) {
    let ranges = text
        .match_indices("match")
        .map(|(at, _)| FoundRange {
            range: AnchorRange { start: 0, end: 1 },
            offsets: ByteRange {
                start: at,
                end: at + 5,
            },
        })
        .collect();
    let results = vec![SearchResult::Buffer(BufferResult {
        buffer: 1,
        file: Some(FileInfo {
            path: ProjectPath {
                worktree_id: 1,
                path: path.to_string(),
            },
            file_name: path.rsplit('/').next().map(|name| name.to_string()),
            display_path: path.to_string(),
        }),
        text: text.to_string(),
        ranges,
    })];
    assert!(panel.accepts_results(1, &results));
    panel.search_results(1, &results);
}

fn button(button: &Button) -> (&'static str, IconName, &'static str, bool, ButtonAction) {
    (
        button.id,
        button.icon,
        button.tooltip,
        button.toggled,
        button.action,
    )
}

#[test]
fn query_bar_of_a_new_panel() {
    let bar = SearchPanel::new(OFF).render_query_input();
    let query_buttons: Vec<_> = bar.query_buttons.iter().map(button).collect();
    assert_eq!(
        query_buttons,
        vec![
            (
                "toggle-case-sensitive",
                IconName::CaseSensitive,
                "Match Case",
                false,
                ButtonAction::ToggleOption(SearchOption::CaseSensitive)
            ),
            (
                "toggle-whole-word",
                IconName::WholeWord,
                "Match Whole Word",
                false,
                ButtonAction::ToggleOption(SearchOption::WholeWord)
            ),
            (
                "toggle-regex",
                IconName::Regex,
                "Use Regular Expression",
                false,
                ButtonAction::ToggleOption(SearchOption::Regex)
            ),
        ]
    );
    assert_eq!(
        button(&bar.replace_button),
        (
            "toggle-replace",
            IconName::Replace,
            "Toggle Replace",
            false,
            ButtonAction::ToggleReplace
        )
    );
    let scope_buttons: Vec<_> = bar.scope_buttons.iter().map(button).collect();
    assert_eq!(
        scope_buttons,
        vec![
            (
                "search-opened-only",
                IconName::FolderSearch,
                "Only Search Open Files",
                false,
                ButtonAction::ToggleOpenedOnly
            ),
            (
                "toggle-include-ignored",
                IconName::Sliders,
                "Also search files ignored by configuration",
                false,
                ButtonAction::ToggleOption(SearchOption::IncludeIgnored)
            ),
            (
                "toggle-filters",
                IconName::Filter,
                "Toggle Filters",
                false,
                ButtonAction::ToggleFilters
            ),
        ]
    );
    assert!(bar.replace_all_button.is_none());
    assert!(!bar.filters_shown);
}

#[test]
fn query_bar_with_everything_on() {
    let mut panel = SearchPanel::new(SearchOptions {
        whole_word: true,
        case_sensitive: true,
        include_ignored: true,
        regex: true,
    });
    panel.toggle_replace();
    panel.toggle_filters();
    panel.toggle_opened_only(&inputs(""));
    let bar = panel.render_query_input();
    assert!(bar.query_buttons.iter().all(|button| button.toggled));
    assert!(bar.scope_buttons.iter().all(|button| button.toggled));
    assert!(bar.replace_button.toggled);
    assert!(bar.filters_shown);
    assert_eq!(
        button(&bar.replace_all_button.unwrap()),
        (
            "replace-all",
            IconName::ReplaceAll,
            "Replace All Matches",
            false,
            ButtonAction::ReplaceAll
        )
    );
}

#[test]
fn messages_of_an_empty_list() {
    let mut panel = SearchPanel::new(OFF);
    assert_eq!(panel.render_empty_state(), "Search to find results");
    panel = searching();
    assert_eq!(panel.render_empty_state(), "Searching...");
    assert!(matches!(
        panel.render_results(),
        ResultsView::Empty {
            message: "Searching..."
        }
    ));
    panel.search_finished(1);
    assert_eq!(panel.render_empty_state(), "No results found");
    panel.clear_results();
    assert_eq!(panel.render_empty_state(), "Search to find results");
}

#[test]
fn message_after_the_last_match_was_dismissed() {
    let mut panel = searching();
    add(&mut panel, "a", "match");
    panel.search_finished(1);
    panel.click_dismiss(1);
    assert_eq!(panel.render_empty_state(), "Search to find results");
    assert_eq!(panel.render_summary(), "");
}

#[test]
fn list_with_and_without_warning() {
    let mut panel = searching();
    add(&mut panel, "a", "match match");
    assert!(matches!(
        panel.render_results(),
        ResultsView::List {
            entry_count: 3,
            limit_warning: None
        }
    ));
    panel.search_results(1, &vec![SearchResult::LimitReached]);
    match panel.render_results() {
        ResultsView::List {
            entry_count,
            limit_warning,
        } => {
            assert_eq!(entry_count, 3);
            assert_eq!(
                limit_warning,
                Some("Search limit reached. Narrow your search for complete results.")
            );
        }
        ResultsView::Empty { .. } => panic!("there are rows"),
    }
}

#[test]
fn summaries() {
    let mut panel = searching();
    assert_eq!(panel.render_summary(), "");
    add(&mut panel, "a", "match");
    assert_eq!(panel.render_summary(), "1 result in 1 file");
    add(&mut panel, "a", "match");
    assert_eq!(panel.render_summary(), "2 results in 1 file");
    add(&mut panel, "b", "match");
    assert_eq!(panel.render_summary(), "3 results in 2 files");
}

#[test]
fn row_of_a_header() {
    let mut panel = searching();
    add(&mut panel, "src/lib.rs", "match match match");
    panel.select(0);
    let rows = panel.render_rows(0, 1, "");
    assert_eq!(rows.len(), 1);
    match &rows[0] {
        EntryView::FileHeader {
            is_selected,
            chevron,
            file_name,
            display_path,
            match_count,
        } => {
            assert!(*is_selected);
            assert_eq!(*chevron, IconName::ChevronDown);
            assert_eq!(file_name, "lib.rs");
            assert_eq!(display_path, "src/lib.rs");
            assert_eq!(match_count, "3");
        }
        EntryView::Match { .. } => panic!("the first row is a header"),
    }
    panel.collapse_entry();
    assert!(matches!(
        &panel.render_rows(0, 1, "")[0],
        EntryView::FileHeader {
            chevron: IconName::ChevronRight,
            ..
        }
    ));
}

#[test]
fn header_of_a_path_without_a_name() {
    let panel = SearchPanel::new(OFF);
    let entry = SearchPanelEntry::FileHeader {
        path: ProjectPath {
            worktree_id: 1,
            path: String::new(),
        },
        file_name: None,
        display_path: "root".to_string(),
        match_count: 12,
        collapsed: false,
    };
    match panel.render_entry(0, &entry, "") {
        EntryView::FileHeader {
            is_selected,
            file_name,
            match_count,
            ..
        } => {
            assert!(!is_selected);
            assert_eq!(file_name, "root");
            assert_eq!(match_count, "12");
        }
        EntryView::Match { .. } => panic!("the entry is a header"),
    }
}

#[test]
fn row_of_a_match() {
    let mut panel = searching();
    add(&mut panel, "a", "    let match = 1;");
    match &panel.render_rows(1, 2, "new")[0] {
        EntryView::Match {
            is_selected,
            before_match,
            matched_text,
            after_match,
            replacement_text,
            buttons,
        } => {
            assert!(!is_selected);
            assert_eq!(before_match, "let ");
            assert_eq!(matched_text, "match");
            assert_eq!(after_match, " = 1;");
            assert_eq!(*replacement_text, None);
            assert!(buttons.is_empty());
        }
        EntryView::FileHeader { .. } => panic!("the second row is a match"),
    }
}

#[test]
fn row_of_a_match_while_replacing() {
    let mut panel = searching();
    add(&mut panel, "a", "a match");
    panel.toggle_replace();
    panel.select(1);
    match &panel.render_rows(1, 2, "new")[0] {
        EntryView::Match {
            is_selected,
            replacement_text,
            buttons,
            ..
        } => {
            assert!(*is_selected);
            assert_eq!(replacement_text.as_deref(), Some("new"));
            let listed: Vec<_> = buttons
                .iter()
                .map(|button| (button.id, button.icon, button.tooltip, button.action))
                .collect();
            assert_eq!(
                listed,
                vec![
                    ("accept", IconName::Check, "Accept replacement", RowAction::Accept),
                    ("dismiss", IconName::Close, "Dismiss match", RowAction::Dismiss),
                ]
            );
        }
        EntryView::FileHeader { .. } => panic!("the second row is a match"),
    }
}

#[test]
fn ranges_of_rows() {
    let mut panel = searching();
    add(&mut panel, "a", "match match match");
    assert_eq!(panel.render_rows(0, 4, "").len(), 4);
    assert_eq!(panel.render_rows(2, 9, "").len(), 2);
    assert_eq!(panel.render_rows(2, 2, "").len(), 0);
    assert_eq!(panel.render_rows(6, 9, "").len(), 0);
}

#[test]
fn parts_make_up_the_line() {
    let mut panel = searching();
    add(&mut panel, "a", "one match two");
    match &panel.render_rows(1, 2, "")[0] {
        EntryView::Match {
            before_match,
            matched_text,
            after_match,
            ..
        } => assert_eq!(
            format!("{before_match}{matched_text}{after_match}"),
            "one match two"
        ),
        EntryView::FileHeader { .. } => panic!("the second row is a match"),
    }
}

#[test]
fn one_row_is_selected() {
    let mut panel = searching();
    add(&mut panel, "a", "match match match");
    panel.select(2);
    let selected: Vec<bool> = panel
        .render_rows(0, 4, "")
        .iter()
        .map(|row| match row {
            EntryView::FileHeader { is_selected, .. } => *is_selected,
            EntryView::Match { is_selected, .. } => *is_selected,
        })
        .collect();
    assert_eq!(selected, vec![false, false, true, false]);
}

#[test]
fn short_context_is_whole() {
    assert_eq!(render_context("12345678901234567890x", 20), "12345678901234567890");
    assert_eq!(render_context("  \t12345678901234567890x", 23), "12345678901234567890");
    assert_eq!(render_context("x", 0), "");
    assert_eq!(render_context("   x", 3), "");
}

#[test]
fn long_context_is_cut() {
    assert_eq!(
        render_context("a12345678901234567890x", 21),
        "…12345678901234567890"
    );
    assert_eq!(
        render_context("abc 123456789012345678 x", 23),
        "… 123456789012345678 "
    );
}

#[test]
fn long_context_is_cut_between_characters() {
    let line = format!("{}x", "日".repeat(8));
    assert_eq!(render_context(&line, 24), format!("…{}", "日".repeat(6)));
    let line = format!("{}x", "😀".repeat(6));
    assert_eq!(render_context(&line, 24), format!("…{}", "😀".repeat(5)));
    let line = format!("{}ax", "é".repeat(11));
    assert_eq!(render_context(&line, 23), format!("…{}a", "é".repeat(9)));
}

#[test]
fn context_out_of_the_line_is_empty() {
    assert_eq!(render_context("é", 1), "");
    assert_eq!(render_context("abc", 4), "");
}

#[test]
fn rows_out_of_their_line_are_empty() {
    let panel = SearchPanel::new(OFF);
    let entry = SearchPanelEntry::Match {
        path: ProjectPath {
            worktree_id: 1,
            path: "a".to_string(),
        },
        match_index: 0,
        line_text: "abc".to_string(),
        match_range_in_line: ByteRange { start: 2, end: 9 },
    };
    match panel.render_entry(0, &entry, "") {
        EntryView::Match {
            before_match,
            matched_text,
            after_match,
            ..
        } => {
            assert_eq!(before_match, "ab");
            assert_eq!(matched_text, "");
            assert_eq!(after_match, "");
        }
        EntryView::FileHeader { .. } => panic!("the entry is a match"),
    }
}

#[test]
fn longest_end_that_fits_is_drawn() {
    let line = "aé日😀bcdefghijklmnopqrstx";
    let start = line.len() - 1;
    let context = render_context(line, start);
    let end = context.strip_prefix('…').unwrap();
    let before = &line[..start];
    for (at, _) in before.char_indices() {
        if before.len() - at <= 20 {
            assert!(before.len() - at <= end.len());
        }
    }
    assert!(before.ends_with(end));
    assert_eq!(end, "bcdefghijklmnopqrst");
}
