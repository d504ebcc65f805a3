use search_panel::panel::SearchPanel;
use search_panel::query::SearchOptions;
use search_panel::settings::Pixels;
use search_panel::storage::{key_of, SerializedSearchPanel};

const OPTIONS: SearchOptions = SearchOptions {
    whole_word: true,
    case_sensitive: false,
    include_ignored: false,
    regex: true,
};

#[test]
fn key_by_database() {
    assert_eq!(
        SearchPanel::serialization_key(Some(5), None).as_deref(),
        Some("SearchPanel-\"5\"")
    );
    assert_eq!(
        SearchPanel::serialization_key(Some(-12), Some("s".to_string())).as_deref(),
        Some("SearchPanel-\"-12\"")
    );
}

#[test]
fn key_by_session() {
    assert_eq!(
        SearchPanel::serialization_key(None, Some("abc-1".to_string())).as_deref(),
        Some("SearchPanel-\"abc-1\"")
    );
    assert_eq!(
        SearchPanel::serialization_key(None, Some("a\"b\\c\n".to_string())).as_deref(),
        Some("SearchPanel-\"a\\\"b\\\\c\\n\"")
    );
}

#[test]
fn workspace_without_key() {
    assert_eq!(SearchPanel::serialization_key(None, None), None);
}

#[test]
fn key_is_put_together() {
    assert_eq!(key_of("\"x\""), "SearchPanel-\"x\"");
    assert_eq!(key_of(""), "SearchPanel-");
}

#[test]
fn width_is_kept() {
    let mut panel = SearchPanel::new(OPTIONS);
    assert_eq!(panel.serialize().panel, SerializedSearchPanel { width: None });
    let kept = panel.set_size(Some(Pixels { bits: 1135869952 })).panel;
    assert_eq!(panel.serialize().panel, kept);
    assert_eq!(kept.width, Some(Pixels { bits: 360f32.to_bits() }));
    let restored = SearchPanel::load(OPTIONS, Some(kept));
    assert_eq!(restored.width(), panel.width());
}

#[test]
fn nothing_was_kept() {
    let panel = SearchPanel::load(OPTIONS, None);
    assert_eq!(panel.width(), None);
    assert_eq!(panel.search_options(), OPTIONS);
    assert!(!panel.replace_enabled());
    assert!(!panel.filters_enabled());
    assert!(!panel.included_opened_only());
    assert!(panel.active_query().is_none());
    assert!(!panel.is_searching());
    assert_eq!(panel.search_id(), 0);
    assert_eq!(panel.file_count(), 0);
    assert_eq!(panel.match_count(), 0);
    assert!(panel.entries().is_empty());
    assert_eq!(panel.selected_entry_index(), None);
    assert!(!panel.limit_reached());
    assert_eq!(panel.no_results(), None);
}

#[test]
fn last_width_of_a_burst_is_written() {
    let mut panel = SearchPanel::new(OPTIONS);
    let first = panel.set_size(Some(Pixels { bits: 1 }));
    let last = panel.set_size(Some(Pixels { bits: 2 }));
    assert!(!panel.serialization_elapsed(first.number));
    assert!(panel.serialization_elapsed(last.number));
    assert_eq!(last.panel.width, Some(Pixels { bits: 2 }));
    assert!(!panel.serialization_elapsed(last.number));
}

#[test]
fn nothing_is_written_unasked() {
    assert!(!SearchPanel::new(OPTIONS).serialization_elapsed(0));
}
