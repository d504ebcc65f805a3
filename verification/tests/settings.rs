use search_panel::dock::DockAction;
use search_panel::panel::SearchPanel;
use search_panel::query::SearchOptions;
use search_panel::render::IconName;
use search_panel::settings::{
    deploy_search, DeployStep, DockPosition, Pixels, SearchMode, SearchPanelSettings,
    SearchPanelSettingsContent, SettingsContent,
};

const FULL: SettingsContent = SettingsContent {
    search_panel: Some(SearchPanelSettingsContent {
        button: Some(true),
        dock: Some(DockPosition::Left),
        default_width: Some(Pixels { bits: 7 }),
    }),
};

fn new_panel() -> SearchPanel {
    SearchPanel::new(SearchOptions {
        whole_word: false,
        case_sensitive: false,
        include_ignored: false,
        regex: false,
    })
}

#[test]
fn settings_are_read() {
    assert!(FULL.is_complete());
    assert_eq!(
        SearchPanelSettings::from_settings(&FULL),
        SearchPanelSettings {
            button: true,
            dock: DockPosition::Left,
            default_width: Pixels { bits: 7 },
        }
    );
}

#[test]
fn incomplete_settings() {
    let panel = FULL.search_panel.unwrap();
    let without = |panel| SettingsContent {
        search_panel: Some(panel),
    };
    assert!(!SettingsContent { search_panel: None }.is_complete());
    assert!(!without(SearchPanelSettingsContent { button: None, ..panel }).is_complete());
    assert!(!without(SearchPanelSettingsContent { dock: None, ..panel }).is_complete());
    assert!(!without(SearchPanelSettingsContent { default_width: None, ..panel }).is_complete());
}

#[test]
fn side_that_is_set_is_read_back() {
    let mut content = FULL;
    SearchPanel::set_position(&mut content, DockPosition::Right);
    let settings = SearchPanelSettings::from_settings(&content);
    assert_eq!(SearchPanel::position(&settings), DockPosition::Right);
    assert!(settings.button);
    assert_eq!(settings.default_width, Pixels { bits: 7 });
}

#[test]
fn side_is_set_where_nothing_was() {
    let mut content = SettingsContent { search_panel: None };
    SearchPanel::set_position(&mut content, DockPosition::Left);
    assert_eq!(
        content.search_panel,
        Some(SearchPanelSettingsContent {
            button: None,
            dock: Some(DockPosition::Left),
            default_width: None,
        })
    );
}

#[test]
fn sides_of_the_window() {
    assert!(SearchPanel::position_is_valid(DockPosition::Left));
    assert!(SearchPanel::position_is_valid(DockPosition::Right));
    assert!(!SearchPanel::position_is_valid(DockPosition::Bottom));
}

#[test]
fn width_of_the_panel() {
    let settings = SearchPanelSettings::from_settings(&FULL);
    let mut panel = new_panel();
    assert_eq!(panel.size(&settings), Pixels { bits: 7 });
    panel.set_size(Some(Pixels { bits: 9 }));
    assert_eq!(panel.size(&settings), Pixels { bits: 9 });
    panel.set_size(None);
    assert_eq!(panel.size(&settings), Pixels { bits: 7 });
}

#[test]
fn button_of_the_panel() {
    let mut settings = SearchPanelSettings::from_settings(&FULL);
    assert_eq!(SearchPanel::icon(&settings), Some(IconName::MagnifyingGlass));
    settings.button = false;
    assert_eq!(SearchPanel::icon(&settings), None);
    assert_eq!(SearchPanel::icon_tooltip(), "Search Panel");
    assert_eq!(SearchPanel::toggle_action(), DockAction::ToggleFocus);
    assert_eq!(SearchPanel::activation_priority(), 3);
}

#[test]
fn names_of_the_panel() {
    assert_eq!(SearchPanel::persistent_name(), "SearchPanel");
    assert_eq!(SearchPanel::panel_key(), "SearchPanel");
    assert_eq!(SearchPanel::dispatch_context(), vec!["SearchPanel", "menu"]);
}

#[test]
fn request_to_search() {
    assert_eq!(deploy_search(SearchMode::Panel, true), DeployStep::FocusPanel);
    assert_eq!(deploy_search(SearchMode::Panel, false), DeployStep::Ignore);
    assert_eq!(deploy_search(SearchMode::Default, true), DeployStep::Propagate);
    assert_eq!(deploy_search(SearchMode::Default, false), DeployStep::Propagate);
}
