//! The panel's place in the window, as the user's settings give it.

use vstd::prelude::*;

verus! {

/// A length in logical pixels, by the bits of its floating-point number. The panel hands lengths
/// on and never calculates with them.
#[derive(Clone, Copy, Debug, PartialEq, Eq, Structural)]
pub struct Pixels {
    pub bits: u32,
}

/// A side of the window.
#[derive(Clone, Copy, Debug, PartialEq, Eq, Structural)]
pub enum DockPosition {
    Left,
    Bottom,
    Right,
}

/// What a settings file says about the panel.
#[derive(Clone, Copy, Debug, PartialEq, Eq, Structural)]
pub struct SearchPanelSettingsContent {
    pub button: Option<bool>,
    pub dock: Option<DockPosition>,
    pub default_width: Option<Pixels>,
}

/// The part of a settings file that concerns the panel.
#[derive(Clone, Copy, Debug, PartialEq, Eq, Structural)]
pub struct SettingsContent {
    pub search_panel: Option<SearchPanelSettingsContent>,
}

impl SettingsContent {
    /// Every setting of the panel is given.
    pub open spec fn complete(self) -> bool {
        &&& self.search_panel is Some
        &&& self.search_panel->0.button is Some
        &&& self.search_panel->0.dock is Some
        &&& self.search_panel->0.default_width is Some
    }

    /// Tests whether every setting of the panel is given.
    pub fn is_complete(&self) -> (complete: bool)
        ensures
            complete == self.complete(),
    {
        match self.search_panel {
            Some(panel) => panel.button.is_some() && panel.dock.is_some()
                && panel.default_width.is_some(),
            None => false,
        }
    }

    /// The settings with the panel's side set, and with nothing else changed.
    pub open spec fn docked_at(self, position: DockPosition) -> SettingsContent {
        let panel = match self.search_panel {
            Some(panel) => panel,
            None => SearchPanelSettingsContent { button: None, dock: None, default_width: None },
        };
        SettingsContent {
            search_panel: Some(SearchPanelSettingsContent { dock: Some(position), ..panel }),
        }
    }

    /// Sets the panel's side.
    pub fn set_dock(&mut self, position: DockPosition)
        ensures
            *final(self) == old(self).docked_at(position),
    {
        let panel = match self.search_panel {
            Some(panel) => panel,
            None => SearchPanelSettingsContent { button: None, dock: None, default_width: None },
        };
        self.search_panel = Some(
            SearchPanelSettingsContent {
                button: panel.button,
                dock: Some(position),
                default_width: panel.default_width,
            },
        );
    }
}

/// The panel's settings.
#[derive(Clone, Copy, Debug, PartialEq, Eq, Structural)]
pub struct SearchPanelSettings {
    /// Whether the status bar has a button for the panel.
    pub button: bool,
    pub dock: DockPosition,
    pub default_width: Pixels,
}

impl SearchPanelSettings {
    /// The settings that a complete file gives.
    pub open spec fn given_by(content: SettingsContent) -> SearchPanelSettings
        recommends
            content.complete(),
    {
        SearchPanelSettings {
            button: content.search_panel->0.button->0,
            dock: content.search_panel->0.dock->0,
            default_width: content.search_panel->0.default_width->0,
        }
    }

    /// Reads the panel's settings, all of which must be given.
    pub fn from_settings(content: &SettingsContent) -> (settings: SearchPanelSettings)
        requires
            content.complete(),
        ensures
            settings == SearchPanelSettings::given_by(*content),
    {
        let panel = content.search_panel.unwrap();
        SearchPanelSettings {
            button: panel.button.unwrap(),
            dock: panel.dock.unwrap(),
            default_width: panel.default_width.unwrap(),
        }
    }
}

/// A side that was set is the side that is read, and the other settings are as before.
pub proof fn set_dock_is_read_back(content: SettingsContent, position: DockPosition)
    requires
        content.complete(),
    ensures
        content.docked_at(position).complete(),
        SearchPanelSettings::given_by(content.docked_at(position)) == (SearchPanelSettings {
            dock: position,
            ..SearchPanelSettings::given_by(content)
        }),
{
}

/// Whether search is shown in the panel.
#[derive(Clone, Copy, Debug, PartialEq, Eq, Structural)]
pub enum SearchMode {
    Panel,
    Default,
}

/// What a request to search does.
#[derive(Clone, Copy, Debug, PartialEq, Eq, Structural)]
pub enum DeployStep {
    /// The panel is focused, and its query is taken from the active editor.
    FocusPanel,
    /// The request goes on to whatever else handles it.
    Propagate,
    /// Nothing happens: there is no panel.
    Ignore,
}

/// Decides what a request to search does.
pub fn deploy_search(search_mode: SearchMode, has_panel: bool) -> (step: DeployStep)
    ensures
        step == match search_mode {
            SearchMode::Panel => if has_panel {
                DeployStep::FocusPanel
            } else {
                DeployStep::Ignore
            },
            SearchMode::Default => DeployStep::Propagate,
        },
{
    match search_mode {
        SearchMode::Panel => if has_panel {
            DeployStep::FocusPanel
        } else {
            DeployStep::Ignore
        },
        SearchMode::Default => DeployStep::Propagate,
    }
}

/// Each setting that is read is the one that the file gives, and setting the side changes nothing
/// but the side.
pub proof fn settings_keep_their_places(content: SettingsContent, position: DockPosition)
    ensures
        content.complete() <==> (content.search_panel matches Some(panel) && panel.button is Some
            && panel.dock is Some && panel.default_width is Some),
        content.complete() ==> {
            let settings = SearchPanelSettings::given_by(content);
            &&& content.search_panel->0.button == Some(settings.button)
            &&& content.search_panel->0.dock == Some(settings.dock)
            &&& content.search_panel->0.default_width == Some(settings.default_width)
        },
        content.docked_at(position).search_panel is Some,
        content.docked_at(position).search_panel->0.dock == Some(position),
        content.search_panel is Some ==> {
            let (before, after) = (
                content.search_panel->0,
                content.docked_at(position).search_panel->0,
            );
            after.button == before.button && after.default_width == before.default_width
        },
        content.search_panel is None ==> {
            let after = content.docked_at(position).search_panel->0;
            after.button is None && after.default_width is None
        },
{
}

} // verus!
