//! The panel as a part of the window: its names, its side, its size and its button.

use crate::glob::views;
use crate::panel::SearchPanel;
use crate::render::IconName;
use crate::settings::{DockPosition, Pixels, SearchPanelSettings, SettingsContent};
use crate::storage::SEARCH_PANEL_KEY;
use vstd::prelude::*;

verus! {

/// The action that a dock button stands for.
#[derive(Clone, Copy, Debug, PartialEq, Eq, Structural)]
pub enum DockAction {
    ToggleFocus,
}

impl SearchPanel {
    /// The name under which the window remembers the panel.
    pub fn persistent_name() -> (name: &'static str)
        ensures
            name@ == "SearchPanel"@,
    {
        "SearchPanel"
    }

    /// The name of the panel's settings.
    pub fn panel_key() -> (key: &'static str)
        ensures
            key@ == SEARCH_PANEL_KEY@,
    {
        SEARCH_PANEL_KEY
    }

    /// The contexts in which the panel's key bindings hold.
    pub fn dispatch_context() -> (contexts: Vec<&'static str>)
        ensures
            views(contexts@) == seq!["SearchPanel"@, "menu"@],
    {
        let mut contexts: Vec<&'static str> = Vec::new();
        contexts.push("SearchPanel");
        contexts.push("menu");
        assert(views(contexts@) =~= seq!["SearchPanel"@, "menu"@]);
        contexts
    }

    /// The side at which the panel is docked.
    pub fn position(settings: &SearchPanelSettings) -> (position: DockPosition)
        ensures
            position == settings.dock,
    {
        settings.dock
    }

    /// Tests whether the panel can be docked at a side: the left or the right, not the bottom.
    pub fn position_is_valid(position: DockPosition) -> (valid: bool)
        ensures
            valid == (position is Left || position is Right),
    {
        match position {
            DockPosition::Left => true,
            DockPosition::Right => true,
            DockPosition::Bottom => false,
        }
    }

    /// Docks the panel at a side, in the user's settings.
    pub fn set_position(settings: &mut SettingsContent, position: DockPosition)
        ensures
            *final(settings) == old(settings).docked_at(position),
    {
        settings.set_dock(position);
    }

    /// The panel's width: what the user gave it, or else what the settings say.
    pub fn size(&self, settings: &SearchPanelSettings) -> (size: Pixels)
        ensures
            size == match self@.width {
                Some(width) => width,
                None => settings.default_width,
            },
    {
        self.width().unwrap_or(settings.default_width)
    }

    /// The icon of the panel's button, if the button is wanted.
    pub fn icon(settings: &SearchPanelSettings) -> (icon: Option<IconName>)
        ensures
            icon == if settings.button {
                Some(IconName::MagnifyingGlass)
            } else {
                None
            },
    {
        if settings.button {
            Some(IconName::MagnifyingGlass)
        } else {
            None
        }
    }

    /// What the panel's button says.
    pub fn icon_tooltip() -> (tooltip: &'static str)
        ensures
            tooltip@ == "Search Panel"@,
    {
        "Search Panel"
    }

    /// What the panel's button does.
    pub fn toggle_action() -> (action: DockAction)
        ensures
            action == DockAction::ToggleFocus,
    {
        DockAction::ToggleFocus
    }

    /// The place of the panel's button among those of other panels.
    pub fn activation_priority() -> (priority: u32)
        ensures
            priority == 3,
    {
        3
    }
}

} // verus!
