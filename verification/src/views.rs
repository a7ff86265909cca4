//! The value carriers handed to whatever renders the pages: each view holds
//! exactly the data its page exposes for display.

use vstd::prelude::*;

use crate::route::Route;
use crate::settings_page::Theme;

verus! {

/// View data of the about page.
#[derive(Debug, Clone, Copy, PartialEq, Eq, Structural)]
pub struct AboutView;

impl AboutView {
    /// Creates a new about view.
    pub fn new() -> (r: AboutView)
        ensures
            r == AboutView,
    {
        AboutView
    }
}

/// View data of the navigation bar.
#[derive(Debug, Clone, Copy, PartialEq, Eq, Structural)]
pub struct Navigation {
    /// The route whose page is currently shown.
    pub current_route: Route,
}

impl Navigation {
    /// Creates a new navigation component.
    pub fn new(current_route: Route) -> (r: Navigation)
        ensures
            r.current_route == current_route,
    {
        Navigation { current_route }
    }
}

/// View data of the settings page.
#[derive(Debug, Clone, Copy, PartialEq, Eq, Structural)]
pub struct SettingsView {
    pub auto_refresh_interval: u32,
    pub selected_theme: Theme,
    pub notifications_enabled: bool,
}

impl SettingsView {
    /// Creates a new settings view.
    pub fn new(auto_refresh_interval: u32, selected_theme: &Theme, notifications_enabled: bool) -> (r:
        SettingsView)
        ensures
            r.auto_refresh_interval == auto_refresh_interval,
            r.selected_theme == *selected_theme,
            r.notifications_enabled == notifications_enabled,
    {
        SettingsView { auto_refresh_interval, selected_theme: *selected_theme, notifications_enabled }
    }
}

} // verus!
