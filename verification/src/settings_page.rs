//! The settings page: inert configuration values (auto-refresh interval,
//! theme, notifications) passed through to whoever renders and schedules.

use vstd::prelude::*;

use crate::message::SettingsMessage;

verus! {

/// The colour theme to render with.
#[derive(Debug, Clone, Copy, PartialEq, Eq, Structural)]
pub enum Theme {
    Light,
    Dark,
    Nord,
}

impl Theme {
    /// The name under which this theme is displayed.
    pub open spec fn spec_label(self) -> Seq<char> {
        match self {
            Theme::Light => "Light"@,
            Theme::Dark => "Dark"@,
            Theme::Nord => "Nord"@,
        }
    }

    /// Renders the theme's name.
    pub fn label(&self) -> (r: &'static str)
        ensures
            r@ == self.spec_label(),
    {
        match self {
            Theme::Light => "Light",
            Theme::Dark => "Dark",
            Theme::Nord => "Nord",
        }
    }
}

/// Settings page state.
#[derive(Debug, Clone, Copy, PartialEq, Eq, Structural)]
pub struct SettingsPage {
    /// Auto refresh interval in seconds.
    pub auto_refresh_interval: u32,
    /// Theme selection.
    pub selected_theme: Theme,
    /// Enable notifications.
    pub notifications_enabled: bool,
}

/// The settings in force until the user changes one.
pub open spec fn spec_default_settings() -> SettingsPage {
    SettingsPage { auto_refresh_interval: 30, selected_theme: Theme::Nord, notifications_enabled: false }
}

/// The state after one settings message is applied.
pub open spec fn spec_settings_update(s: SettingsPage, message: SettingsMessage) -> SettingsPage {
    match message {
        SettingsMessage::AutoRefreshIntervalChanged(interval) => SettingsPage {
            auto_refresh_interval: interval,
            ..s
        },
        SettingsMessage::ThemeChanged(theme) => SettingsPage { selected_theme: theme, ..s },
        SettingsMessage::NotificationsToggled(enabled) => SettingsPage {
            notifications_enabled: enabled,
            ..s
        },
        SettingsMessage::ResetToDefaults => spec_default_settings(),
    }
}

impl Default for SettingsPage {
    /// The default settings.
    fn default() -> (r: Self)
        ensures
            r == spec_default_settings(),
    {
        SettingsPage {
            auto_refresh_interval: 30,
            selected_theme: Theme::Nord,
            notifications_enabled: false,
        }
    }
}

impl SettingsPage {
    /// Creates a new settings page with the default settings.
    pub fn new() -> (r: Self)
        ensures
            r == spec_default_settings(),
    {
        SettingsPage {
            auto_refresh_interval: 30,
            selected_theme: Theme::Nord,
            notifications_enabled: false,
        }
    }

    /// Applies one settings message: each message replaces the one value it
    /// names, and a reset restores every default.
    pub fn update(&mut self, message: SettingsMessage)
        ensures
            *final(self) == spec_settings_update(*old(self), message),
    {
        match message {
            SettingsMessage::AutoRefreshIntervalChanged(interval) => {
                self.auto_refresh_interval = interval;
            },
            SettingsMessage::ThemeChanged(theme) => {
                self.selected_theme = theme;
            },
            SettingsMessage::NotificationsToggled(enabled) => {
                self.notifications_enabled = enabled;
            },
            SettingsMessage::ResetToDefaults => {
                *self = SettingsPage {
                    auto_refresh_interval: 30,
                    selected_theme: Theme::Nord,
                    notifications_enabled: false,
                };
            },
        }
    }
}

} // verus!
