//! The messages that drive the application: navigation, the events of the
//! price page's refresh cycle, and settings changes.

use vstd::prelude::*;

use crate::api::ApiError;
use crate::quotes::QuoteSet;
use crate::resources::ResourceMap;
use crate::route::Route;
use crate::settings_page::Theme;
use crate::PriceMicros;

verus! {

/// Application-level messages.
pub enum Message {
    /// Navigate to a different page.
    Navigate(Route),
    /// Messages related to the price page.
    Bitcoin(BitcoinMessage),
    /// Messages related to the settings page.
    Settings(SettingsMessage),
    /// Messages related to the about page.
    About(AboutMessage),
}

/// The events of the price page: the two triggers that start a refresh
/// cycle, and the completions of the two asynchronous calls of a cycle,
/// each tagged with the cycle it belongs to.
pub enum BitcoinMessage {
    /// The user requested a refetch.
    Refetch,
    /// The auto-refresh timer fired.
    Tick,
    /// The price fetch of the tagged cycle succeeded, with the reference
    /// price and the full quote set.
    CurrentPrice(u64, PriceMicros, QuoteSet),
    /// The resource batch of the tagged cycle resolved, with the joined
    /// bytes of every item that succeeded.
    SvgLoaded(u64, ResourceMap),
    /// The price fetch of the tagged cycle failed.
    Error(u64, ApiError),
}

/// Messages specific to the settings page.
#[derive(Debug, Clone, Copy, PartialEq, Eq, Structural)]
pub enum SettingsMessage {
    /// Auto refresh interval changed.
    AutoRefreshIntervalChanged(u32),
    /// Theme selection changed.
    ThemeChanged(Theme),
    /// Notifications toggle changed.
    NotificationsToggled(bool),
    /// Reset all settings to defaults.
    ResetToDefaults,
}

/// Messages specific to the about page.
#[derive(Debug, Clone, Copy, PartialEq, Eq, Structural)]
pub enum AboutMessage {
    /// Placeholder message.
    Placeholder,
}

} // verus!
