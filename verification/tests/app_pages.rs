use price_monitor::about_page::AboutPage;
use price_monitor::app::App;
use price_monitor::message::{AboutMessage, Message, SettingsMessage};
use price_monitor::route::Route;
use price_monitor::settings_page::{SettingsPage, Theme};
use price_monitor::views::{AboutView, Navigation, SettingsView};

#[test]
fn app_starts_on_the_price_page() {
    let (app, plan) = App::new();
    assert_eq!(app.current_route, Route::Bitcoin);
    assert_eq!(app.settings_page, SettingsPage::new());
    assert_eq!(plan.cycle, 1);
    assert_eq!(plan.currencies.len(), 45);
    assert_eq!(app.bitcoin_page.quotes().len(), 45);
}

#[test]
fn navigation_switches_the_route() {
    let (mut app, _) = App::new();
    let plan = app.update(Message::Navigate(Route::Settings));
    assert!(plan.is_none());
    assert_eq!(app.current_route, Route::Settings);
    app.update(Message::Navigate(Route::About));
    assert_eq!(app.current_route, Route::About);
}

#[test]
fn app_routes_settings_messages() {
    let (mut app, _) = App::new();
    let plan = app.update(Message::Settings(SettingsMessage::AutoRefreshIntervalChanged(90)));
    assert!(plan.is_none());
    assert_eq!(app.settings_page.auto_refresh_interval, 90);
}

#[test]
fn app_about_messages_change_nothing() {
    let (mut app, _) = App::new();
    let plan = app.update(Message::About(AboutMessage::Placeholder));
    assert!(plan.is_none());
    assert_eq!(app.about_page, AboutPage);
}

#[test]
fn settings_update_replaces_one_value_at_a_time() {
    let mut settings = SettingsPage::new();
    assert_eq!(settings.auto_refresh_interval, 30);
    assert_eq!(settings.selected_theme, Theme::Nord);
    assert!(!settings.notifications_enabled);

    settings.update(SettingsMessage::AutoRefreshIntervalChanged(60));
    assert_eq!(settings.auto_refresh_interval, 60);
    assert_eq!(settings.selected_theme, Theme::Nord);

    settings.update(SettingsMessage::ThemeChanged(Theme::Dark));
    assert_eq!(settings.selected_theme, Theme::Dark);
    assert_eq!(settings.auto_refresh_interval, 60);

    settings.update(SettingsMessage::NotificationsToggled(true));
    assert!(settings.notifications_enabled);

    settings.update(SettingsMessage::ResetToDefaults);
    assert_eq!(settings, SettingsPage::new());
}

#[test]
fn routes_have_display_names() {
    assert_eq!(Route::Bitcoin.display_name(), "Bitcoin Prices");
    assert_eq!(Route::Settings.display_name(), "Settings");
    assert_eq!(Route::About.display_name(), "About");
    assert_eq!(Route::all(), vec![Route::Bitcoin, Route::Settings, Route::About]);
    assert_eq!(Route::default(), Route::Bitcoin);
}

#[test]
fn theme_labels() {
    assert_eq!(Theme::Light.label(), "Light");
    assert_eq!(Theme::Dark.label(), "Dark");
    assert_eq!(Theme::Nord.label(), "Nord");
}

#[test]
fn view_carriers_hold_their_data() {
    assert_eq!(AboutView::new(), AboutView);
    let nav = Navigation::new(Route::Settings);
    assert_eq!(nav.current_route, Route::Settings);
    let sv = SettingsView::new(45, &Theme::Light, true);
    assert_eq!(sv.auto_refresh_interval, 45);
    assert_eq!(sv.selected_theme, Theme::Light);
    assert!(sv.notifications_enabled);
}

#[test]
fn default_app_matches_a_fresh_one() {
    let app = App::default();
    assert_eq!(app.current_route, Route::Bitcoin);
    assert_eq!(app.settings_page, SettingsPage::new());
    assert_eq!(app.bitcoin_page.quotes().len(), 45);
    assert_eq!(app.theme(), Theme::Nord);
}

#[test]
fn about_page_update_is_inert() {
    let mut about = AboutPage::new();
    about.update(AboutMessage::Placeholder);
    assert_eq!(about, AboutPage);
}
