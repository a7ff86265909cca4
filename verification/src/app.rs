//! The application root: the current route and the three pages, with one
//! update function that dispatches each message to the page it belongs to.

use vstd::prelude::*;

use crate::about_page::AboutPage;
use crate::bitcoin_page::{step, BitcoinPage, FetchPlan, plan_matches, initial_model, EventModel};
use crate::country::is_catalog;
use crate::message::Message;
use crate::route::Route;
use crate::settings_page::{spec_default_settings, spec_settings_update, SettingsPage, Theme};

verus! {

/// Main application state.
pub struct App {
    /// Current active route.
    pub current_route: Route,
    /// Price page state.
    pub bitcoin_page: BitcoinPage,
    /// Settings page state.
    pub settings_page: SettingsPage,
    /// About page state.
    pub about_page: AboutPage,
}

impl Default for App {
    /// The startup state, without the work its first cycle would start.
    fn default() -> (r: Self)
        ensures
            r.inv(),
            r.current_route == Route::Bitcoin,
            is_catalog(r.bitcoin_page@.catalog),
            r.settings_page == spec_default_settings(),
            r.about_page == AboutPage,
    {
        let (app, _) = App::new();
        app
    }
}

impl App {
    /// Internal validity of the pages.
    pub open spec fn inv(&self) -> bool {
        self.bitcoin_page.inv()
    }

    /// The theme to render with.
    pub fn theme(&self) -> (r: Theme)
        ensures
            r == Theme::Nord,
    {
        // In the future, this could be dynamic based on settings.
        Theme::Nord
    }

    /// Creates the application in its startup state — price page over the
    /// fixed catalog, default settings, price route — and starts the price
    /// page's first cycle.
    pub fn new() -> (r: (App, FetchPlan))
        ensures
            r.0.inv(),
            r.0.current_route == Route::Bitcoin,
            is_catalog(r.0.bitcoin_page@.catalog),
            r.0.bitcoin_page@ == step(
                initial_model(r.0.bitcoin_page@.catalog),
                EventModel::Trigger,
            ),
            plan_matches(r.1, r.0.bitcoin_page@.catalog, r.0.bitcoin_page@.cycle),
            r.0.settings_page == spec_default_settings(),
            r.0.about_page == AboutPage,
    {
        let (bitcoin_page, plan) = BitcoinPage::new();
        let app = App {
            current_route: Route::Bitcoin,
            bitcoin_page,
            settings_page: SettingsPage::new(),
            about_page: AboutPage::new(),
        };
        (app, plan)
    }

    /// Handles one application-level message: navigation switches the
    /// route, and every other message goes to its page, whose state alone
    /// changes. Only a price-page trigger returns work to start.
    pub fn update(&mut self, message: Message) -> (plan: Option<FetchPlan>)
        requires
            old(self).inv(),
            match message {
                Message::Bitcoin(m) => m@ is Trigger ==> old(self).bitcoin_page@.cycle
                    < u64::MAX,
                _ => true,
            },
        ensures
            final(self).inv(),
            match message {
                Message::Navigate(route) => {
                    &&& final(self).current_route == route
                    &&& final(self).bitcoin_page@ == old(self).bitcoin_page@
                    &&& final(self).settings_page == old(self).settings_page
                    &&& final(self).about_page == old(self).about_page
                    &&& plan is None
                },
                Message::Bitcoin(m) => {
                    &&& final(self).bitcoin_page@ == step(old(self).bitcoin_page@, m@)
                    &&& final(self).current_route == old(self).current_route
                    &&& final(self).settings_page == old(self).settings_page
                    &&& final(self).about_page == old(self).about_page
                    &&& match m@ {
                        EventModel::Trigger => plan matches Some(p) && plan_matches(
                            p,
                            old(self).bitcoin_page@.catalog,
                            final(self).bitcoin_page@.cycle,
                        ),
                        _ => plan is None,
                    }
                },
                Message::Settings(m) => {
                    &&& final(self).settings_page == spec_settings_update(
                        old(self).settings_page,
                        m,
                    )
                    &&& final(self).current_route == old(self).current_route
                    &&& final(self).bitcoin_page@ == old(self).bitcoin_page@
                    &&& final(self).about_page == old(self).about_page
                    &&& plan is None
                },
                Message::About(_) => {
                    &&& final(self).current_route == old(self).current_route
                    &&& final(self).bitcoin_page@ == old(self).bitcoin_page@
                    &&& final(self).settings_page == old(self).settings_page
                    &&& final(self).about_page == old(self).about_page
                    &&& plan is None
                },
            },
    {
        match message {
            Message::Navigate(route) => {
                self.current_route = route;
                None
            },
            Message::Bitcoin(bitcoin_msg) => self.bitcoin_page.update(bitcoin_msg),
            Message::Settings(settings_msg) => {
                self.settings_page.update(settings_msg);
                None
            },
            Message::About(about_msg) => {
                self.about_page.update(about_msg);
                None
            },
        }
    }
}

} // verus!
