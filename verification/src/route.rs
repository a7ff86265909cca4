//! Navigation routes between the application's pages.

use vstd::prelude::*;

verus! {

/// The pages a user can navigate to.
#[derive(Debug, Clone, Copy, PartialEq, Eq, Structural)]
pub enum Route {
    /// Price monitoring page.
    Bitcoin,
    /// Application settings page.
    Settings,
    /// About page.
    About,
}

impl Default for Route {
    /// The page shown at startup.
    fn default() -> (r: Self)
        ensures
            r == Route::Bitcoin,
    {
        Route::Bitcoin
    }
}

impl Route {
    /// The name under which this route is displayed.
    pub open spec fn spec_display_name(self) -> Seq<char> {
        match self {
            Route::Bitcoin => "Bitcoin Prices"@,
            Route::Settings => "Settings"@,
            Route::About => "About"@,
        }
    }

    /// Get the display name for the route.
    pub fn display_name(&self) -> (r: &'static str)
        ensures
            r@ == self.spec_display_name(),
    {
        match self {
            Route::Bitcoin => "Bitcoin Prices",
            Route::Settings => "Settings",
            Route::About => "About",
        }
    }

    /// Get all available routes.
    pub fn all() -> (r: Vec<Route>)
        ensures
            r@ == seq![Route::Bitcoin, Route::Settings, Route::About],
    {
        let r = vec![Route::Bitcoin, Route::Settings, Route::About];
        proof {
            assert(r@ =~= seq![Route::Bitcoin, Route::Settings, Route::About]);
        }
        r
    }
}

} // verus!
