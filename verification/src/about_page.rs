//! The about page: static information, no state.

use vstd::prelude::*;

use crate::message::AboutMessage;

verus! {

/// About page state (it has none).
#[derive(Debug, Clone, Copy, PartialEq, Eq, Structural, Default)]
pub struct AboutPage;

impl AboutPage {
    /// Creates a new about page.
    pub fn new() -> (r: Self)
        ensures
            r == AboutPage,
    {
        AboutPage
    }

    /// Applies an about-page message; there is nothing to change.
    pub fn update(&mut self, _message: AboutMessage)
        ensures
            *final(self) == *old(self),
    {
    }
}

} // verus!
