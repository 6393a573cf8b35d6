//! The settings window's destinations.

use vstd::prelude::*;

verus! {

/// A settings-window destination with a stable navigation order.
#[derive(Clone, Copy, Debug, PartialEq, Eq, Hash, Structural)]
pub enum Route {
    Overview,
    History,
    Replacements,
    Settings,
}

/// Every route, in navigation order.
pub const ROUTE_COUNT: usize = 4;

impl Route {
    /// The first route, where the window opens.
    pub fn default_route() -> (r: Route)
        ensures
            r == Route::Overview,
    {
        Route::Overview
    }

    /// Every route, in navigation order.
    pub fn all() -> (routes: [Route; 4])
        ensures
            routes@ == seq![Route::Overview, Route::History, Route::Replacements, Route::Settings],
    {
        [Route::Overview, Route::History, Route::Replacements, Route::Settings]
    }

    pub fn title(self) -> (s: &'static str)
        ensures
            s@ == match self {
                Route::Overview => "Overview"@,
                Route::History => "History"@,
                Route::Replacements => "Replacements"@,
                Route::Settings => "Settings"@,
            },
    {
        match self {
            Route::Overview => "Overview",
            Route::History => "History",
            Route::Replacements => "Replacements",
            Route::Settings => "Settings",
        }
    }

    pub fn slug(self) -> (s: &'static str)
        ensures
            s@ == match self {
                Route::Overview => "overview"@,
                Route::History => "history"@,
                Route::Replacements => "replacements"@,
                Route::Settings => "settings"@,
            },
    {
        match self {
            Route::Overview => "overview",
            Route::History => "history",
            Route::Replacements => "replacements",
            Route::Settings => "settings",
        }
    }

    pub fn navigation_id(self) -> (s: &'static str)
        ensures
            s@ == match self {
                Route::Overview => "nav-overview"@,
                Route::History => "nav-history"@,
                Route::Replacements => "nav-replacements"@,
                Route::Settings => "nav-settings"@,
            },
    {
        match self {
            Route::Overview => "nav-overview",
            Route::History => "nav-history",
            Route::Replacements => "nav-replacements",
            Route::Settings => "nav-settings",
        }
    }

    pub fn accessibility_label(self) -> (s: &'static str)
        ensures
            s@ == match self {
                Route::Overview => "Open Overview"@,
                Route::History => "Open History"@,
                Route::Replacements => "Open Replacements"@,
                Route::Settings => "Open Settings"@,
            },
    {
        match self {
            Route::Overview => "Open Overview",
            Route::History => "Open History",
            Route::Replacements => "Open Replacements",
            Route::Settings => "Open Settings",
        }
    }
}

/// The position of `route` in navigation order.
pub open spec fn spec_route_index(route: Route) -> nat {
    match route {
        Route::Overview => 0,
        Route::History => 1,
        Route::Replacements => 2,
        Route::Settings => 3,
    }
}

/// The position of `route` in navigation order, which indexes the window's
/// per-route state.
pub fn route_index(route: Route) -> (i: usize)
    ensures
        i == spec_route_index(route),
        i < ROUTE_COUNT,
{
    match route {
        Route::Overview => 0,
        Route::History => 1,
        Route::Replacements => 2,
        Route::Settings => 3,
    }
}

/// Each route has its own index, and navigation order lists each route at
/// its index.
pub proof fn lemma_route_index_is_navigation_order(a: Route, b: Route)
    ensures
        spec_route_index(a) == spec_route_index(b) ==> a == b,
        seq![Route::Overview, Route::History, Route::Replacements, Route::Settings][spec_route_index(a) as int] == a,
{
}

} // verus!
