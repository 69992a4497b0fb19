//! How the overlay lays its sources out.

use vstd::prelude::*;

verus! {

/// How the overlay presents its sources.
#[derive(Clone, Copy, Debug, PartialEq, Eq, Structural)]
pub enum View {
    /// Centred rofi-like card with tabs and search (portal picker).
    Card,
    /// macOS-style single horizontal row of tiles (Alt-Tab).
    Strip,
    /// Full-screen mission-control exposé grid.
    Grid,
}

impl Default for View {
    fn default() -> (r: Self)
        ensures
            r == View::Card,
    {
        View::Card
    }
}

} // verus!
