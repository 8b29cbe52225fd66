//! The games the launcher can be pointed at.

use vstd::prelude::*;

verus! {

/// A launchable game of the chat network.
#[derive(Debug, Clone, PartialEq, Eq, Structural)]
pub enum Game {
    LeagueOfLegends,
    Valorant,
}

impl Game {
    /// The name shown to the user.
    pub fn display_name(&self) -> (r: &'static str)
        ensures
            *self == Game::LeagueOfLegends ==> r@ == "League of Legends"@,
            *self == Game::Valorant ==> r@ == "VALORANT"@,
    {
        match self {
            Game::LeagueOfLegends => "League of Legends",
            Game::Valorant => "VALORANT",
        }
    }
}

} // verus!
