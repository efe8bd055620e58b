//! Rules of the Kalaxia space strategy game: fleets and their squadrons,
//! battles and conquests, ship production, the economy of players and
//! factions, rankings and victory conditions.

pub mod util;
pub mod game;
pub mod ws;
