use vstd::prelude::*;
use crate::game::game::option::{GameOptionSpeed, GameOptionMapSize};
use crate::game::lobby::Lobby;

verus! {

/// The money every player starts a game with.
pub const GAME_START_WALLET: usize = 200;

/// The victory points a faction earns each minute for each victory system it holds.
pub const VICTORY_POINTS_PER_MINUTE: i32 = 10;

#[derive(Debug, Clone, Copy, PartialEq, Eq, Hash, Structural)]
pub struct GameID(pub u128);

#[derive(Debug, Clone, Copy, PartialEq, Eq, Structural)]
pub struct Game {
    pub id: GameID,
    pub victory_points: i32,
    pub game_speed: GameOptionSpeed,
    pub map_size: GameOptionMapSize,
}

impl Game {
    /// The game a lobby launches: no victory point yet, and the lobby's
    /// speed and map size.
    pub fn from_lobby(id: GameID, lobby: &Lobby) -> (g: Game)
        ensures
            g == (Game { id, victory_points: 0, game_speed: lobby.game_speed, map_size: lobby.map_size }),
    {
        Game { id, victory_points: 0, game_speed: lobby.game_speed, map_size: lobby.map_size }
    }
}

/// The victory points a faction needs to win: a hundred per victory system
/// of the map.
pub fn victory_points_goal(nb_victory_systems: u32) -> (goal: i32)
    requires
        nb_victory_systems * 100 <= i32::MAX,
    ensures
        goal == nb_victory_systems * 100,
{
    nb_victory_systems as i32 * 100
}

} // verus!
