use vstd::prelude::*;
use crate::util::error::InternalError;
use crate::game::game::option::{GameOptionSpeed, GameOptionMapSize};
use crate::game::player::{Player, PlayerID};

verus! {

#[derive(Debug, Clone, Copy, PartialEq, Eq, Hash, Structural)]
pub struct LobbyID(pub u128);

#[derive(Debug, Clone, Copy, PartialEq, Eq, Structural)]
pub struct Lobby {
    pub id: LobbyID,
    pub owner: PlayerID,
    pub game_speed: GameOptionSpeed,
    pub map_size: GameOptionMapSize,
}

#[derive(Debug, Clone, Copy, PartialEq, Eq, Structural)]
pub struct LobbyOptionsPatch {
    pub map_size: Option<GameOptionMapSize>,
    pub game_speed: Option<GameOptionSpeed>,
}

/// What becomes of a lobby that a player leaves.
#[derive(Debug, Clone, Copy, PartialEq, Eq, Structural)]
pub enum LobbyDeparture {
    /// Nobody is left: the lobby is removed.
    Clear,
    /// The owner left: the lobby passes to a remaining player.
    NewOwner,
    /// Another player left: the lobby stays as it is.
    Keep,
}

/// A player creates or joins a lobby only while it is in none.
pub fn check_enter_lobby(player: &Player) -> (r: Result<(), InternalError>)
    ensures
        r is Ok <==> player.lobby is None,
        r matches Err(e) ==> e is AlreadyInLobby,
{
    if player.lobby.is_some() {
        return Err(InternalError::AlreadyInLobby);
    }
    Ok(())
}

impl Lobby {
    /// A player leaves only a lobby it is in.
    pub fn check_leave(&self, player: &Player) -> (r: Result<(), InternalError>)
        ensures
            r is Ok <==> player.lobby == Some(self.id),
            r matches Err(e) ==> e is NotInLobby,
    {
        match player.lobby {
            Some(l) => {
                if l == self.id {
                    Ok(())
                } else {
                    Err(InternalError::NotInLobby)
                }
            },
            None => Err(InternalError::NotInLobby),
        }
    }

    /// What becomes of the lobby when `leaving` goes, given whether anyone
    /// is left: an empty lobby is removed, one its owner left passes to
    /// another player, any other stays as it is.
    pub fn departure(&self, leaving: PlayerID, is_empty: bool) -> (d: LobbyDeparture)
        ensures
            d == (if is_empty {
                LobbyDeparture::Clear
            } else if leaving == self.owner {
                LobbyDeparture::NewOwner
            } else {
                LobbyDeparture::Keep
            }),
    {
        if is_empty {
            LobbyDeparture::Clear
        } else if leaving == self.owner {
            LobbyDeparture::NewOwner
        } else {
            LobbyDeparture::Keep
        }
    }

    /// A new lobby owned by `owner`, with a medium speed and map size.
    pub fn new(id: LobbyID, owner: PlayerID) -> (l: Lobby)
        ensures
            l == (Lobby { id, owner, game_speed: GameOptionSpeed::Medium, map_size: GameOptionMapSize::Medium }),
    {
        Lobby { id, owner, game_speed: GameOptionSpeed::Medium, map_size: GameOptionMapSize::Medium }
    }

    /// Only the owner changes the options of a lobby. An option left out of
    /// the patch goes back to medium.
    pub fn update_options(&mut self, by: PlayerID, patch: LobbyOptionsPatch) -> (r: Result<(), InternalError>)
        ensures
            r is Ok <==> by == old(self).owner,
            r matches Err(e) ==> e is AccessDenied && *final(self) == *old(self),
            r is Ok ==> *final(self) == (Lobby {
                game_speed: match patch.game_speed { Some(s) => s, None => GameOptionSpeed::Medium },
                map_size: match patch.map_size { Some(m) => m, None => GameOptionMapSize::Medium },
                ..*old(self)
            }),
    {
        if self.owner != by {
            return Err(InternalError::AccessDenied);
        }
        self.game_speed = match patch.game_speed {
            Some(s) => s,
            None => GameOptionSpeed::Medium,
        };
        self.map_size = match patch.map_size {
            Some(m) => m,
            None => GameOptionMapSize::Medium,
        };
        Ok(())
    }

    /// Only the owner launches the game of a lobby.
    pub fn check_launch(&self, by: PlayerID) -> (r: Result<(), InternalError>)
        ensures
            r is Ok <==> by == self.owner,
            r matches Err(e) ==> e is AccessDenied,
    {
        if self.owner != by {
            return Err(InternalError::AccessDenied);
        }
        Ok(())
    }

    /// When its owner leaves, a lobby passes to the first of its remaining players.
    pub fn update_owner(&mut self, players: &Vec<Player>)
        requires
            players.len() > 0,
        ensures
            *final(self) == (Lobby { owner: players@[0].id, ..*old(self) }),
    {
        self.owner = players[0].id;
    }
}

} // verus!
