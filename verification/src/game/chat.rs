use vstd::prelude::*;
use crate::util::time::Time;
use crate::game::faction::FactionID;
use crate::game::player::{Player, PlayerID};
use crate::util::error::InternalError;

verus! {

#[derive(Debug, Clone, Copy, PartialEq, Eq, Hash, Structural)]
pub struct ChatMessageID(pub u128);

/// A message sent by a player to the other members of its faction.
#[derive(Debug, Clone)]
pub struct ChatMessage {
    pub id: ChatMessageID,
    pub author: PlayerID,
    pub faction: FactionID,
    pub content: String,
    pub created_at: Time,
}

#[derive(Debug, Clone)]
pub struct ChatMessageRequest {
    pub content: String,
}

impl ChatMessage {
    /// The message `player` sends to its faction; a player without a
    /// faction has nobody to write to.
    pub fn compose(id: ChatMessageID, player: &Player, request: ChatMessageRequest, created_at: Time) -> (r: Result<
        ChatMessage,
        InternalError,
    >)
        ensures
            player.faction is None ==> (r matches Err(e) && e is FactionUnknown),
            player.faction matches Some(f) ==> (r matches Ok(m) && m == (ChatMessage {
                id,
                author: player.id,
                faction: f,
                content: request.content,
                created_at,
            })),
    {
        match player.faction {
            None => Err(InternalError::FactionUnknown),
            Some(f) => Ok(ChatMessage { id, author: player.id, faction: f, content: request.content, created_at }),
        }
    }
}

} // verus!
