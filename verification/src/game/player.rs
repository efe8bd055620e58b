use vstd::prelude::*;
use crate::util::error::InternalError;
use crate::game::faction::FactionID;
use crate::game::game::game::GameID;
use crate::game::lobby::LobbyID;
use crate::game::game::game::GAME_START_WALLET;

verus! {

#[derive(Debug, Clone, Copy, PartialEq, Eq, Hash, Structural)]
pub struct PlayerID(pub u128);

#[derive(Debug, Clone)]
pub struct Player {
    pub id: PlayerID,
    pub username: String,
    pub game: Option<GameID>,
    pub lobby: Option<LobbyID>,
    pub faction: Option<FactionID>,
    pub ready: bool,
    pub wallet: usize,
    pub is_connected: bool,
}

#[derive(Debug, Clone)]
pub struct PlayerUpdateData {
    pub username: String,
    pub faction_id: Option<FactionID>,
    pub is_ready: bool,
}

#[derive(Debug, Clone, Copy)]
pub struct PlayerMoneyTransferRequest {
    pub amount: usize,
}

/// `p` is `q` with only its wallet possibly changed.
pub open spec fn same_but_wallet(p: Player, q: Player) -> bool {
    &&& p.id == q.id
    &&& p.username == q.username
    &&& p.game == q.game
    &&& p.lobby == q.lobby
    &&& p.faction == q.faction
    &&& p.ready == q.ready
    &&& p.is_connected == q.is_connected
}

impl Player {
    /// Takes `amount` from the wallet; a player can never spend more money
    /// than it holds.
    pub fn spend(&mut self, amount: usize) -> (r: Result<(), InternalError>)
        ensures
            same_but_wallet(*final(self), *old(self)),
            r is Ok <==> amount <= old(self).wallet,
            r is Ok ==> final(self).wallet == old(self).wallet - amount,
            r matches Err(e) ==> e is NotEnoughMoney && final(self).wallet == old(self).wallet,
    {
        if amount > self.wallet {
            return Err(InternalError::NotEnoughMoney);
        }
        self.wallet = self.wallet - amount;
        Ok(())
    }

    /// Gives `amount` of this player's money to `other`, a member of the same
    /// faction. Players of different factions, or a wallet short of the
    /// amount, are a conflict and move no money.
    pub fn transfer_money(&mut self, other: &mut Player, amount: usize) -> (r: Result<(), InternalError>)
        requires
            old(self).faction == old(other).faction && amount <= old(self).wallet ==>
                old(other).wallet + amount <= usize::MAX,
        ensures
            same_but_wallet(*final(self), *old(self)),
            same_but_wallet(*final(other), *old(other)),
            r is Ok <==> (old(self).faction == old(other).faction && amount <= old(self).wallet),
            r is Ok ==> final(self).wallet == old(self).wallet - amount
                && final(other).wallet == old(other).wallet + amount,
            r matches Err(e) ==> e is Conflict && final(self).wallet == old(self).wallet
                && final(other).wallet == old(other).wallet,
            final(self).wallet + final(other).wallet == old(self).wallet + old(other).wallet,
    {
        if self.faction != other.faction {
            return Err(InternalError::Conflict);
        }
        if self.wallet < amount {
            return Err(InternalError::Conflict);
        }
        other.wallet = other.wallet + amount;
        self.wallet = self.wallet - amount;
        Ok(())
    }
}

impl Player {
    /// A player leaves only a game it plays in; any other request is
    /// answered as for a lobby it is not in.
    pub fn check_in_game(&self, game: GameID) -> (r: Result<(), InternalError>)
        ensures
            r is Ok <==> self.game == Some(game),
            r matches Err(e) ==> e is NotInLobby,
    {
        match self.game {
            Some(g) => {
                if g == game {
                    Ok(())
                } else {
                    Err(InternalError::NotInLobby)
                }
            },
            None => Err(InternalError::NotInLobby),
        }
    }

    /// Takes the player out of its lobby or game: no name, faction, lobby
    /// or game, and not ready.
    pub fn reset(&mut self)
        ensures
            final(self).username@ == Seq::<char>::empty(),
            final(self).faction is None,
            final(self).ready == false,
            final(self).lobby is None,
            final(self).game is None,
            final(self).id == old(self).id,
            final(self).wallet == old(self).wallet,
            final(self).is_connected == old(self).is_connected,
    {
        self.username = String::new();
        self.faction = None;
        self.ready = false;
        self.lobby = None;
        self.game = None;
    }

    /// Sets the name, faction and readiness the player asked for.
    /// `username_taken` tells whether another player of the lobby bears the
    /// requested name; it matters only for a new, non-empty name, which is
    /// then refused and the player left as it was.
    pub fn update_profile(&mut self, data: PlayerUpdateData, username_taken: bool) -> (r: Result<(), InternalError>)
        ensures
            r is Err <==> (data.username@.len() > 0 && data.username@ != old(self).username@ && username_taken),
            r matches Err(e) ==> e is PlayerUsernameAlreadyTaken && *final(self) == *old(self),
            r is Ok ==> *final(self) == (Player {
                username: data.username,
                faction: data.faction_id,
                ready: data.is_ready,
                ..*old(self)
            }),
    {
        if !data.username.as_str().is_empty() && data.username != self.username && username_taken {
            return Err(InternalError::PlayerUsernameAlreadyTaken);
        }
        self.username = data.username;
        self.faction = data.faction_id;
        self.ready = data.is_ready;
        Ok(())
    }
}

/// Fills the wallet of every player with the money a game starts with.
pub fn init_player_wallets(players: &mut Vec<Player>)
    ensures
        final(players)@.len() == old(players)@.len(),
        forall|i: int| 0 <= i < final(players)@.len() ==> (#[trigger] final(players)@[i]).wallet == GAME_START_WALLET
            && same_but_wallet(final(players)@[i], old(players)@[i]),
{
    let ghost start = players@;
    let mut i: usize = 0;
    while i < players.len()
        invariant
            i <= players@.len(),
            players@.len() == start.len(),
            forall|k: int| 0 <= k < i ==> (#[trigger] players@[k]).wallet == GAME_START_WALLET
                && same_but_wallet(players@[k], start[k]),
            forall|k: int| i <= k < players@.len() ==> #[trigger] players@[k] == start[k],
        decreases players@.len() - i,
    {
        let mut player = players.remove(i);
        player.wallet = GAME_START_WALLET;
        players.insert(i, player);
        i = i + 1;
    }
}

} // verus!
