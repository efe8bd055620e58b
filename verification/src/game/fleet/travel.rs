use vstd::prelude::*;
use crate::game::faction::FactionID;
use crate::ws::protocol::Action;

verus! {

/// What happens when a fleet reaches the system it travelled to.
#[derive(Debug, Clone, Copy, PartialEq, Eq, Structural)]
pub enum ArrivalKind {
    /// The fleet parks in a system of its own faction.
    Arrived,
    /// The fleet meets the fleets defending an enemy system.
    Battle { defender_faction: FactionID },
    /// The fleet settles a system that nobody owns.
    Colonize,
    /// The fleet starts to conquer an undefended enemy system.
    Conquer,
    /// The fleet joins a battle already raging in the system.
    JoinedBattle,
}

/// The outcome of an arrival. `owner_faction` is `None` for a system nobody
/// owns and `Some(f)` for one whose owner has faction `f`; `player_faction`
/// is the faction of the fleet's owner.
pub open spec fn spec_arrival(
    player_faction: Option<FactionID>,
    owner_faction: Option<Option<FactionID>>,
    current_battles: i64,
    orbiting_fleets: usize,
) -> ArrivalKind {
    match owner_faction {
        None => ArrivalKind::Colonize,
        Some(f) => if current_battles > 0 {
            ArrivalKind::JoinedBattle
        } else if f == player_faction {
            ArrivalKind::Arrived
        } else if orbiting_fleets == 0 {
            ArrivalKind::Conquer
        } else {
            ArrivalKind::Battle { defender_faction: f->0 }
        },
    }
}

/// What an arrival leads to, outcome by outcome: a fleet never conquers or
/// fights over a system of its own faction (with no battle raging there, it
/// parks); it conquers only an enemy system with no fleet in orbit, fights
/// only the owner's faction over an enemy system with fleets in orbit, joins
/// a battle exactly when one rages in an owned system, and colonizes exactly
/// the systems nobody owns.
pub proof fn lemma_arrival(
    player_faction: Option<FactionID>,
    owner_faction: Option<Option<FactionID>>,
    current_battles: i64,
    orbiting_fleets: usize,
)
    requires
        owner_faction matches Some(f) ==> (current_battles <= 0 && f != player_faction && orbiting_fleets > 0
            ==> f is Some),
    ensures
        ({
            let outcome = spec_arrival(player_faction, owner_faction, current_battles, orbiting_fleets);
            &&& owner_faction == Some(player_faction) && current_battles <= 0 ==> outcome == ArrivalKind::Arrived
            &&& outcome == ArrivalKind::Arrived ==> owner_faction == Some(player_faction) && current_battles <= 0
            &&& outcome == ArrivalKind::Conquer <==> (owner_faction matches Some(f) && f != player_faction
                && current_battles <= 0 && orbiting_fleets == 0)
            &&& outcome matches ArrivalKind::Battle { defender_faction } ==> owner_faction == Some(Some(defender_faction))
                && Some(defender_faction) != player_faction && current_battles <= 0 && orbiting_fleets > 0
            &&& outcome == ArrivalKind::JoinedBattle <==> (owner_faction is Some && current_battles > 0)
            &&& outcome == ArrivalKind::Colonize <==> owner_faction is None
        }),
{
}

/// Decides what a fleet does on arrival: it joins a raging battle whoever
/// fights it, parks beside its own faction, conquers an undefended enemy
/// system, fights the fleets orbiting a defended one, and colonizes a system
/// nobody owns. A defended system whose owner has no faction cannot be
/// fought over, so it is left out of the inputs.
pub fn resolve_arrival(
    player_faction: Option<FactionID>,
    owner_faction: Option<Option<FactionID>>,
    current_battles: i64,
    orbiting_fleets: usize,
) -> (outcome: ArrivalKind)
    requires
        owner_faction matches Some(f) ==> (current_battles <= 0 && f != player_faction && orbiting_fleets > 0
            ==> f is Some),
    ensures
        outcome == spec_arrival(player_faction, owner_faction, current_battles, orbiting_fleets),
        owner_faction == Some(player_faction) && current_battles <= 0 ==> outcome == ArrivalKind::Arrived,
        outcome == ArrivalKind::Conquer ==> owner_faction != Some(player_faction) && orbiting_fleets == 0,
{
    proof {
        lemma_arrival(player_faction, owner_faction, current_battles, orbiting_fleets);
    }
    match owner_faction {
        None => ArrivalKind::Colonize,
        Some(f) => {
            if current_battles > 0 {
                ArrivalKind::JoinedBattle
            } else if f == player_faction {
                ArrivalKind::Arrived
            } else if orbiting_fleets == 0 {
                ArrivalKind::Conquer
            } else {
                ArrivalKind::Battle { defender_faction: f.unwrap() }
            }
        },
    }
}

impl ArrivalKind {
    /// The message announcing the arrival to the players, for a fleet that
    /// parks or joins a battle. The other outcomes are announced by the
    /// battle or conquest they start.
    pub fn announcement(&self) -> (a: Option<Action>)
        ensures
            a == match *self {
                ArrivalKind::Arrived => Some(Action::FleetArrived),
                ArrivalKind::JoinedBattle => Some(Action::FleetJoinedBattle),
                _ => None::<Action>,
            },
    {
        match self {
            ArrivalKind::Arrived => Some(Action::FleetArrived),
            ArrivalKind::JoinedBattle => Some(Action::FleetJoinedBattle),
            _ => None,
        }
    }
}

} // verus!
