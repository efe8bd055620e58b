use vstd::prelude::*;
use crate::util::error::InternalError;
use crate::util::time::Time;
use crate::game::fleet::squadron::FleetSquadron;
use crate::game::player::{Player, PlayerID};
use crate::game::ship::model::spec_ship_model;
use crate::game::system::system::SystemID;

verus! {

#[derive(Debug, Clone, Copy, PartialEq, Eq, Hash, Structural)]
pub struct FleetID(pub u128);

#[derive(Debug, Clone)]
pub struct Fleet {
    pub id: FleetID,
    pub system: SystemID,
    pub destination_system: Option<SystemID>,
    pub destination_arrival_date: Option<Time>,
    pub player: PlayerID,
    pub squadrons: Vec<FleetSquadron>,
    pub is_destroyed: bool,
}

/// Some squadron of `s` still holds ships.
pub open spec fn spec_has_ships(s: Seq<FleetSquadron>) -> bool {
    exists|i: int| 0 <= i < s.len() && s[i].quantity > 0
}

/// The strength of squadrons: each ship counts for the strength of its model.
pub open spec fn spec_strength(s: Seq<FleetSquadron>) -> int
    decreases s.len(),
{
    if s.len() == 0 {
        0
    } else {
        spec_strength(s.drop_last()) + spec_ship_model(s.last().category).strength * s.last().quantity
    }
}

/// The squadrons of `s` that still hold ships, in order.
pub open spec fn spec_live_squadrons(s: Seq<FleetSquadron>) -> Seq<FleetSquadron>
    decreases s.len(),
{
    if s.len() == 0 {
        Seq::empty()
    } else {
        spec_live_squadrons(s.drop_last()) + if s.last().quantity > 0 {
            seq![s.last()]
        } else {
            Seq::empty()
        }
    }
}

proof fn lemma_live_squadrons_alive(s: Seq<FleetSquadron>)
    ensures
        forall|k: int| 0 <= k < spec_live_squadrons(s).len() ==> (#[trigger] spec_live_squadrons(s)[k]).quantity > 0,
    decreases s.len(),
{
    if s.len() > 0 {
        lemma_live_squadrons_alive(s.drop_last());
        let prev = spec_live_squadrons(s.drop_last());
        assert forall|k: int| 0 <= k < spec_live_squadrons(s).len() implies (#[trigger] spec_live_squadrons(s)[k]).quantity
            > 0 by {
            if k < prev.len() {
                assert(spec_live_squadrons(s)[k] == prev[k]);
            }
        }
    }
}

proof fn lemma_live_squadrons_empty(s: Seq<FleetSquadron>)
    ensures
        (spec_live_squadrons(s).len() == 0) <==> !spec_has_ships(s),
    decreases s.len(),
{
    if s.len() > 0 {
        lemma_live_squadrons_empty(s.drop_last());
        if spec_has_ships(s.drop_last()) {
            let i = choose|i: int| 0 <= i < s.drop_last().len() && s.drop_last()[i].quantity > 0;
            assert(s[i].quantity > 0);
        }
        if spec_has_ships(s) && s.last().quantity == 0 {
            let i = choose|i: int| 0 <= i < s.len() && s[i].quantity > 0;
            assert(s.drop_last()[i].quantity > 0);
        }
    }
}

proof fn lemma_strength_prefix(s: Seq<FleetSquadron>, i: int)
    requires
        0 <= i <= s.len(),
    ensures
        0 <= spec_strength(s.take(i)) <= spec_strength(s),
    decreases s.len(),
{
    if s.len() > 0 {
        if i == s.len() {
            assert(s.take(i) =~= s);
            lemma_strength_prefix(s.drop_last(), i - 1);
            assert(s.drop_last().take(i - 1) =~= s.take(i).drop_last());
        } else {
            lemma_strength_prefix(s.drop_last(), i);
            assert(s.drop_last().take(i) =~= s.take(i));
        }
    }
}

impl Fleet {
    /// The fleet has arrived in `system`: it stands there, bound nowhere.
    pub fn change_system(&mut self, system: SystemID)
        ensures
            final(self).system == system,
            final(self).destination_system is None,
            final(self).destination_arrival_date is None,
            final(self).id == old(self).id,
            final(self).player == old(self).player,
            final(self).squadrons@ == old(self).squadrons@,
            final(self).is_destroyed == old(self).is_destroyed,
    {
        self.system = system;
        self.destination_system = None;
        self.destination_arrival_date = None;
    }

    /// A fleet fights as long as one of its squadrons holds ships.
    pub fn can_fight(&self) -> (b: bool)
        ensures
            b == spec_has_ships(self.squadrons@),
    {
        if self.squadrons.len() == 0 {
            return false;
        }
        let mut i: usize = 0;
        while i < self.squadrons.len()
            invariant
                i <= self.squadrons.len(),
                forall|j: int| 0 <= j < i ==> self.squadrons@[j].quantity == 0,
            decreases self.squadrons.len() - i,
        {
            if self.squadrons[i].quantity > 0 {
                return true;
            }
            i = i + 1;
        }
        false
    }

    /// After a battle: the squadrons left without ships are taken out of the
    /// fleet, and a fleet left without squadrons is destroyed. Tells whether
    /// the fleet is destroyed.
    pub fn clear_losses(&mut self) -> (destroyed: bool)
        ensures
            final(self).squadrons@ == spec_live_squadrons(old(self).squadrons@),
            final(self).squadrons@.len() == 0 <==> !spec_has_ships(old(self).squadrons@),
            forall|k: int| 0 <= k < final(self).squadrons@.len() ==> (#[trigger] final(self).squadrons@[k]).quantity > 0,
            final(self).is_destroyed == (old(self).is_destroyed || !spec_has_ships(old(self).squadrons@)),
            destroyed == final(self).is_destroyed,
            final(self).id == old(self).id,
            final(self).system == old(self).system,
            final(self).destination_system == old(self).destination_system,
            final(self).destination_arrival_date == old(self).destination_arrival_date,
            final(self).player == old(self).player,
    {
        let ghost all = self.squadrons@;
        let mut kept: Vec<FleetSquadron> = Vec::new();
        let mut i: usize = 0;
        while i < self.squadrons.len()
            invariant
                self.squadrons@ == all,
                i <= all.len(),
                kept@ == spec_live_squadrons(all.take(i as int)),
            decreases all.len() - i,
        {
            proof {
                assert(all.take(i + 1).drop_last() =~= all.take(i as int));
            }
            if self.squadrons[i].quantity > 0 {
                kept.push(self.squadrons[i]);
            }
            proof {
                assert(kept@ =~= spec_live_squadrons(all.take(i + 1)));
            }
            i = i + 1;
        }
        assert(all.take(i as int) =~= all);
        proof {
            lemma_live_squadrons_empty(all);
            lemma_live_squadrons_alive(all);
        }
        self.squadrons = kept;
        if self.squadrons.len() == 0 {
            self.is_destroyed = true;
        }
        self.is_destroyed
    }

    pub fn is_travelling(&self) -> (b: bool)
        ensures
            b == (self.destination_system is Some),
    {
        self.destination_system.is_some()
    }

    /// The strength of the fleet, the sum over its ships of their model's strength.
    pub fn get_strength(&self) -> (s: u32)
        requires
            spec_strength(self.squadrons@) <= u32::MAX,
        ensures
            s == spec_strength(self.squadrons@),
    {
        let mut strength: u32 = 0;
        let mut i: usize = 0;
        while i < self.squadrons.len()
            invariant
                i <= self.squadrons.len(),
                strength == spec_strength(self.squadrons@.take(i as int)),
                spec_strength(self.squadrons@) <= u32::MAX,
            decreases self.squadrons.len() - i,
        {
            let squadron = self.squadrons[i];
            proof {
                lemma_strength_prefix(self.squadrons@, i + 1);
                assert(self.squadrons@.take(i + 1).drop_last() =~= self.squadrons@.take(i as int));
            }
            strength = strength + squadron.category.to_data().strength as u32 * squadron.quantity as u32;
            i = i + 1;
        }
        assert(self.squadrons@.take(i as int) =~= self.squadrons@);
        strength
    }

    /// A fleet can set sail if it belongs to `player`, is not already on a
    /// journey and holds ships, and if at most one battle rages in its
    /// system; the first condition that fails gives the error.
    pub fn check_travel(&self, player: PlayerID, current_battles: i16) -> (r: Result<(), InternalError>)
        ensures
            self.player != player ==> (r matches Err(e) && e is AccessDenied),
            self.player == player && self.destination_system is Some ==> (r matches Err(e) && e is FleetAlreadyTravelling),
            self.player == player && self.destination_system is None && !spec_has_ships(self.squadrons@) ==> (r matches Err(
                e,
            ) && e is FleetEmpty),
            self.player == player && self.destination_system is None && spec_has_ships(self.squadrons@)
                ==> (if current_battles > 1 { r matches Err(e) && e is Conflict } else { r is Ok }),
    {
        if self.player != player {
            return Err(InternalError::AccessDenied);
        }
        if self.destination_system.is_some() {
            return Err(InternalError::FleetAlreadyTravelling);
        }
        if !self.can_fight() {
            return Err(InternalError::FleetEmpty);
        }
        if current_battles > 1 {
            return Err(InternalError::Conflict);
        }
        Ok(())
    }

    /// Gives the fleet to the owner of the system where it stands, a member of
    /// the donor's faction. Every other case is a conflict and leaves the
    /// fleet as it was: a fleet the donor does not own, a system without an
    /// owner, a fleet standing elsewhere, an owner of another faction, or the
    /// donor itself. `receiver` is the owner of `system`, when it has one.
    pub fn donate(&mut self, donor: &Player, system: SystemID, receiver: &Option<Player>) -> (r: Result<(), InternalError>)
        ensures
            r is Ok <==> (old(self).player == donor.id && old(self).system == system && (receiver matches Some(other)
                && other.faction == donor.faction && other.id != donor.id)),
            r is Ok ==> final(self).player == receiver->0.id,
            r matches Err(e) ==> e is Conflict && final(self).player == old(self).player,
            final(self).id == old(self).id,
            final(self).system == old(self).system,
            final(self).squadrons@ == old(self).squadrons@,
            final(self).destination_system == old(self).destination_system,
            final(self).destination_arrival_date == old(self).destination_arrival_date,
            final(self).is_destroyed == old(self).is_destroyed,
    {
        if self.player != donor.id || receiver.is_none() || self.system != system {
            return Err(InternalError::Conflict);
        }
        let other = receiver.as_ref().unwrap();
        if other.faction != donor.faction || other.id == donor.id {
            return Err(InternalError::Conflict);
        }
        self.player = other.id;
        Ok(())
    }
}

impl Fleet {
    /// Only a player that owns both the fleet and the system where ships are
    /// taken from or put back may move ships between them; `system_owner` is
    /// the owner of that system, when it has one.
    pub fn check_assignment(&self, player: PlayerID, system_owner: Option<PlayerID>) -> (r: Result<(), InternalError>)
        ensures
            r is Ok <==> (system_owner == Some(player) && self.player == player),
            r matches Err(e) ==> e is AccessDenied,
    {
        if system_owner != Some(player) || self.player != player {
            return Err(InternalError::AccessDenied);
        }
        Ok(())
    }

    /// A new empty fleet of `player` in `system`, which only the owner of
    /// the system may create.
    pub fn create(id: FleetID, player: PlayerID, system: SystemID, system_owner: Option<PlayerID>) -> (r: Result<
        Fleet,
        InternalError,
    >)
        ensures
            system_owner != Some(player) ==> (r matches Err(e) && e is AccessDenied),
            system_owner == Some(player) ==> (r matches Ok(f) && f.id == id && f.player == player && f.system == system
                && f.destination_system is None && f.destination_arrival_date is None && f.squadrons@.len() == 0
                && !f.is_destroyed),
    {
        if system_owner != Some(player) {
            return Err(InternalError::AccessDenied);
        }
        Ok(
            Fleet {
                id,
                player,
                system,
                destination_system: None,
                destination_arrival_date: None,
                squadrons: Vec::new(),
                is_destroyed: false,
            },
        )
    }
}

/// The owners of some fleets, one per fleet, in order.
pub fn get_fleet_player_ids(fleets: &Vec<Fleet>) -> (ids: Vec<PlayerID>)
    ensures
        ids@.len() == fleets@.len(),
        forall|i: int| 0 <= i < fleets@.len() ==> ids@[i] == fleets@[i].player,
{
    let mut ids: Vec<PlayerID> = Vec::new();
    let mut i: usize = 0;
    while i < fleets.len()
        invariant
            i <= fleets.len(),
            ids@.len() == i,
            forall|j: int| 0 <= j < i ==> ids@[j] == fleets@[j].player,
        decreases fleets.len() - i,
    {
        ids.push(fleets[i].player);
        i = i + 1;
    }
    ids
}

} // verus!
