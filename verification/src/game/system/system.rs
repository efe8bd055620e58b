use vstd::prelude::*;
use crate::game::faction::FactionID;

verus! {

#[derive(Debug, Clone, Copy, PartialEq, Eq, Hash, Structural)]
pub struct SystemID(pub u128);

#[derive(Debug, Clone, Copy, PartialEq, Eq, Structural)]
pub enum SystemKind {
    BaseSystem,
    VictorySystem,
}

/// How many systems the players of a faction hold.
#[derive(Debug, Clone, Copy, PartialEq, Eq, Structural)]
pub struct SystemDominion {
    pub faction_id: FactionID,
    pub nb_systems: u32,
}

/// The code a kind is stored under.
pub open spec fn spec_kind_code(k: SystemKind) -> i16 {
    match k {
        SystemKind::BaseSystem => 1,
        SystemKind::VictorySystem => 2,
    }
}

/// The kind stored under a code; unknown codes stand for a base system.
pub open spec fn spec_kind_of_code(code: i16) -> SystemKind {
    if code == 2 {
        SystemKind::VictorySystem
    } else {
        SystemKind::BaseSystem
    }
}

impl SystemKind {
    pub fn to_code(self) -> (c: i16)
        ensures
            c == spec_kind_code(self),
    {
        match self {
            SystemKind::BaseSystem => 1,
            SystemKind::VictorySystem => 2,
        }
    }

    pub fn from_code(code: i16) -> (k: SystemKind)
        ensures
            k == spec_kind_of_code(code),
    {
        if code == 2 {
            SystemKind::VictorySystem
        } else {
            SystemKind::BaseSystem
        }
    }
}

/// Decoding a stored kind gives back the kind that was encoded.
pub proof fn lemma_system_kind_round_trip(k: SystemKind)
    ensures
        spec_kind_of_code(spec_kind_code(k)) == k,
{
}

} // verus!
