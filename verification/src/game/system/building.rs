use vstd::prelude::*;
use crate::util::error::InternalError;
use crate::util::time::{Time, is_calendar_time};
use crate::util::uuid::new_v4_u128;
use crate::game::player::{Player, PlayerID, same_but_wallet};
use crate::game::system::system::SystemID;

verus! {

#[derive(Debug, Clone, Copy, PartialEq, Eq, Hash, Structural)]
pub struct BuildingID(pub u128);

#[derive(Debug, Clone, Copy, PartialEq, Eq, Structural)]
pub enum BuildingStatus {
    Constructing,
    Operational,
}

#[derive(Debug, Clone, Copy, PartialEq, Eq, Structural)]
pub enum BuildingKind {
    Mine,
    Portal,
    Shipyard,
}

/// What a kind of building costs and how many seconds it takes to build.
#[derive(Debug, Clone, Copy, PartialEq, Eq, Structural)]
pub struct BuildingData {
    pub kind: BuildingKind,
    pub cost: u16,
    pub construction_time: u16,
}

#[derive(Debug, Clone, Copy, PartialEq, Eq, Structural)]
pub struct BuildingRequest {
    pub kind: BuildingKind,
}

#[derive(Debug, Clone, Copy, PartialEq, Eq, Structural)]
pub struct Building {
    pub id: BuildingID,
    pub system: SystemID,
    pub kind: BuildingKind,
    pub status: BuildingStatus,
    pub created_at: Time,
    pub built_at: Time,
}

pub open spec fn spec_building_data(kind: BuildingKind) -> BuildingData {
    match kind {
        BuildingKind::Mine => BuildingData { cost: 250, construction_time: 10, kind: BuildingKind::Mine },
        BuildingKind::Portal => BuildingData { cost: 5000, construction_time: 60, kind: BuildingKind::Portal },
        BuildingKind::Shipyard => BuildingData { cost: 500, construction_time: 20, kind: BuildingKind::Shipyard },
    }
}

pub fn get_building_data(kind: BuildingKind) -> (d: BuildingData)
    ensures
        d == spec_building_data(kind),
        d.kind == kind,
{
    match kind {
        BuildingKind::Mine => BuildingData { cost: 250, construction_time: 10, kind: BuildingKind::Mine },
        BuildingKind::Portal => BuildingData { cost: 5000, construction_time: 60, kind: BuildingKind::Portal },
        BuildingKind::Shipyard => BuildingData { cost: 500, construction_time: 20, kind: BuildingKind::Shipyard },
    }
}

/// The instant a construction started at `from` is over.
fn get_construction_time(data: &BuildingData, from: Time) -> (t: Time)
    requires
        is_calendar_time(from),
    ensures
        t.0 == from.0 + data.construction_time * 1000,
{
    from.plus_millis(data.construction_time as i64 * 1000)
}

impl Building {
    /// A building of `kind` whose construction starts now in system `sid`.
    pub fn new(sid: SystemID, kind: BuildingKind, data: &BuildingData) -> (b: Building)
        ensures
            b.system == sid,
            b.kind == kind,
            b.status == BuildingStatus::Constructing,
            b.built_at.0 == b.created_at.0 + data.construction_time * 1000,
    {
        let now = Time::now();
        Building {
            id: BuildingID(new_v4_u128()),
            system: sid,
            kind,
            status: BuildingStatus::Constructing,
            created_at: now,
            built_at: get_construction_time(data, now),
        }
    }

    /// Whether `player` may have a building of `kind` built in a system owned
    /// by `system_owner` that already holds `existing_buildings` buildings;
    /// when it may, the player pays the building's cost. Only the owner of a
    /// system builds there (access denied otherwise), a system holds one
    /// building at most (a conflict otherwise), and the wallet must cover
    /// the cost.
    pub fn plan_construction(
        player: &mut Player,
        system_owner: Option<PlayerID>,
        existing_buildings: usize,
        kind: BuildingKind,
    ) -> (r: Result<BuildingData, InternalError>)
        ensures
            same_but_wallet(*final(player), *old(player)),
            system_owner != Some(old(player).id) ==> (r matches Err(e) && e is AccessDenied
                && final(player).wallet == old(player).wallet),
            system_owner == Some(old(player).id) && existing_buildings > 0 ==> (r matches Err(e)
                && e is Conflict && final(player).wallet == old(player).wallet),
            system_owner == Some(old(player).id) && existing_buildings == 0 ==> {
                let cost = spec_building_data(kind).cost;
                if cost <= old(player).wallet {
                    r == Ok::<BuildingData, InternalError>(spec_building_data(kind))
                        && final(player).wallet == old(player).wallet - cost
                } else {
                    r matches Err(e) && e is NotEnoughMoney && final(player).wallet == old(player).wallet
                }
            },
    {
        if system_owner != Some(player.id) {
            return Err(InternalError::AccessDenied);
        }
        if existing_buildings > 0 {
            return Err(InternalError::Conflict);
        }
        let data = get_building_data(kind);
        match player.spend(data.cost as usize) {
            Ok(()) => Ok(data),
            Err(e) => Err(e),
        }
    }
}

} // verus!
