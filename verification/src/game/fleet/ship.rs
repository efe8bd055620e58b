use vstd::prelude::*;
use crate::util::error::InternalError;
use crate::util::store::StoreAction;
use crate::util::time::Time;
use crate::game::fleet::fleet::FleetID;
use crate::game::player::PlayerID;
use crate::game::system::system::SystemID;

verus! {

/// The categories of ships that ship groups hold.
#[derive(Debug, Clone, Copy, PartialEq, Eq, Structural)]
pub enum ShipModelCategory {
    Fighter,
}

/// What it takes to build a ship of a category: milliseconds and money.
#[derive(Debug, Clone, Copy, PartialEq, Eq, Structural)]
pub struct ShipModel {
    pub category: ShipModelCategory,
    pub construction_time: u16,
    pub cost: u16,
}

#[derive(Debug, Clone, Copy, PartialEq, Eq, Hash, Structural)]
pub struct ShipGroupID(pub u128);

#[derive(Debug, Clone, Copy, PartialEq, Eq, Hash, Structural)]
pub struct ShipQueueID(pub u128);

/// Ships of one category, waiting in a system or serving in a fleet.
#[derive(Debug, Clone, Copy, PartialEq, Eq, Structural)]
pub struct ShipGroup {
    pub id: ShipGroupID,
    pub system: Option<SystemID>,
    pub fleet: Option<FleetID>,
    pub category: ShipModelCategory,
    pub quantity: u16,
}

/// Ships of one category under construction in a system.
#[derive(Debug, Clone, Copy, PartialEq, Eq, Structural)]
pub struct ShipQueue {
    pub id: ShipQueueID,
    pub system: SystemID,
    pub category: ShipModelCategory,
    pub quantity: u16,
    pub created_at: Time,
    pub started_at: Time,
    pub finished_at: Time,
}

/// A request for ships of a category.
#[derive(Debug, Clone, Copy, PartialEq, Eq, Structural)]
pub struct ShipQuantityData {
    pub category: ShipModelCategory,
    pub quantity: usize,
}

/// The model of each category: a fighter takes 400 ms and costs 20.
pub open spec fn spec_ship_model(category: ShipModelCategory) -> ShipModel {
    match category {
        ShipModelCategory::Fighter => ShipModel { category: ShipModelCategory::Fighter, construction_time: 400, cost: 20 },
    }
}

pub fn get_ship_model(category: ShipModelCategory) -> (m: ShipModel)
    ensures
        m == spec_ship_model(category),
        m.category == category,
{
    match category {
        ShipModelCategory::Fighter => ShipModel { category: ShipModelCategory::Fighter, construction_time: 400, cost: 20 },
    }
}

/// When the construction of `quantity` ships of `model` that starts at
/// `from` ends: each ship takes the model's construction time.
pub fn get_ship_construction_time(model: ShipModel, quantity: u16, from: Time) -> (t: Time)
    requires
        quantity * model.construction_time <= u16::MAX,
        from.0 + quantity * model.construction_time <= i64::MAX,
    ensures
        t.0 == from.0 + quantity * model.construction_time,
{
    let ms: u16 = quantity * model.construction_time;
    from.plus_millis(ms as i64)
}

/// What becomes of the ship groups when `player` puts `data.quantity` ships
/// of the system's group into a fleet: first the fleet's group, then the
/// system's. Only the owner of both the system and the fleet may do so
/// (else access is denied); the system must hold a group of that category
/// (else it is not found); the fleet's group takes the requested quantity,
/// which the two groups together must hold (else a conflict), and the
/// system's group keeps the rest, or is removed when nothing is left. A
/// fleet without a group of that category gets a new one, under `new_id`.
pub fn plan_assign_ships(
    player: PlayerID,
    system_owner: Option<PlayerID>,
    fleet: FleetID,
    fleet_owner: PlayerID,
    system_group: Option<ShipGroup>,
    fleet_group: Option<ShipGroup>,
    new_id: ShipGroupID,
    data: ShipQuantityData,
) -> (r: Result<(StoreAction<ShipGroup>, StoreAction<ShipGroup>), InternalError>)
    requires
        system_group matches Some(sg) ==> (fleet_group matches Some(fg) ==> sg.quantity + fg.quantity <= u16::MAX),
    ensures
        system_owner != Some(player) || fleet_owner != player ==> (r matches Err(e) && e is AccessDenied),
        system_owner == Some(player) && fleet_owner == player && system_group is None ==> (r matches Err(e)
            && e is NotFound),
        system_owner == Some(player) && fleet_owner == player ==> (system_group matches Some(sg) ==> {
            let available = sg.quantity + match fleet_group {
                Some(fg) => fg.quantity as int,
                None => 0int,
            };
            if data.quantity > available {
                r matches Err(e) && e is Conflict
            } else {
                r matches Ok((fleet_action, system_action)) && (match fleet_group {
                    Some(fg) => fleet_action matches StoreAction::Update(g) && g == ShipGroup {
                        quantity: data.quantity as u16,
                        ..fg
                    },
                    None => fleet_action matches StoreAction::Insert(g) && g == ShipGroup {
                        id: new_id,
                        system: None,
                        fleet: Some(fleet),
                        category: data.category,
                        quantity: data.quantity as u16,
                    },
                }) && (if available - data.quantity < 1 {
                    system_action matches StoreAction::Remove(g) && g == sg
                } else {
                    system_action matches StoreAction::Update(g) && g == ShipGroup {
                        quantity: (available - data.quantity) as u16,
                        ..sg
                    }
                })
            }
        }),
{
    if system_owner != Some(player) || fleet_owner != player {
        return Err(InternalError::AccessDenied);
    }
    let sg = match system_group {
        Some(sg) => sg,
        None => {
            return Err(InternalError::NotFound("ship group"));
        },
    };
    let mut available: u16 = sg.quantity;
    let fleet_action = match fleet_group {
        Some(fg) => {
            available = available + fg.quantity;
            StoreAction::Update(ShipGroup { quantity: data.quantity as u16, ..fg })
        },
        None => StoreAction::Insert(
            ShipGroup {
                id: new_id,
                system: None,
                fleet: Some(fleet),
                category: data.category,
                quantity: data.quantity as u16,
            },
        ),
    };
    if data.quantity > available as usize {
        return Err(InternalError::Conflict);
    }
    let remaining: u16 = available - data.quantity as u16;
    let system_action = if remaining < 1 {
        StoreAction::Remove(sg)
    } else {
        StoreAction::Update(ShipGroup { quantity: remaining, ..sg })
    };
    Ok((fleet_action, system_action))
}

} // verus!
