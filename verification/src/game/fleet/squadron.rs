use vstd::prelude::*;
use crate::util::error::InternalError;
use crate::util::store::StoreAction;
use crate::game::fleet::fleet::FleetID;
use crate::game::fleet::formation::FleetFormation;
use crate::game::ship::model::ShipModelCategory;
use crate::game::ship::squadron::Squadron;

verus! {

#[derive(Debug, Clone, Copy, PartialEq, Eq, Hash, Structural)]
pub struct FleetSquadronID(pub u128);

/// Ships of one category holding one formation of a fleet.
#[derive(Debug, Clone, Copy, PartialEq, Eq, Structural)]
pub struct FleetSquadron {
    pub id: FleetSquadronID,
    pub fleet: FleetID,
    pub formation: FleetFormation,
    pub category: ShipModelCategory,
    pub quantity: u16,
}

/// A player's request to put `quantity` ships of `category` at `formation`.
#[derive(Debug, Clone, Copy, PartialEq, Eq, Structural)]
pub struct SquadronAssignmentData {
    pub formation: FleetFormation,
    pub category: ShipModelCategory,
    pub quantity: usize,
}

impl FleetSquadron {
    pub fn can_fight(&self) -> (b: bool)
        ensures
            b == (self.quantity > 0),
    {
        self.quantity > 0
    }

    /// What becomes of the squadron at a formation of fleet `fid` when it is
    /// to hold `quantity` ships of `category`. A missing squadron is created
    /// (under `new_id`) when ships are assigned; an existing one takes the new
    /// quantity, unless it holds ships of another category, which is a
    /// conflict; an existing one assigned no ship is removed.
    pub fn plan_assign(
        fleet_squadron: Option<FleetSquadron>,
        new_id: FleetSquadronID,
        fid: FleetID,
        formation: FleetFormation,
        category: ShipModelCategory,
        quantity: u16,
    ) -> (r: Result<StoreAction<FleetSquadron>, InternalError>)
        ensures
            match fleet_squadron {
                None => if quantity > 0 {
                    r == Ok::<StoreAction<FleetSquadron>, InternalError>(StoreAction::Insert(
                        FleetSquadron { id: new_id, fleet: fid, formation, quantity, category },
                    ))
                } else {
                    r == Ok::<StoreAction<FleetSquadron>, InternalError>(StoreAction::Nothing)
                },
                Some(fs) => if quantity > 0 {
                    if fs.category != category {
                        r matches Err(e) && e is Conflict
                    } else {
                        r == Ok::<StoreAction<FleetSquadron>, InternalError>(StoreAction::Update(
                            FleetSquadron { quantity, ..fs },
                        ))
                    }
                } else {
                    r == Ok::<StoreAction<FleetSquadron>, InternalError>(StoreAction::Remove(fs))
                },
            },
    {
        match fleet_squadron {
            None => {
                if quantity > 0 {
                    Ok(StoreAction::Insert(FleetSquadron { id: new_id, fleet: fid, formation, quantity, category }))
                } else {
                    Ok(StoreAction::Nothing)
                }
            },
            Some(fs) => {
                if quantity > 0 {
                    if fs.category != category {
                        return Err(InternalError::Conflict);
                    }
                    Ok(StoreAction::Update(FleetSquadron { quantity, ..fs }))
                } else {
                    Ok(StoreAction::Remove(fs))
                }
            },
        }
    }

    /// The quantity a fleet's squadron reaches when `quantity` newly built
    /// ships join the ones it already holds.
    pub fn existing_quantity(fleet_squadron: &Option<FleetSquadron>, quantity: u16) -> (q: u16)
        requires
            fleet_squadron matches Some(fs) ==> quantity + fs.quantity <= u16::MAX,
        ensures
            q == match fleet_squadron {
                Some(fs) => quantity + fs.quantity,
                None => quantity as int,
            },
    {
        match fleet_squadron {
            Some(fs) => quantity + fs.quantity,
            None => quantity,
        }
    }
}

/// The ships of a category available at a system for one formation of a
/// fleet: the ones waiting in orbit plus the ones already at that formation.
pub fn get_available_ship_quantity(squadron: &Option<Squadron>, fleet_squadron: &Option<FleetSquadron>) -> (q: u16)
    requires
        (match squadron { Some(s) => s.quantity as int, None => 0int }) + (match fleet_squadron {
            Some(fs) => fs.quantity as int,
            None => 0int,
        }) <= u16::MAX,
    ensures
        q == (match squadron { Some(s) => s.quantity as int, None => 0int }) + (match fleet_squadron {
            Some(fs) => fs.quantity as int,
            None => 0int,
        }),
{
    let mut available_quantity: u16 = 0;
    if let Some(sg) = squadron {
        available_quantity = available_quantity + sg.quantity;
    }
    if let Some(fs) = fleet_squadron {
        available_quantity = available_quantity + fs.quantity;
    }
    available_quantity
}

/// How many ships must still be built to reach `required_quantity` when
/// `available_quantity` ships are at hand and `producing_ships` are already
/// being built for the same place (as a `u16`); none when enough are there
/// or on their way.
pub fn get_needed_quantity(required_quantity: i32, available_quantity: i32, producing_ships: i32) -> (q: u16)
    requires
        i32::MIN <= available_quantity + producing_ships <= i32::MAX,
        available_quantity + producing_ships <= required_quantity ==> required_quantity - (available_quantity
            + producing_ships) <= i32::MAX,
    ensures
        q == (if available_quantity + producing_ships <= required_quantity {
            (required_quantity - (available_quantity + producing_ships)) as u16
        } else {
            0u16
        }),
{
    let future_quantity = available_quantity + producing_ships;
    if future_quantity <= required_quantity {
        return #[verifier::truncate] ((required_quantity - future_quantity) as u16);
    }
    0
}

/// How `required` ships are taken from the `available` ones of a system:
/// `(assigned, remaining)`, the ships that join the fleet and the ones left
/// in orbit. When fewer ships are available than required, all of them join
/// the fleet.
pub fn split_assignment(required: u16, available: u16) -> (r: (u16, u16))
    ensures
        r.0 + r.1 == available,
        r.0 <= required,
        r.0 == (if required > available { available } else { required }),
{
    if required > available {
        (available, 0)
    } else {
        (required, available - required)
    }
}

} // verus!
