use vstd::prelude::*;
use crate::util::store::StoreAction;
use crate::game::ship::model::ShipModelCategory;
use crate::game::system::system::SystemID;

verus! {

#[derive(Debug, Clone, Copy, PartialEq, Eq, Hash, Structural)]
pub struct SquadronID(pub u128);

/// Ships of one category waiting in orbit of a system, assigned to no fleet.
#[derive(Debug, Clone, Copy, PartialEq, Eq, Structural)]
pub struct Squadron {
    pub id: SquadronID,
    pub system: SystemID,
    pub category: ShipModelCategory,
    pub quantity: u16,
}

impl Squadron {
    /// What becomes of the squadron of `category` in orbit of `system` when
    /// `quantity` ships are to remain there: an existing squadron takes the
    /// new quantity (as a `u16`) or is removed when none remain; a missing one
    /// is created, under `new_id`, when some ships remain.
    pub fn plan_assign(
        squadron: Option<Squadron>,
        new_id: SquadronID,
        system: SystemID,
        category: ShipModelCategory,
        quantity: i32,
    ) -> (a: StoreAction<Squadron>)
        ensures
            match squadron {
                Some(s) => if quantity > 0 {
                    a == StoreAction::Update(Squadron { quantity: quantity as u16, ..s })
                } else {
                    a == StoreAction::Remove(s)
                },
                None => if quantity > 0 {
                    a == StoreAction::Insert(Squadron { id: new_id, system, category, quantity: quantity as u16 })
                } else {
                    a == StoreAction::<Squadron>::Nothing
                },
            },
    {
        match squadron {
            Some(s) => {
                if quantity > 0 {
                    let q = #[verifier::truncate] (quantity as u16);
                    StoreAction::Update(Squadron { quantity: q, ..s })
                } else {
                    StoreAction::Remove(s)
                }
            },
            None => {
                if quantity > 0 {
                    let q = #[verifier::truncate] (quantity as u16);
                    StoreAction::Insert(Squadron { id: new_id, system, category, quantity: q })
                } else {
                    StoreAction::Nothing
                }
            },
        }
    }

    /// The quantity a system's squadron reaches when `quantity` newly built
    /// ships join the ones already there.
    pub fn existing_quantity(squadron: &Option<Squadron>, quantity: i32) -> (q: i32)
        requires
            squadron matches Some(s) ==> quantity + s.quantity <= i32::MAX,
        ensures
            q == match squadron {
                Some(s) => quantity + s.quantity,
                None => quantity as int,
            },
    {
        match squadron {
            Some(s) => quantity + s.quantity as i32,
            None => quantity,
        }
    }
}

} // verus!
