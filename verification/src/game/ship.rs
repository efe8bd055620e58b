use vstd::prelude::*;
use crate::game::fleet::formation::FleetFormation;
use crate::game::ship::model::ShipModelCategory;

pub mod model;
pub mod queue;
pub mod squadron;

verus! {

/// A request for ships of a category placed at a formation.
#[derive(Debug, Clone, Copy, PartialEq, Eq, Structural)]
pub struct ShipQuantityData {
    pub formation: FleetFormation,
    pub category: ShipModelCategory,
    pub quantity: usize,
}

} // verus!
