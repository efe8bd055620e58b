use vstd::prelude::*;

verus! {

#[derive(Debug, Clone, Copy, PartialEq, Eq, Hash, Structural)]
pub enum ShipModelCategory {
    Fighter,
    Corvette,
    Frigate,
    Cruiser,
}

/// The characteristics shared by all the ships of a category.
#[derive(Debug, Clone, Copy, PartialEq, Eq, Structural)]
pub struct ShipModel {
    pub category: ShipModelCategory,
    pub strength: u16,
    pub construction_time: u16,
    pub cost: u16,
    pub damage: u16,
    pub combat_speed: u16,
    pub hit_points: u16,
    pub precision: u16,
}

/// The model of each category of ship.
pub open spec fn spec_ship_model(c: ShipModelCategory) -> ShipModel {
    match c {
        ShipModelCategory::Fighter => ShipModel {
            category: ShipModelCategory::Fighter,
            construction_time: 400,
            strength: 1,
            cost: 20,
            damage: 15,
            combat_speed: 80,
            hit_points: 10,
            precision: 60,
        },
        ShipModelCategory::Corvette => ShipModel {
            category: ShipModelCategory::Corvette,
            construction_time: 1500,
            strength: 10,
            cost: 140,
            damage: 40,
            combat_speed: 50,
            hit_points: 60,
            precision: 45,
        },
        ShipModelCategory::Frigate => ShipModel {
            category: ShipModelCategory::Frigate,
            construction_time: 2000,
            strength: 25,
            cost: 250,
            damage: 25,
            combat_speed: 35,
            hit_points: 100,
            precision: 50,
        },
        ShipModelCategory::Cruiser => ShipModel {
            category: ShipModelCategory::Cruiser,
            construction_time: 7000,
            strength: 75,
            cost: 600,
            damage: 80,
            combat_speed: 20,
            hit_points: 200,
            precision: 45,
        },
    }
}

impl ShipModelCategory {
    pub fn to_data(self) -> (m: ShipModel)
        ensures
            m == spec_ship_model(self),
            m.category == self,
            0 < m.cost <= 600,
            m.hit_points > 0,
            m.strength > 0,
    {
        match self {
            ShipModelCategory::Fighter => ShipModel {
                category: ShipModelCategory::Fighter,
                construction_time: 400,
                strength: 1,
                cost: 20,
                damage: 15,
                combat_speed: 80,
                hit_points: 10,
                precision: 60,
            },
            ShipModelCategory::Corvette => ShipModel {
                category: ShipModelCategory::Corvette,
                construction_time: 1500,
                strength: 10,
                cost: 140,
                damage: 40,
                combat_speed: 50,
                hit_points: 60,
                precision: 45,
            },
            ShipModelCategory::Frigate => ShipModel {
                category: ShipModelCategory::Frigate,
                construction_time: 2000,
                strength: 25,
                cost: 250,
                damage: 25,
                combat_speed: 35,
                hit_points: 100,
                precision: 50,
            },
            ShipModelCategory::Cruiser => ShipModel {
                category: ShipModelCategory::Cruiser,
                construction_time: 7000,
                strength: 75,
                cost: 600,
                damage: 80,
                combat_speed: 20,
                hit_points: 200,
                precision: 45,
            },
        }
    }
}

} // verus!
