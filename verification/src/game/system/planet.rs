use vstd::prelude::*;
use crate::game::system::system::SystemID;

verus! {

#[derive(Debug, Clone, Copy, PartialEq, Eq, Structural)]
pub enum PlanetBiome {
    Oceanic,
    Desert,
    Rocky,
    Gas,
    Ice,
    Temperate,
    Tropical,
    Mountain,
    Arid,
}

#[derive(Debug, Clone, Copy, PartialEq, Eq, Structural)]
pub enum PlanetTemperature {
    Freezing,
    Cold,
    Normal,
    Hot,
    Melting,
}

#[derive(Debug, Clone)]
pub struct Planet {
    pub system: SystemID,
    pub biomes: Vec<PlanetBiome>,
}

} // verus!
