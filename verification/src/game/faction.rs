use vstd::prelude::*;
use crate::util::error::Entity;
use crate::game::game::game::GameID;

verus! {

#[derive(Debug, Clone, Copy, PartialEq, Eq, Hash, Structural)]
pub struct FactionID(pub u8);

impl Entity for FactionID {
    const ETYPE: &'static str = "faction";
}

/// A colour, as its red, green, blue and alpha bytes.
#[derive(Debug, Clone, Copy, PartialEq, Eq, Structural)]
pub struct FactionColor(pub u8, pub u8, pub u8, pub u8);

#[derive(Debug, Clone)]
pub struct Faction {
    pub id: FactionID,
    pub name: String,
    pub color: FactionColor,
}

/// A faction's standing in one game.
#[derive(Debug, Clone, Copy, PartialEq, Eq, Structural)]
pub struct GameFaction {
    pub faction: FactionID,
    pub game: GameID,
    pub victory_points: u16,
}

/// The colour stored as one integer: its four bytes, most significant first.
pub open spec fn spec_color_of(n: i32) -> FactionColor {
    let u = n as u32;
    FactionColor((u >> 24u32) as u8, ((u >> 16u32) & 0xffu32) as u8, ((u >> 8u32) & 0xffu32) as u8, (u & 0xffu32) as u8)
}

impl FactionColor {
    /// Splits a stored integer into the colour's four bytes.
    pub fn from_bits(n: i32) -> (c: FactionColor)
        ensures
            c == spec_color_of(n),
    {
        let u = n as u32;
        FactionColor((u >> 24u32) as u8, ((u >> 16u32) & 0xffu32) as u8, ((u >> 8u32) & 0xffu32) as u8, (u & 0xffu32) as u8)
    }
}

impl From<i32> for FactionColor {
    fn from(n: i32) -> (c: FactionColor) {
        FactionColor::from_bits(n)
    }
}

impl vstd::std_specs::convert::FromSpecImpl<i32> for FactionColor {
    open spec fn obeys_from_spec() -> bool {
        true
    }

    open spec fn from_spec(n: i32) -> FactionColor {
        spec_color_of(n)
    }
}

impl From<FactionID> for i32 {
    fn from(fid: FactionID) -> (n: i32) {
        fid.0 as i32
    }
}

impl vstd::std_specs::convert::FromSpecImpl<FactionID> for i32 {
    open spec fn obeys_from_spec() -> bool {
        true
    }

    open spec fn from_spec(fid: FactionID) -> i32 {
        fid.0 as i32
    }
}

} // verus!
