use vstd::prelude::*;

verus! {

#[derive(Debug, Clone, Copy, PartialEq, Eq, Structural)]
pub enum GameOptionSpeed {
    Slow,
    Medium,
    Fast,
}

#[derive(Debug, Clone, Copy, PartialEq, Eq, Structural)]
pub enum GameOptionMapSize {
    VerySmall,
    Small,
    Medium,
    Large,
    VeryLarge,
}

impl GameOptionSpeed {
    /// The factor applied to construction times, in hundredths (a slow game
    /// builds in 120% of the time, a fast one in 80%).
    pub fn into_coeff_percent(self) -> (c: u16)
        ensures
            c == match self {
                GameOptionSpeed::Slow => 120u16,
                GameOptionSpeed::Medium => 100u16,
                GameOptionSpeed::Fast => 80u16,
            },
    {
        match self {
            GameOptionSpeed::Slow => 120,
            GameOptionSpeed::Medium => 100,
            GameOptionSpeed::Fast => 80,
        }
    }

    /// The distance a fleet covers per second, in hundredths of a map unit.
    pub fn into_travel_speed_percent(self) -> (c: u16)
        ensures
            c == match self {
                GameOptionSpeed::Slow => 40u16,
                GameOptionSpeed::Medium => 55u16,
                GameOptionSpeed::Fast => 70u16,
            },
    {
        match self {
            GameOptionSpeed::Slow => 40,
            GameOptionSpeed::Medium => 55,
            GameOptionSpeed::Fast => 70,
        }
    }
}

} // verus!
