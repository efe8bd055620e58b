pub mod battle;
pub mod combat;
pub mod fleet;
pub mod formation;
pub mod round;
pub mod squadron;
pub mod travel;
pub mod conquest;
pub mod ship;
