pub mod chat;
pub mod faction;
pub mod fleet;
pub mod game;
pub mod lobby;
pub mod player;
pub mod quest;
pub mod ranking;
pub mod ship;
pub mod system;
