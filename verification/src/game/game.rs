pub mod game;
pub mod option;
pub mod server;
pub mod victory;
