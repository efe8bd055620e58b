pub mod auth;
pub mod error;
pub mod log;
pub mod pagination;
pub mod random;
pub mod sort;
pub mod store;
pub mod sync;
pub mod text;
pub mod time;
pub mod uuid;
