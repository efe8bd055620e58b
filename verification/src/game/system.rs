pub mod building;
pub mod planet;
pub mod system;
pub mod zone;
