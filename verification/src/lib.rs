//! Game rules and text protocols of Code-Termination, a 2D arcade game.
pub mod arena;
pub mod menu;
pub mod netplay;
pub mod profile;
pub mod resources;
pub mod stun;
pub mod text;
pub mod weapon;
