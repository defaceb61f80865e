//! Dungeon core of a first-person shooter: grid levels, the doors that gate
//! them, and the session that walks the player from one level to the next.

pub mod animation;
pub mod assembly;
pub mod boss;
pub mod capacity;
pub mod config;
pub mod door;
pub mod generation;
pub mod grid;
pub mod layout;
pub mod level;
pub mod random;
pub mod reachability;
pub mod session;
pub mod triggers;
