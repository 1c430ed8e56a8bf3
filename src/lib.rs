//! Destructible terrain with gravity settling, and the bunkers that sit in it.

pub mod bunker;
pub mod color;
pub mod grid;
pub mod weapon_depot;
