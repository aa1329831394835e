//! Marine habitats: beaches that own crabs and index them into clans, and an
//! ocean that owns beaches and shares reefs of prey through stable handles.

pub mod beach;
pub mod clans;
pub mod crab;
pub mod ocean;
pub mod reef;

pub use beach::Beach;
pub use clans::ClanSystem;
pub use crab::{Crab, CrabView};
pub use ocean::{Ocean, ReefHandle};
pub use reef::{Prey, Reef};
