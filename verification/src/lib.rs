//! Verified game rules of a BitCraft server module.
pub mod admin;
pub mod deployables;
pub mod empires;
pub mod entities;
pub mod equipment;
pub mod expel;
pub mod food;
pub mod growth;
pub mod inter_module;
pub mod items;
pub mod placeables;
pub mod progress;
pub mod random;
pub mod resources;
pub mod respawn;
pub mod task_completion;
pub mod sessions;
pub mod sieges;
pub mod traveler_credits;
pub mod traveler_tasks;
pub mod watchtowers;
