//! Entity AI: behavior trees and what an entity remembers.
pub mod behavior;
pub mod memory;
pub mod pathfinding;
