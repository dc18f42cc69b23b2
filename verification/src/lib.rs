//! Flow-field pathfinding for a tile-based world.
//!
//! A single moving goal lives on an unbounded integer tile grid with
//! dynamically appearing obstacles, stored in fixed-size chunks.  Once per
//! simulation tick, when a pending recalculation trigger is set, the builder
//! runs a bounded weighted shortest-path expansion outward from the goal tile
//! and publishes, for every walkable tile within a configured radius, the best
//! adjacent tile to step toward.  Any number of agents then consult the shared
//! field instead of each running its own search.
//!
//! The crate also carries the item-stack and inventory rules that the
//! surrounding simulation uses to move goods between machines.

pub mod flowfield;
pub mod inventory;
pub mod item;
pub mod recipe;
pub mod tile;
pub mod worldmap;
