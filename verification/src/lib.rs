//! Decision engine for a team of mining robots on a fixed-size grid.
//!
//! The crate keeps an incremental model of a partially observed world
//! ([`GameState`]), merges one turn's observations into it, arbitrates the
//! single radar mission, and derives one action per owned robot from the
//! robot's standing order.

pub mod engine;
pub mod entity;
pub mod geometry;
pub mod laws;
pub mod order;
pub mod radar;
pub mod request;
pub mod rng;
pub mod snapshot;
pub mod target;
pub mod turn;
pub mod world;

pub use entity::{DecodeError, Entity, EntityType, Item};
pub use geometry::manh_dist;
pub use order::Order;
pub use request::{Request, RequestComment, RequestItem};
pub use snapshot::{CellReport, EntityReport, Snapshot, SnapshotError};
pub use turn::TurnReport;
pub use world::{Cell, GameState, Miner, Opponent, StateError, UID};
