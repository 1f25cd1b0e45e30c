//! Reference-counted entity/intent handles with deferred, reconciled cleanup.
//!
//! Entities live in a substrate [`world::World`] that only changes shape at
//! explicit flush points, through a [`commands::CommandQueue`] of deferred
//! mutations.  Subsystems claim entities under *intents*; reference-counted
//! handles notify a channel when the last claim is released, and a periodic
//! reconciliation step decides — after re-checking liveness — whether a
//! marker is removed or the entity despawned.

pub mod asset_server;
pub mod bridge;
pub mod commands;
pub mod drop_queue;
pub mod dyn_node;
pub mod handler;
pub mod handles;
pub mod laws;
pub mod markers;
pub mod node;
pub mod pipeline;
pub mod query;
pub mod registry;
pub mod server;
pub mod spawner;
pub mod stacking;
pub mod world;
pub mod yml;
