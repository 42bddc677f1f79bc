//! A tick-indexed, rollback-capable rigid-body world.
//!
//! The library owns a history of complete physics snapshots, one per tick.
//! Registration, stepping and rewinding are verified bookkeeping over that
//! history; the numeric integration and the geometric queries are delegated
//! to an external physics engine behind a narrow trusted boundary
//! (see `engine`).

pub mod engine;
pub mod geom;
pub mod handles;
pub mod laws;
pub mod proxy;
pub mod state;
pub mod world;
