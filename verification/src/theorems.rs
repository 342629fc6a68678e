//! What holds of the plans, whatever the events and the scene.
//!
//! Each theorem is a proof function: its parameters are the values it
//! speaks of, and its `ensures` is the statement.

pub mod batches;
pub mod edges;
pub mod lookup;
pub mod position;
pub mod removal;
pub mod updates;
