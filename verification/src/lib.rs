//! Structure-preserving mappings between a domain graph and its visual scene.
//!
//! A domain graph is made of nodes and edges with stable identifiers. Its
//! visual scene lives in an entity-component store that an engine owns. This
//! crate holds the decisions that bind the two: which scene commands follow
//! from a batch of domain events and a snapshot of the scene. Running the
//! commands against the engine is left to the caller.
//!
//! - [`ids`], [`events`], [`components`]: the values that come in.
//! - [`commands`]: the commands that go out, and what carrying them out
//!   does to an entity.
//! - [`morphisms`]: the mappings themselves.
//! - [`theorems`]: what is proved of them.
//! - [`engine`]: the engine's types that pass through.

pub mod commands;
pub mod components;
pub mod engine;
pub mod events;
pub mod ids;
pub mod morphisms;
mod seq_facts;
pub mod theorems;
