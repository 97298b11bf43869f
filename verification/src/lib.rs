//! Event-sourced domain model for a grid-laid-out workflow canvas.
//!
//! Typed nodes occupy swimlane cells; cursors select nodes, producing a
//! per-cursor selection overlay. The model is driven through a closed event
//! vocabulary applied by [`signals::WorkflowSignals::evolve`], which enforces
//! entity uniqueness and referential integrity. On-screen positions are pure
//! derivations from logical grid coordinates ([`geometry`]).

pub mod constants;
pub mod events;
pub mod geometry;
pub mod signals;
pub mod types;
