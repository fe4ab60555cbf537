//! A planar N-body engine that is generic in its numbers.
//!
//! The engine owns the population of bodies and decides which body meets
//! which, in what order, and what is written where. The arithmetic on
//! vectors and scalars is handed in by the caller as closures, so every
//! contract here is stated relative to what those closures answer.

pub mod body;
pub mod collision;
pub mod pairs;
pub mod gravity;
pub mod universe;
pub mod generation;
