//! Gameplay core of a match-3 tile game: a deterministic simulation that
//! turns pointer input into grid mutations (selection, swapping, match
//! detection, clearing, gravity refill) and exposes the resulting state for
//! rendering.
//!
//! The crate is organised leaf-first: a small pseudo-random generator, the
//! grid model with its run-detection queries, the input-event helpers, the
//! per-tick gameplay state machine, and finally the game-state stack with its
//! frame double-buffering discipline.

pub mod gameplay;
pub mod gamestates;
pub mod grid;
pub mod input;
pub mod rng;
