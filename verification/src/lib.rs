//! Streaming chess-game feature extraction.
//!
//! The library replays recorded games move by move against a rules engine,
//! turns every reached position into a fixed-width numeric vector, extracts
//! win-probability annotations from per-move commentary, and aggregates the
//! accepted games into a columnar dataset.
//!
//! Probabilities are carried as integers in micro-units (one million equals
//! a probability of one), since the verified core does not use floating point;
//! a caller may divide by one million at the output boundary.

pub mod annotations;
pub mod board;
pub mod dataset;
pub mod engine;
pub mod text;
pub mod visitor;
pub mod winprob;
