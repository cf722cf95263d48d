//! Deterministic visual fingerprints of byte strings.
//!
//! A token walks a grid of signed counters. Every half-byte of the input
//! selects one of eight knight-style jumps and whether the cell the token
//! lands on is counted up or down. The final counters are drawn as a framed
//! block of glyphs.

pub mod action;
pub mod error;
pub mod model;
pub mod canvas;
pub mod picture;
pub mod fingerprint;
pub mod size;
pub mod text;
