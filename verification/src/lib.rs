//! Exhaustive grid-configuration generation.
//!
//! Given an ordered list of variable boolean parameters and an ordered list of
//! constant `(name, bool)` pairs, the library enumerates every assignment to
//! the variable parameters in binary counting order (parameter 0 least
//! significant) and renders each assignment, paired with the unchanged
//! constant set, as a textual two-section parameter block.

pub mod assemble;
pub mod config;
pub mod counter;
pub mod factory;
