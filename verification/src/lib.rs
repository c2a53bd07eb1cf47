//! Discrete and combinatorial core of a knot-model search engine.
//!
//! A knot model is a closed chain of identical rigid joints, placed with
//! dihedral symmetry.  The continuous geometry (rigid transforms, costs,
//! gradient descent) lives outside this crate; what is verified here is the
//! decision logic the search rests on: neighbor-protection rules for
//! self-collision tests, the total cost ordering that tolerates NaN values,
//! exhaustive enumeration of discrete joint angles, the dihedral symmetry
//! group, and the assembly and ranking of search results.

pub mod chain;
pub mod cost;
pub mod filter;
pub mod joint;
pub mod report;
pub mod nan_order;
pub mod search;
pub mod symmetry;
pub mod symmetry_adjust;
