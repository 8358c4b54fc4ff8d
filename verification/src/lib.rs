//! Reorientation search for fixed move sequences on a 3x3x3 cube.
//!
//! Given an algorithm (a fixed sequence of face turns), the library searches
//! for the cheapest way to insert whole-cube reorientations into the gaps
//! between consecutive moves so that the sequence still ends within one move
//! of solved, judged by a precomputed pruning-table oracle.  The search is an
//! iterative-deepening, branch-and-bound depth-first search over the 24
//! whole-cube symmetry operations.

pub mod moves;
pub mod reorient;
pub mod config;
pub mod search;
pub mod driver;
