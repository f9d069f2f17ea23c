//! A brute-force 2-D gravity simulation.
//!
//! A population of point masses attracts one another pairwise, merges on
//! fast overlapping contact, and is advanced by semi-implicit Euler steps.
//! All quantities are fixed-point numbers with six decimal digits of
//! fraction, held in `i64`; see the `fixed` module.

pub mod fixed;
pub mod laws;
pub mod particle;
pub mod sim;
