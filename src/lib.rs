//! Small utilities around randomness, console input, parallel sums and
//! simple arithmetic loops, each with a machine-checked contract.

pub mod popular;
pub mod input;
pub mod parallelism;
pub mod search;
