//! Conway's Game of Life on a bounded rectangular grid.
//!
//! A population of living cells evolves generation by generation under the
//! classic birth/death rules. Every operation is a pure function from an
//! immutable value to a new immutable value: the population keeps a running
//! status (iteration index, live-cell count, cumulative born/died counters)
//! that is proved to stay consistent with the actual cell set.

pub mod cell;
pub mod config;
pub mod dimension;
pub mod evolution;
pub mod place;
pub mod population;
pub mod status;
pub mod text;
