//! Core data structures for a roguelike engine: a bounded ordered integer set
//! backed by a binary indexed prefix-sum tree, with order-statistic queries and
//! uniform sampling, plus the small stat, dice and symbol types built around it.

pub mod bits;
pub mod character;
pub mod fenwick;
pub mod log_level;
pub mod rng;
pub mod sums;
pub mod symbol;
