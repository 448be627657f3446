//! Seat assignment optimizer core: a seat model over tables with two rows and
//! two bonus slots, an exact swap primitive, a locality-aware table tally, a
//! perfection predicate and the state that an annealer and a polisher mutate.

pub mod model;
pub mod swap;
pub mod laws;
pub mod wishes;
pub mod scoring;
pub mod perfect;
pub mod config;
pub mod seats;
pub mod anneal;
pub mod polish;
