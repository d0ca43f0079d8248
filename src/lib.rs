//! Reference cells and finite element tabulation.
//!
//! The `cell` module holds the topology of the reference cells and the
//! connectivity between their entities; the `element` module holds the
//! Lagrange elements and the buffers that their tabulations fill; the `map`
//! module holds the push-forward and pull-back maps.
pub mod cell;
pub mod element;
pub mod map;
