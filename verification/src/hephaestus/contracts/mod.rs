//! The cross-component edges the geometry slice is an endpoint of, and the
//! versions of the descriptor it hands across one of them.

pub mod graph;
pub mod viewport;
