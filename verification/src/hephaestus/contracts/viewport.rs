//! The versions of the geometry viewport descriptor the geometry slice hands
//! to the viewport surface.
//!
//! The descriptor itself is not in this library: its correlation identity
//! and preparation time are types of the shared identity crate
//! (`aegis-justitia`), and its refusals and payload buffer belong to the
//! contract encoding of the geometry slice's edges, neither of which this
//! library depends on. Its one check of its own, that the engine it names
//! reads `STEP`, is [`CadEngine::reads_step`](crate::hephaestus::geometry::CadEngine::reads_step),
//! and the values it carries are the bounded types of
//! [`geometry`](crate::hephaestus::geometry) and [`id`](crate::hephaestus::id).

use vstd::prelude::*;

verus! {

/// The contract versions of the viewport descriptor this build admits.
#[derive(Debug, Clone, Copy, PartialEq, Eq, Hash, Structural)]
#[non_exhaustive]
pub enum GeometryViewportVersion {
    /// Version 1, tagged `aegis.p14-p15.geometry-viewport.v1` on the wire.
    V1,
}

} // verus!
