//! The edges of the graph of record this slice is an endpoint of.

use vstd::prelude::*;

verus! {

/// An edge of the graph of record.
#[derive(Debug, Clone, Copy, PartialEq, Eq, Hash, Structural)]
#[non_exhaustive]
pub enum EdgeId {
    /// The geometry slice to its viewport: a `STEP` and mesh viewport for the
    /// geometry surface.
    RenderGeometryMicrofrontend,
}

impl EdgeId {
    /// Every edge this enum names.
    pub const ALL: [EdgeId; 1] = [EdgeId::RenderGeometryMicrofrontend];

    /// The edge identifier as the graph of record writes it.
    pub fn name(self) -> (r: &'static str)
        ensures
            r@ == "RENDER_GEOMETRY_MICROFRONTEND"@,
    {
        match self {
            EdgeId::RenderGeometryMicrofrontend => "RENDER_GEOMETRY_MICROFRONTEND",
        }
    }

    /// The component at the far end of the edge.
    pub fn consumer(self) -> (r: &'static str)
        ensures
            r@ == "P15"@,
    {
        match self {
            EdgeId::RenderGeometryMicrofrontend => "P15",
        }
    }

    /// The transport the graph of record records for this edge, verbatim.
    /// Nothing here acts on it.
    pub fn recorded_transport(self) -> (r: &'static str)
        ensures
            r@ == "Svelte 5 Micro-Frontend / PGlite OPFS"@,
    {
        match self {
            EdgeId::RenderGeometryMicrofrontend => "Svelte 5 Micro-Frontend / PGlite OPFS",
        }
    }

    /// How many sources of the imported bundle draw this edge: one.
    pub fn sources(self) -> (r: u8)
        ensures
            r == 1,
    {
        match self {
            EdgeId::RenderGeometryMicrofrontend => 1,
        }
    }
}

} // verus!
