//! The compositor's side of the overlay stream crossing: a stream descriptor
//! the producer decoded becomes a surface request on the overlay layer, its
//! stream name becoming the surface title.
//!
//! Two halves of the compositor's edges are not in this library. The
//! focus-switch report is a type of the focus broker's crate (`aegis-lictor`)
//! and the stream descriptor is decoded by the producer's own decoder
//! (`aegis-calliope`); this library depends on neither crate, so building
//! the report and decoding the descriptor are left to code that links them.
//! What the consumer adds, the bound on what its registry can hold, stands
//! here as [`overlay_request`], over the descriptor's plain fields.

use vstd::prelude::*;
use vstd::utf8::encode_utf8;
use crate::compositor::error::CompositorError;
use crate::compositor::id::{Label, label_fault};
use crate::compositor::surface::{SurfaceGeometry, SurfaceId, SurfaceLayer, SurfaceRequest};

verus! {

/// An overlay surface request built from a stream descriptor, with the row
/// stride the producer computed carried for the reader.
#[derive(Debug, Clone, Copy, PartialEq, Eq)]
pub struct OverlayRegistration {
    /// The surface request the descriptor turns into.
    pub request: SurfaceRequest,
    /// The row stride the producer computed, carried for the reader.
    pub stride_bytes: u32,
}

/// Turns the fields of a decoded stream descriptor (its stream name,
/// dimensions and row stride) into an overlay surface request for surface
/// `id` owned by process `pid`. A stream name that is not a valid label is
/// refused as an identifier.
pub fn overlay_request(
    stream: &str,
    width: u32,
    height: u32,
    stride_bytes: u32,
    id: SurfaceId,
    pid: u32,
) -> (r: Result<OverlayRegistration, CompositorError>)
    ensures
        match r {
            Ok(reg) => {
                &&& label_fault(encode_utf8(stream@)) is None
                &&& reg.request.title@ == encode_utf8(stream@)
                &&& reg.request.id == id
                &&& reg.request.geometry == (SurfaceGeometry { width, height })
                &&& reg.request.layer == SurfaceLayer::Overlay
                &&& reg.request.pid == pid
                &&& reg.stride_bytes == stride_bytes
            },
            Err(e) => label_fault(encode_utf8(stream@)) matches Some(f) && e
                == CompositorError::Identifier(f),
        },
{
    let title = match Label::parse(stream) {
        Ok(title) => title,
        Err(e) => return Err(CompositorError::from(e)),
    };
    Ok(
        OverlayRegistration {
            request: SurfaceRequest {
                id,
                title,
                geometry: SurfaceGeometry::new(width, height),
                layer: SurfaceLayer::Overlay,
                pid,
            },
            stride_bytes,
        },
    )
}

} // verus!
