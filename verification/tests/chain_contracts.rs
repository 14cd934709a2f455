//! The compositor's side of the overlay stream crossing: the fields of a
//! decoded stream descriptor become an overlay surface request, and a stream
//! name this registry cannot hold is refused. The descriptor values below
//! are those a producer renders for an `ARGB8888` stream, four bytes a pixel.

use aegis::compositor::{
    CompositorError, IdError, MAX_LABEL_LEN, OverlayRegistration, SurfaceGeometry, SurfaceId,
    SurfaceLayer, SurfaceRegistry, SurfaceRequest, overlay_request,
};

const STREAM: &str = "looking-glass-capture";

/// The largest width whose packed 32-bit stride still fits in `u32`.
const LAST_PACKED_WIDTH: u32 = u32::MAX / 4;

/// The row stride of a packed 32-bit frame `width` pixels wide.
fn packed_stride(width: u32) -> u32 {
    width * 4
}

/// Positive: a descriptor becomes an overlay surface request.
#[test]
fn a_descriptor_becomes_an_overlay_surface_request() -> Result<(), CompositorError> {
    let registration: OverlayRegistration =
        overlay_request(STREAM, 2560, 1440, packed_stride(2560), SurfaceId::new(7), 1003)?;
    let request: SurfaceRequest = registration.request;
    assert_eq!(request.id, SurfaceId::new(7));
    assert_eq!(request.layer, SurfaceLayer::Overlay);
    assert_eq!(request.geometry, SurfaceGeometry::new(2560, 1440));
    assert_eq!(request.title.text(), STREAM);
    assert_eq!(request.pid, 1003);
    assert_eq!(registration.stride_bytes, 10_240);
    Ok(())
}

/// Positive: the resulting request registers, on the overlay layer.
#[test]
fn the_resulting_request_registers_on_the_overlay_layer() -> Result<(), CompositorError> {
    let registration =
        overlay_request(STREAM, 640, 480, packed_stride(640), SurfaceId::new(9), 1004)?;
    let mut registry = SurfaceRegistry::new();
    registry.register(registration.request)?;
    assert_eq!(registry.layer_count(SurfaceLayer::Overlay), 1);
    assert_eq!(registry.count(), 1);
    Ok(())
}

/// Negative: a stream name longer than this registry's label bound is
/// refused as an identifier, though a producer with a wider bound accepted it.
#[test]
fn a_stream_name_this_registry_cannot_hold_is_refused() {
    let long = "s".repeat(48);
    let refusal = overlay_request(&long, 640, 480, packed_stride(640), SurfaceId::new(11), 1005);
    assert_eq!(
        refusal,
        Err(CompositorError::Identifier(IdError::TooLong { max: MAX_LABEL_LEN, actual: 48 }))
    );
    let foreign = overlay_request("looking glass", 640, 480, 2560, SurfaceId::new(11), 1005);
    assert_eq!(foreign, Err(CompositorError::Identifier(IdError::Charset)));
}

/// Boundary: the overlay geometry is carried across at zero and at the widest
/// representable frame.
#[test]
fn the_overlay_geometry_is_carried_at_both_extremes() -> Result<(), CompositorError> {
    let zero = overlay_request(STREAM, 0, 0, packed_stride(0), SurfaceId::new(13), 1007)?;
    assert_eq!(zero.request.geometry, SurfaceGeometry::new(0, 0));
    assert_eq!(zero.stride_bytes, 0);

    let full = overlay_request(
        STREAM,
        LAST_PACKED_WIDTH,
        1,
        packed_stride(LAST_PACKED_WIDTH),
        SurfaceId::new(14),
        1008,
    )?;
    assert_eq!(full.request.geometry, SurfaceGeometry::new(LAST_PACKED_WIDTH, 1));
    assert_eq!(full.stride_bytes, 4_294_967_292);
    Ok(())
}
