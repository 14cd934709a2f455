//! The edge of the graph of record the geometry slice is an endpoint of.

use aegis::hephaestus::EdgeId;

#[test]
fn the_edge_is_the_graph_of_records() {
    assert_eq!(EdgeId::ALL, [EdgeId::RenderGeometryMicrofrontend]);
    assert_eq!(
        EdgeId::RenderGeometryMicrofrontend.name(),
        "RENDER_GEOMETRY_MICROFRONTEND"
    );
    assert_eq!(EdgeId::RenderGeometryMicrofrontend.consumer(), "P15");
    assert_eq!(
        EdgeId::RenderGeometryMicrofrontend.recorded_transport(),
        "Svelte 5 Micro-Frontend / PGlite OPFS"
    );
    assert_eq!(EdgeId::RenderGeometryMicrofrontend.sources(), 1);
}
