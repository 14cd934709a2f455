//! Every value on a decision path owns no heap, and driving the tables to
//! their bounds changes no storage.

use core::mem::{size_of, size_of_val};

use aegis::compositor::{
    ClientId, ClientTable, CompositorError, DeclaredPeriodUs, IdError, KeyExpr, Label,
    MAX_IPC_CLIENTS, MAX_SAMPLE_BYTES, MAX_SURFACES, MeshRole, MockedMesh, OverlayRegistration,
    PacingSource, Sample, Subscription, SubscriptionId, SurfaceGeometry, SurfaceId, SurfaceLayer,
    SurfaceRegistry, SurfaceRequest, WaylandSurface,
};

type Fallible = Result<(), String>;

const SHELL: &str = "forum-desktop-shell";
const FOCUS_KEY: &str = "aegis/compositor/focus";

fn assert_no_heap<T: Copy>() {}

fn shell_request(id: u32) -> Result<SurfaceRequest, String> {
    Ok(SurfaceRequest {
        id: SurfaceId::new(id),
        title: Label::parse(SHELL).map_err(|e| e.message())?,
        geometry: SurfaceGeometry::new(1920, 1080),
        layer: SurfaceLayer::Top,
        pid: 1001,
    })
}

fn filled_registry(count: usize) -> Result<SurfaceRegistry, String> {
    let mut registry = SurfaceRegistry::new();
    for index in 0..count {
        let id = u32::try_from(index).unwrap_or(0).saturating_add(1);
        registry
            .register(shell_request(id)?)
            .map_err(|e| e.message())?;
    }
    Ok(registry)
}

fn filled_clients(count: usize) -> Result<ClientTable, String> {
    let mut clients = ClientTable::new();
    for _ in 0..count {
        clients.admit_client().map_err(|e| e.message())?;
    }
    Ok(clients)
}

#[test]
fn every_value_on_a_decision_path_owns_no_heap() {
    assert_no_heap::<SurfaceRegistry>();
    assert_no_heap::<WaylandSurface>();
    assert_no_heap::<SurfaceRequest>();
    assert_no_heap::<SurfaceGeometry>();
    assert_no_heap::<SurfaceId>();
    assert_no_heap::<SurfaceLayer>();
    assert_no_heap::<ClientTable>();
    assert_no_heap::<ClientId>();
    assert_no_heap::<MockedMesh>();
    assert_no_heap::<Sample>();
    assert_no_heap::<Subscription>();
    assert_no_heap::<SubscriptionId>();
    assert_no_heap::<MeshRole>();
    assert_no_heap::<KeyExpr>();
    assert_no_heap::<Label>();
    assert_no_heap::<DeclaredPeriodUs>();
    assert_no_heap::<PacingSource>();
    assert_no_heap::<OverlayRegistration>();
    assert_no_heap::<CompositorError>();
    assert_no_heap::<IdError>();
}

#[test]
fn driving_the_tables_changes_no_storage() -> Fallible {
    let registry = filled_registry(MAX_SURFACES)?;
    let clients = filled_clients(MAX_IPC_CLIENTS)?;
    assert_eq!(size_of_val(&registry), size_of::<SurfaceRegistry>());
    assert_eq!(size_of_val(&clients), size_of::<ClientTable>());
    assert!(size_of::<SurfaceRegistry>() > size_of::<WaylandSurface>());
    Ok(())
}

#[test]
fn retaining_a_sample_does_not_grow_the_mesh() -> Fallible {
    let mut mesh = MockedMesh::new();
    let before = size_of_val(&mesh);
    let focus = KeyExpr::parse(FOCUS_KEY).map_err(|e| e.message())?;
    mesh.publish(MeshRole::Publisher, focus, &vec![9u8; MAX_SAMPLE_BYTES])
        .map_err(|e| e.message())?;
    assert_eq!(size_of_val(&mesh), before);
    assert_eq!(size_of_val(&mesh), size_of::<MockedMesh>());
    let sample = mesh.retained(focus).ok_or("a sample must be retained")?;
    assert_eq!(sample.len(), MAX_SAMPLE_BYTES);
    assert_no_heap::<Sample>();
    Ok(())
}

#[test]
fn the_registry_is_its_declared_storage() {
    assert!(size_of::<SurfaceRegistry>() > size_of::<WaylandSurface>().saturating_mul(200));
    assert_eq!(MAX_SURFACES, 256);
    let registry = SurfaceRegistry::new();
    assert!(registry.is_empty());
    assert_eq!(size_of_val(&registry), size_of::<SurfaceRegistry>());
}
