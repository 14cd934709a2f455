//! The compositor registers: bounded identifiers, the surface registry, the
//! Tier-1 client table and the mocked Tier-2 mesh, the frame pacing pin, and
//! the recorded decisions and claims they rest on. Nothing here composites,
//! renders or opens a transport.

pub mod chain;
pub mod decision;
pub mod error;
pub mod id;
pub mod mesh;
pub mod pacing;
pub mod register;
pub mod surface;

pub use self::chain::{OverlayRegistration, overlay_request};
pub use self::decision::{
    AdmittedBackend, Citation, CompositorImplementation, DecisionRecord, DecisionState,
    UpstreamCheck, compositor_library_check, d08_compositor_implementation, m07_upstream_checks,
    zenoh_check,
};
pub use self::error::CompositorError;
pub use self::id::{IdError, KEY_EXPR_SEPARATOR, KeyExpr, Label, MAX_KEY_EXPR_LEN, MAX_LABEL_LEN};
pub use self::mesh::{
    ClientId, ClientTable, MAX_IPC_CLIENTS, MAX_MESH_TOPICS, MAX_SAMPLE_BYTES, MAX_SUBSCRIPTIONS,
    MeshRole, MockedMesh, SCAFFOLD_SHM_BUFFER_BYTES, Sample, Subscription, SubscriptionId,
};
pub use self::pacing::{
    DeclaredPeriodUs, MAX_REFRESH_HZ, MIN_REFRESH_HZ, PACING_COMMENT_REFRESH_HZ, PacingSource,
    RENDER_IPC_BUDGET_US, SCAFFOLD_EVENT_LOOP_CYCLES, SCAFFOLD_LOOP_PERIOD_US,
    budget_fits_in_period, frame_period_us, pinned_frame_period_us,
};
pub use self::register::{ClaimSource, ClaimStatus, RecordedClaim, p04_recorded_claims};
pub use self::surface::{
    MAX_SURFACES, SurfaceGeometry, SurfaceId, SurfaceLayer, SurfaceRegistry, SurfaceRequest,
    UNIT_MEMORY_MAX_MIB, WaylandSurface,
};
