//! The bounded geometry slice: a `STEP` source path, tolerances, a mesh
//! plan, a bounded face walk, the recorded solver set, and the intake of
//! verification requests. Nothing here links a CAD kernel, starts a solver
//! or reads a file.

pub mod contracts;
pub mod error;
pub mod geometry;
pub mod id;
pub mod register;
pub mod solver;
pub mod verification;

pub use self::contracts::graph::EdgeId;
pub use self::contracts::viewport::GeometryViewportVersion;
pub use self::error::HephaestusError;
pub use self::geometry::{
    BrepEvaluator, CadEngine, EvaluationOutcome, MAX_GEOMETRY_ITERATIONS, MAX_MESH_ELEMENTS,
    MAX_TOLERANCE_MICROMETRES, MIN_TOLERANCE_MICROMETRES, MeshConfig, MeshElementCount, MeshPlan,
    StepSchema, Tolerance,
};
pub use self::id::{IdError, MAX_STEP_PATH_LEN, StepPath};
pub use self::register::{
    ClaimSource, ClaimStatus, RecordedClaim, UnpinnedDependency, p14_recorded_claims,
    unpinned_dependencies,
};
pub use self::solver::{SOLVER_SLICE, SolverAdmission, SolverTarget};
pub use self::verification::{AdmittedVerification, VerificationIntake, VerificationOutcome};
