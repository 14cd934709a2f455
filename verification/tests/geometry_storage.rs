//! Every value on the geometry slice's decision path owns no heap.

use core::mem::{size_of, size_of_val};

use aegis::hephaestus::{
    AdmittedVerification, BrepEvaluator, CadEngine, EvaluationOutcome, HephaestusError,
    MAX_MESH_ELEMENTS, MeshConfig, MeshElementCount, MeshPlan, RecordedClaim, SolverAdmission,
    SolverTarget, StepPath, Tolerance, UnpinnedDependency, VerificationIntake,
    VerificationOutcome,
};

fn assert_no_heap<T: Copy>() {}

#[test]
fn allocation_bounds_every_value_on_a_decision_path_owns_no_heap() {
    assert_no_heap::<BrepEvaluator>();
    assert_no_heap::<CadEngine>();
    assert_no_heap::<EvaluationOutcome>();
    assert_no_heap::<MeshConfig>();
    assert_no_heap::<MeshElementCount>();
    assert_no_heap::<MeshPlan>();
    assert_no_heap::<StepPath>();
    assert_no_heap::<Tolerance>();
    assert_no_heap::<SolverAdmission>();
    assert_no_heap::<SolverTarget>();
    assert_no_heap::<VerificationIntake>();
    assert_no_heap::<VerificationOutcome>();
    assert_no_heap::<AdmittedVerification<u32>>();
    assert_no_heap::<HephaestusError>();
    assert_no_heap::<RecordedClaim>();
    assert_no_heap::<UnpinnedDependency>();
}

#[test]
fn planning_at_the_bound_changes_no_storage() {
    let engine = BrepEvaluator::new(CadEngine::ExactNurbsBrep, Tolerance::scaffold());
    let config = MeshConfig::new(100, 2_000, true).unwrap();
    let plan = engine.mesh(config, MAX_MESH_ELEMENTS).unwrap();
    assert_eq!(size_of_val(&plan), size_of::<MeshPlan>());
    assert_eq!(size_of_val(&engine), size_of::<BrepEvaluator>());
    assert!(size_of::<MeshPlan>() >= size_of::<MeshElementCount>());
}

#[test]
fn every_refusal_names_its_bound() {
    assert_eq!(
        HephaestusError::MeshElementsOutOfRange { elements: 500_001, max: 500_000 }.message(),
        "a mesh of 500001 elements exceeds the bound of 500000"
    );
    assert_eq!(
        HephaestusError::ElementSizeRangeInvalid { min: 3_000, max: 2_000 }.message(),
        "a mesh element size range of 3000..=2000 micrometres is empty or inverted"
    );
    assert_eq!(
        HephaestusError::ToleranceOutOfRange { micrometres: 0, min: 1, max: 1_000 }.message(),
        "a tolerance of 0 micrometres is outside 1..=1000"
    );
    assert_eq!(
        HephaestusError::StepSourceMissing.message(),
        "a geometry evaluation was asked for without a STEP source path"
    );
    assert_eq!(
        HephaestusError::UnknownSolver.message(),
        "no admitted solver is named by the offered tag"
    );
    assert_eq!(
        HephaestusError::Identifier(aegis::hephaestus::IdError::Empty).message(),
        "an identifier was refused: a STEP source path is empty"
    );
}
