//! The bounded geometry evaluation: tolerances, element counts and size
//! ranges as checked values, and a face walk that stops at its iteration
//! bound. No CAD kernel is linked and no file is read: the walk counts, and
//! reports only whether it reached the end of the count.

use vstd::prelude::*;
use crate::hephaestus::error::HephaestusError;
use crate::hephaestus::id::StepPath;

verus! {

/// Scalar upper bound on the face walk of one evaluation.
pub const MAX_GEOMETRY_ITERATIONS: usize = 1000;

/// Scalar upper bound on the elements of one mesh.
pub const MAX_MESH_ELEMENTS: usize = 500000;

/// The smallest admissible tolerance, in micrometres.
pub const MIN_TOLERANCE_MICROMETRES: u32 = 1;

/// The largest admissible tolerance, in micrometres.
pub const MAX_TOLERANCE_MICROMETRES: u32 = 1000;

/// The `STEP` application protocols this build admits.
#[derive(Debug, Clone, Copy, PartialEq, Eq, Hash, Structural)]
#[non_exhaustive]
pub enum StepSchema {
    /// `AP242`.
    Ap242,
}

impl StepSchema {
    /// The only protocol this build admits.
    pub const ADMITTED: StepSchema = StepSchema::Ap242;

    /// The stable tag the wire form carries.
    pub fn tag(self) -> (r: &'static str)
        ensures
            r@ == "AP242"@,
    {
        match self {
            StepSchema::Ap242 => "AP242",
        }
    }
}

/// The two geometry engines the sources name.
#[derive(Debug, Clone, Copy, PartialEq, Eq, Hash, Structural)]
#[non_exhaustive]
pub enum CadEngine {
    /// Exact `NURBS` boundary representation, for `STEP` interchange.
    ExactNurbsBrep,
    /// Polyhedral constructive solid geometry, for watertight booleans.
    PolyhedralCsg,
}

impl CadEngine {
    /// Both engines, in the order the sources list them.
    pub const BOTH: [CadEngine; 2] = [CadEngine::ExactNurbsBrep, CadEngine::PolyhedralCsg];

    /// The stable tag the wire form carries.
    pub fn tag(self) -> (r: &'static str)
        ensures
            r@ == (match self {
                CadEngine::ExactNurbsBrep => "exact-nurbs-brep"@,
                CadEngine::PolyhedralCsg => "polyhedral-csg"@,
            }),
    {
        match self {
            CadEngine::ExactNurbsBrep => "exact-nurbs-brep",
            CadEngine::PolyhedralCsg => "polyhedral-csg",
        }
    }

    /// Returns `true` for the engine that reads `STEP` directly.
    pub fn reads_step(self) -> (r: bool)
        ensures
            r == (self == CadEngine::ExactNurbsBrep),
    {
        match self {
            CadEngine::ExactNurbsBrep => true,
            CadEngine::PolyhedralCsg => false,
        }
    }
}

/// A geometry tolerance in micrometres, inside
/// `MIN_TOLERANCE_MICROMETRES..=MAX_TOLERANCE_MICROMETRES`.
#[derive(Debug, Clone, Copy, PartialEq, Eq, PartialOrd, Ord, Hash, Structural)]
pub struct Tolerance(u32);

impl View for Tolerance {
    type V = u32;

    closed spec fn view(&self) -> u32 {
        self.0
    }
}

impl Tolerance {
    #[verifier::type_invariant]
    closed spec fn well_formed(self) -> bool {
        MIN_TOLERANCE_MICROMETRES <= self.0 <= MAX_TOLERANCE_MICROMETRES
    }

    /// The scaffold's own tolerance: `0.001` millimetres, one micrometre.
    pub fn scaffold() -> (r: Self)
        ensures
            r@ == 1,
    {
        Tolerance(1)
    }

    /// Parses `micrometres` into a tolerance.
    pub fn new(micrometres: u32) -> (r: Result<Self, HephaestusError>)
        ensures
            match r {
                Ok(t) => MIN_TOLERANCE_MICROMETRES <= micrometres <= MAX_TOLERANCE_MICROMETRES
                    && t@ == micrometres,
                Err(e) => !(MIN_TOLERANCE_MICROMETRES <= micrometres <= MAX_TOLERANCE_MICROMETRES)
                    && e == HephaestusError::ToleranceOutOfRange {
                    micrometres,
                    min: MIN_TOLERANCE_MICROMETRES,
                    max: MAX_TOLERANCE_MICROMETRES,
                },
            },
    {
        if micrometres < MIN_TOLERANCE_MICROMETRES || micrometres > MAX_TOLERANCE_MICROMETRES {
            return Err(
                HephaestusError::ToleranceOutOfRange {
                    micrometres,
                    min: MIN_TOLERANCE_MICROMETRES,
                    max: MAX_TOLERANCE_MICROMETRES,
                },
            );
        }
        Ok(Tolerance(micrometres))
    }

    /// The tolerance in micrometres.
    pub fn get(self) -> (r: u32)
        ensures
            r == self@,
            MIN_TOLERANCE_MICROMETRES <= r <= MAX_TOLERANCE_MICROMETRES,
    {
        proof {
            use_type_invariant(&self);
        }
        self.0
    }
}

/// A mesh element count inside [`MAX_MESH_ELEMENTS`]; zero is admissible.
#[derive(Debug, Clone, Copy, PartialEq, Eq, PartialOrd, Ord, Hash, Structural)]
pub struct MeshElementCount(usize);

impl View for MeshElementCount {
    type V = usize;

    closed spec fn view(&self) -> usize {
        self.0
    }
}

impl MeshElementCount {
    #[verifier::type_invariant]
    closed spec fn well_formed(self) -> bool {
        self.0 <= MAX_MESH_ELEMENTS
    }

    /// Parses `elements` into an element count.
    pub fn new(elements: usize) -> (r: Result<Self, HephaestusError>)
        ensures
            match r {
                Ok(c) => elements <= MAX_MESH_ELEMENTS && c@ == elements,
                Err(e) => elements > MAX_MESH_ELEMENTS && e
                    == HephaestusError::MeshElementsOutOfRange {
                    elements,
                    max: MAX_MESH_ELEMENTS,
                },
            },
    {
        if elements > MAX_MESH_ELEMENTS {
            return Err(HephaestusError::MeshElementsOutOfRange { elements, max: MAX_MESH_ELEMENTS });
        }
        Ok(MeshElementCount(elements))
    }

    /// The element count.
    pub fn get(self) -> (r: usize)
        ensures
            r == self@,
            r <= MAX_MESH_ELEMENTS,
    {
        proof {
            use_type_invariant(&self);
        }
        self.0
    }
}

/// A mesh configuration: a non-empty element size range in micrometres and
/// whether boundary-layer refinement is asked for.
#[derive(Debug, Clone, Copy, PartialEq, Eq, Hash, Structural)]
pub struct MeshConfig {
    min_micrometres: u32,
    max_micrometres: u32,
    boundary_layer_refinement: bool,
}

impl View for MeshConfig {
    type V = (u32, u32, bool);

    closed spec fn view(&self) -> (u32, u32, bool) {
        (self.min_micrometres, self.max_micrometres, self.boundary_layer_refinement)
    }
}

impl MeshConfig {
    #[verifier::type_invariant]
    closed spec fn well_formed(self) -> bool {
        0 < self.min_micrometres <= self.max_micrometres
    }

    /// Builds a mesh configuration, refusing a smallest element size of zero
    /// or one larger than the largest.
    pub fn new(min_micrometres: u32, max_micrometres: u32, boundary_layer_refinement: bool) -> (r:
        Result<Self, HephaestusError>)
        ensures
            match r {
                Ok(c) => 0 < min_micrometres <= max_micrometres && c@ == (
                    min_micrometres,
                    max_micrometres,
                    boundary_layer_refinement,
                ),
                Err(e) => !(0 < min_micrometres <= max_micrometres) && e
                    == HephaestusError::ElementSizeRangeInvalid {
                    min: min_micrometres,
                    max: max_micrometres,
                },
            },
    {
        if min_micrometres == 0 || min_micrometres > max_micrometres {
            return Err(
                HephaestusError::ElementSizeRangeInvalid {
                    min: min_micrometres,
                    max: max_micrometres,
                },
            );
        }
        Ok(MeshConfig { min_micrometres, max_micrometres, boundary_layer_refinement })
    }

    /// The smallest element size, in micrometres.
    pub fn min_micrometres(&self) -> (r: u32)
        ensures
            r == self@.0,
            0 < r <= self@.1,
    {
        proof {
            use_type_invariant(self);
        }
        self.min_micrometres
    }

    /// The largest element size, in micrometres.
    pub fn max_micrometres(&self) -> (r: u32)
        ensures
            r == self@.1,
    {
        self.max_micrometres
    }

    /// Whether boundary-layer refinement was asked for.
    pub fn boundary_layer_refinement(&self) -> (r: bool)
        ensures
            r == self@.2,
    {
        self.boundary_layer_refinement
    }
}

/// How a face walk ended. There is deliberately no watertightness claim:
/// the walk counts, and says only whether it reached the end.
#[derive(Debug, Clone, Copy, PartialEq, Eq, Hash, Structural)]
#[non_exhaustive]
pub enum EvaluationOutcome {
    /// Every face was walked inside the iteration bound.
    Completed { iterations: usize },
    /// The walk stopped at the bound with faces left, so nothing is concluded.
    StoppedAtIterationBound { max: usize },
}

impl EvaluationOutcome {
    /// Returns `true` only when the walk finished inside the bound.
    pub fn is_complete(self) -> (r: bool)
        ensures
            r == (self is Completed),
    {
        match self {
            EvaluationOutcome::Completed { .. } => true,
            EvaluationOutcome::StoppedAtIterationBound { .. } => false,
        }
    }
}

/// The outcome of walking `faces` faces: complete within
/// [`MAX_GEOMETRY_ITERATIONS`], stopped at the bound otherwise.
pub open spec fn walk_outcome(faces: usize) -> EvaluationOutcome {
    if faces <= MAX_GEOMETRY_ITERATIONS {
        EvaluationOutcome::Completed { iterations: faces }
    } else {
        EvaluationOutcome::StoppedAtIterationBound { max: MAX_GEOMETRY_ITERATIONS }
    }
}

/// A boundary-representation evaluator for one engine at one tolerance.
#[derive(Debug, Clone, Copy, PartialEq, Eq, Hash, Structural)]
pub struct BrepEvaluator {
    engine: CadEngine,
    schema: StepSchema,
    tolerance: Tolerance,
}

impl BrepEvaluator {
    /// Builds an evaluator for `engine` at `tolerance`, admitting `AP242`.
    pub fn new(engine: CadEngine, tolerance: Tolerance) -> (r: Self)
        ensures
            r.engine_spec() == engine,
            r.tolerance_spec() == tolerance,
    {
        BrepEvaluator { engine, schema: StepSchema::ADMITTED, tolerance }
    }

    /// The engine the evaluator was built for.
    pub closed spec fn engine_spec(self) -> CadEngine {
        self.engine
    }

    /// The tolerance the evaluator was built for.
    pub closed spec fn tolerance_spec(self) -> Tolerance {
        self.tolerance
    }

    /// The engine this evaluator was built for.
    pub fn engine(&self) -> (r: CadEngine)
        ensures
            r == self.engine_spec(),
    {
        self.engine
    }

    /// The `STEP` protocol this evaluator admits.
    pub fn schema(&self) -> (r: StepSchema)
        ensures
            r == StepSchema::Ap242,
    {
        match self.schema {
            StepSchema::Ap242 => StepSchema::Ap242,
        }
    }

    /// The tolerance this evaluator was built for.
    pub fn tolerance(&self) -> (r: Tolerance)
        ensures
            r == self.tolerance_spec(),
    {
        self.tolerance
    }

    /// Walks `faces` topological faces of the named source, inside the
    /// bound. A request that names no source is refused.
    pub fn evaluate(&self, source: Option<StepPath>, faces: usize) -> (r: Result<
        EvaluationOutcome,
        HephaestusError,
    >)
        ensures
            match r {
                Ok(outcome) => source is Some && outcome == walk_outcome(faces),
                Err(e) => source is None && e == HephaestusError::StepSourceMissing,
            },
    {
        if source.is_none() {
            return Err(HephaestusError::StepSourceMissing);
        }
        let mut walked: usize = 0;
        while walked < MAX_GEOMETRY_ITERATIONS && walked < faces
            invariant
                walked <= MAX_GEOMETRY_ITERATIONS,
                walked <= faces,
            decreases MAX_GEOMETRY_ITERATIONS - walked,
        {
            walked = walked + 1;
        }
        if walked < faces {
            return Ok(EvaluationOutcome::StoppedAtIterationBound { max: MAX_GEOMETRY_ITERATIONS });
        }
        Ok(EvaluationOutcome::Completed { iterations: walked })
    }

    /// Plans a mesh of `elements` elements under `config`.
    pub fn mesh(&self, config: MeshConfig, elements: usize) -> (r: Result<
        MeshPlan,
        HephaestusError,
    >)
        ensures
            match r {
                Ok(plan) => elements <= MAX_MESH_ELEMENTS && plan.engine == self.engine_spec()
                    && plan.config == config && plan.elements@ == elements,
                Err(e) => elements > MAX_MESH_ELEMENTS && e
                    == HephaestusError::MeshElementsOutOfRange {
                    elements,
                    max: MAX_MESH_ELEMENTS,
                },
            },
    {
        let count = match MeshElementCount::new(elements) {
            Ok(count) => count,
            Err(e) => return Err(e),
        };
        Ok(MeshPlan { engine: self.engine, config, elements: count })
    }
}

/// A planned mesh: the engine, the element size range and refinement flag,
/// and the validated element count.
#[derive(Debug, Clone, Copy, PartialEq, Eq, Hash, Structural)]
pub struct MeshPlan {
    /// The engine the plan was made for.
    pub engine: CadEngine,
    /// The element size range and refinement flag the caller asked for.
    pub config: MeshConfig,
    /// The validated element count, inside [`MAX_MESH_ELEMENTS`].
    pub elements: MeshElementCount,
}

} // verus!
