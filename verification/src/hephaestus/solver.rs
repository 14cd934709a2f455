//! The recorded solver set and the admission of solver tags against it.
//! Nothing here starts a solver: a target is a name, a domain and the slice
//! the sources declare it runs in.

use vstd::prelude::*;
use crate::hephaestus::error::HephaestusError;
use crate::text::same_text;

verus! {

/// The slice the sources declare every solver runs in. Recorded, not
/// created.
pub const SOLVER_SLICE: &'static str = "agent-solver.slice";

/// The solvers the recorded set admits.
#[derive(Debug, Clone, Copy, PartialEq, Eq, Hash, Structural)]
#[non_exhaustive]
pub enum SolverTarget {
    /// The computational fluid dynamics solver the sources name first.
    OpenFoam,
    /// The structural and thermal finite-element solver.
    CalculiX,
    /// The multiphysics finite-element solver named beside it.
    Elmer,
}

/// The tag the scaffold's dispatch matches on, verbatim.
pub open spec fn solver_tag(t: SolverTarget) -> Seq<char> {
    match t {
        SolverTarget::OpenFoam => "OpenFOAM"@,
        SolverTarget::CalculiX => "CalculiX"@,
        SolverTarget::Elmer => "Elmer"@,
    }
}

/// The solver a tag names exactly, case-sensitively, if any.
pub open spec fn solver_named(tag: Seq<char>) -> Option<SolverTarget> {
    if tag == solver_tag(SolverTarget::OpenFoam) {
        Some(SolverTarget::OpenFoam)
    } else if tag == solver_tag(SolverTarget::CalculiX) {
        Some(SolverTarget::CalculiX)
    } else if tag == solver_tag(SolverTarget::Elmer) {
        Some(SolverTarget::Elmer)
    } else {
        None
    }
}

impl SolverTarget {
    /// Every admitted solver, in the order the sources list them.
    pub const ALL: [SolverTarget; 3] = [
        SolverTarget::OpenFoam,
        SolverTarget::CalculiX,
        SolverTarget::Elmer,
    ];

    /// The tag the scaffold's dispatch matches on, verbatim.
    pub fn tag(self) -> (r: &'static str)
        ensures
            r@ == solver_tag(self),
    {
        match self {
            SolverTarget::OpenFoam => "OpenFOAM",
            SolverTarget::CalculiX => "CalculiX",
            SolverTarget::Elmer => "Elmer",
        }
    }

    /// The physics domain the sources give for this solver.
    pub fn domain(self) -> (r: &'static str)
        ensures
            r@ == (match self {
                SolverTarget::OpenFoam => "computational fluid dynamics"@,
                _ => "structural and thermal finite elements"@,
            }),
    {
        match self {
            SolverTarget::OpenFoam => "computational fluid dynamics",
            _ => "structural and thermal finite elements",
        }
    }

    /// The slice the sources declare this solver runs in.
    pub fn declared_slice(self) -> (r: &'static str)
        ensures
            r == SOLVER_SLICE,
    {
        SOLVER_SLICE
    }

    /// The solver `tag` names, if the recorded set holds one; the comparison
    /// is exact and case-sensitive.
    pub fn from_tag(tag: &str) -> (r: Option<SolverTarget>)
        ensures
            r == solver_named(tag@),
    {
        proof {
            reveal_strlit("OpenFOAM");
            reveal_strlit("CalculiX");
            reveal_strlit("Elmer");
        }
        if same_text(SolverTarget::OpenFoam.tag(), tag) {
            Some(SolverTarget::OpenFoam)
        } else if same_text(SolverTarget::CalculiX.tag(), tag) {
            Some(SolverTarget::CalculiX)
        } else if same_text(SolverTarget::Elmer.tag(), tag) {
            Some(SolverTarget::Elmer)
        } else {
            None
        }
    }
}

/// The admission of solver tags, with saturating counts of what it admitted
/// and refused.
#[derive(Debug, Clone, Copy, PartialEq, Eq, Structural)]
pub struct SolverAdmission {
    admitted: u64,
    refused: u64,
}

impl View for SolverAdmission {
    type V = (u64, u64);

    /// How many tags were admitted, and how many refused.
    closed spec fn view(&self) -> (u64, u64) {
        (self.admitted, self.refused)
    }
}

/// `n + 1`, saturating at `u64::MAX`.
pub open spec fn bumped(n: u64) -> u64 {
    if n == u64::MAX {
        n
    } else {
        (n + 1) as u64
    }
}

impl SolverAdmission {
    /// An admission that has seen nothing.
    pub fn new() -> (r: Self)
        ensures
            r@ == (0u64, 0u64),
    {
        SolverAdmission { admitted: 0, refused: 0 }
    }

    /// Admits `tag` if the recorded set names it, counting the outcome.
    pub fn admit_tag(&mut self, tag: &str) -> (r: Result<SolverTarget, HephaestusError>)
        ensures
            match solver_named(tag@) {
                Some(target) => r == Ok::<SolverTarget, HephaestusError>(target) && final(self)@
                    == (bumped(old(self)@.0), old(self)@.1),
                None => r == Err::<SolverTarget, HephaestusError>(HephaestusError::UnknownSolver)
                    && final(self)@ == (old(self)@.0, bumped(old(self)@.1)),
            },
    {
        match SolverTarget::from_tag(tag) {
            Some(target) => {
                self.admitted = self.admitted.saturating_add(1);
                Ok(target)
            },
            None => {
                self.refused = self.refused.saturating_add(1);
                Err(HephaestusError::UnknownSolver)
            },
        }
    }

    /// How many tags were admitted.
    pub fn admitted(&self) -> (r: u64)
        ensures
            r == self@.0,
    {
        self.admitted
    }

    /// How many tags were refused.
    pub fn refused(&self) -> (r: u64)
        ensures
            r == self@.1,
    {
        self.refused
    }
}

impl Default for SolverAdmission {
    fn default() -> (r: Self)
        ensures
            r@ == (0u64, 0u64),
    {
        SolverAdmission::new()
    }
}

} // verus!
