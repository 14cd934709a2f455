//! The geometry slice requirements this slice records rather than settles,
//! and the tools the sources name without a version.

use vstd::prelude::*;

verus! {

/// The source of a recorded claim: an export and the first twelve
/// hexadecimal characters of its sha256.
#[derive(Debug, Clone, Copy, PartialEq, Eq, Hash)]
pub struct ClaimSource {
    /// The export identifier of the source.
    pub export: &'static str,
    /// The first twelve hexadecimal characters of that export's sha256.
    pub sha256_prefix: &'static str,
}

/// What standing a recorded claim has.
#[derive(Debug, Clone, Copy, PartialEq, Eq, Hash, Structural)]
#[non_exhaustive]
pub enum ClaimStatus {
    /// A requirement whose evidence needs a dependency no gate has admitted.
    DeferredDependency,
    /// A requirement whose evidence needs a running kernel feature.
    DeferredRuntimeIsolation,
    /// A recorded artefact that is excluded from every activation gate.
    ExcludedFromGates,
}

impl ClaimStatus {
    /// The stable name this status is recorded under.
    pub fn name(self) -> (r: &'static str)
        ensures
            r@ == (match self {
                ClaimStatus::DeferredDependency => "deferred-dependency"@,
                ClaimStatus::DeferredRuntimeIsolation => "deferred-runtime-isolation"@,
                ClaimStatus::ExcludedFromGates => "excluded-from-gates"@,
            }),
    {
        match self {
            ClaimStatus::DeferredDependency => "deferred-dependency",
            ClaimStatus::DeferredRuntimeIsolation => "deferred-runtime-isolation",
            ClaimStatus::ExcludedFromGates => "excluded-from-gates",
        }
    }
}

/// One recorded claim.
#[derive(Debug, Clone, Copy, PartialEq, Eq)]
pub struct RecordedClaim {
    /// The recorded requirement identifier.
    pub requirement: &'static str,
    /// What the requirement says, in one line.
    pub summary: &'static str,
    /// What standing the claim has.
    pub status: ClaimStatus,
    /// What would be needed to settle it.
    pub settled_by: &'static str,
    /// The source that states it.
    pub source: ClaimSource,
}

/// A tool the sources name with no version.
#[derive(Debug, Clone, Copy, PartialEq, Eq, Hash)]
pub struct UnpinnedDependency {
    /// The tool as the sources name it.
    pub name: &'static str,
    /// What it would be used for.
    pub role: &'static str,
    /// Why no version is recorded.
    pub why_unpinned: &'static str,
}

impl UnpinnedDependency {
    /// Returns `false`: no row carries a version.
    pub fn is_pinned(&self) -> (r: bool)
        ensures
            !r,
    {
        false
    }
}

/// The four recorded claims, in register order.
pub fn p14_recorded_claims() -> (r: [RecordedClaim; 4])
    ensures
        r@[0].requirement@ == "REQ-P14-01"@ && r@[0].status == ClaimStatus::DeferredDependency,
        r@[1].requirement@ == "REQ-P14-03"@ && r@[1].status == ClaimStatus::DeferredRuntimeIsolation,
        r@[2].requirement@ == "REQ-P14-04"@ && r@[2].status == ClaimStatus::DeferredDependency,
        r@[3].requirement@ == "REQ-P14-08"@ && r@[3].status == ClaimStatus::ExcludedFromGates,
{
    [
        RecordedClaim {
            requirement: "REQ-P14-01",
            summary: "a dual-engine approach, exact NURBS and polyhedral CSG, closes the \
                      proprietary-kernel gap while keeping watertight meshes",
            status: ClaimStatus::DeferredDependency,
            settled_by: "two kernels selected through the template matrix and admitted by a gate; \
                         this crate links neither and carries the two engines as names",
            source: ClaimSource {
                export: "export-021",
                sha256_prefix: "6a3cda152e6c",
            },
        },
        RecordedClaim {
            requirement: "REQ-P14-03",
            summary: "multi-physics solver execution is isolated in cgroups v2 slices under the \
                      architecture's resource-isolation contract",
            status: ClaimStatus::DeferredRuntimeIsolation,
            settled_by: "a running kernel with the slice created and a process placed in it; this \
                         crate writes no cgroup file and starts no solver, and carries the slice \
                         name as a recorded string",
            source: ClaimSource {
                export: "export-021",
                sha256_prefix: "6a3cda152e6c",
            },
        },
        RecordedClaim {
            requirement: "REQ-P14-04",
            summary: "generated code-CAD must pass symbolic solver verification as a hard gate \
                      before promotion",
            status: ClaimStatus::DeferredDependency,
            settled_by: "a solver foreign-function interface admitted by a gate; neither this \
                         crate nor aegis-minerva admits one, which is why the intake outcome has \
                         no variant meaning verified",
            source: ClaimSource {
                export: "export-021",
                sha256_prefix: "6a3cda152e6c",
            },
        },
        RecordedClaim {
            requirement: "REQ-P14-08",
            summary: "the imported test target runs a script whose steps print simulated boot and \
                      measurement passes",
            status: ClaimStatus::ExcludedFromGates,
            settled_by: "nothing further: the imported target is not this repository's gate, the \
                         script is not run here, and the Makefile recipe is the authoritative \
                         list of what the repository checks run",
            source: ClaimSource {
                export: "export-009",
                sha256_prefix: "3068c85b768a",
            },
        },
    ]
}

/// The five tools named without a version: the two kernels, then the three
/// solvers.
pub fn unpinned_dependencies() -> (r: [UnpinnedDependency; 5])
    ensures
        r@[0].name@ == "exact NURBS B-Rep kernel"@,
        r@[1].name@ == "polyhedral CSG kernel"@,
        r@[2].name@ == "OpenFOAM"@,
        r@[3].name@ == "CalculiX"@,
        r@[4].name@ == "Elmer"@,
{
    [
        UnpinnedDependency {
            name: "exact NURBS B-Rep kernel",
            role: "boundary representation and STEP interchange",
            why_unpinned: "the imported dependency table carries no version for it, and no gate \
                           has admitted a kernel",
        },
        UnpinnedDependency {
            name: "polyhedral CSG kernel",
            role: "watertight boolean operations",
            why_unpinned: "the imported dependency table carries no version for it, and no gate \
                           has admitted a kernel",
        },
        UnpinnedDependency {
            name: "OpenFOAM",
            role: "computational fluid dynamics solver",
            why_unpinned: "named by the source and by no version; a licence decision for solver \
                           bindings is still recorded as an activation blocker for P14",
        },
        UnpinnedDependency {
            name: "CalculiX",
            role: "structural and thermal finite-element solver",
            why_unpinned: "named by the source and by no version; the same licence decision is \
                           outstanding",
        },
        UnpinnedDependency {
            name: "Elmer",
            role: "multiphysics finite-element solver",
            why_unpinned: "named by the source and by no version; the same licence decision is \
                           outstanding",
        },
    ]
}

} // verus!
