//! The decision register the compositor rests on: how the compositor is
//! implemented, which backend this build admits, and the two upstream crates
//! that were checked and not admitted. The rejected options stay
//! representable, so the register states a choice between three readings.

use vstd::prelude::*;

verus! {

/// Whether a recorded decision is settled.
#[derive(Debug, Clone, Copy, PartialEq, Eq, Hash, Structural)]
#[non_exhaustive]
pub enum DecisionState {
    /// The decision is settled and the register names what was chosen.
    Closed,
    /// The decision is recorded but not settled.
    Unresolved,
}

impl DecisionState {
    /// The stable name this state is recorded under.
    pub fn name(self) -> (r: &'static str)
        ensures
            r@ == (match self {
                DecisionState::Closed => "closed"@,
                DecisionState::Unresolved => "unresolved"@,
            }),
    {
        match self {
            DecisionState::Closed => "closed",
            DecisionState::Unresolved => "unresolved",
        }
    }
}

/// The three ways the compositor could be implemented.
#[derive(Debug, Clone, Copy, PartialEq, Eq, Hash, Structural)]
#[non_exhaustive]
pub enum CompositorImplementation {
    /// Pure Rust, with no foreign-function compositor boundary.
    PureRust,
    /// A C wlroots implementation owning the event loop.
    CWlrootsBinding,
    /// A higher-level framework, libweston or Smithay, which the blueprint
    /// rejects for the fast runtime loop.
    HigherLevelFramework,
}

/// The stable name an option is recorded under.
pub open spec fn implementation_name(i: CompositorImplementation) -> Seq<char> {
    match i {
        CompositorImplementation::PureRust => "pure-rust-compositor"@,
        CompositorImplementation::CWlrootsBinding => "c-wlroots-binding"@,
        CompositorImplementation::HigherLevelFramework => "higher-level-framework"@,
    }
}

impl CompositorImplementation {
    /// All three options, in the order the register lists them.
    pub const ALL: [CompositorImplementation; 3] = [
        CompositorImplementation::PureRust,
        CompositorImplementation::CWlrootsBinding,
        CompositorImplementation::HigherLevelFramework,
    ];

    /// The stable name this option is recorded under.
    pub fn name(self) -> (r: &'static str)
        ensures
            r@ == implementation_name(self),
    {
        match self {
            CompositorImplementation::PureRust => "pure-rust-compositor",
            CompositorImplementation::CWlrootsBinding => "c-wlroots-binding",
            CompositorImplementation::HigherLevelFramework => "higher-level-framework",
        }
    }

    /// Returns `true` when the option would admit a C toolchain and a
    /// foreign-function boundary into the workspace.
    pub fn adds_c_toolchain(self) -> (r: bool)
        ensures
            r == (self == CompositorImplementation::CWlrootsBinding),
    {
        match self {
            CompositorImplementation::CWlrootsBinding => true,
            _ => false,
        }
    }

    /// Returns `true` when the blueprint rejects the option outright.
    pub fn rejected_by_blueprint(self) -> (r: bool)
        ensures
            r == (self == CompositorImplementation::HigherLevelFramework),
    {
        match self {
            CompositorImplementation::HigherLevelFramework => true,
            _ => false,
        }
    }
}

/// The compositor backends this build admits.
#[derive(Debug, Clone, Copy, PartialEq, Eq, Hash, Structural)]
#[non_exhaustive]
pub enum AdmittedBackend {
    /// A pure Rust backend, unpinned and not yet selected as a package.
    PureRustBackendAgnostic,
}

impl AdmittedBackend {
    /// The backend the decision settled, and the only one this build admits.
    pub const SETTLED: AdmittedBackend = AdmittedBackend::PureRustBackendAgnostic;

    /// The stable tag this backend is recorded under.
    pub fn tag(self) -> (r: &'static str)
        ensures
            r@ == "pure-rust-backend-agnostic"@,
    {
        match self {
            AdmittedBackend::PureRustBackendAgnostic => "pure-rust-backend-agnostic",
        }
    }

    /// The register option this admitted backend instantiates.
    pub fn implementation(self) -> (r: CompositorImplementation)
        ensures
            r == CompositorImplementation::PureRust,
    {
        match self {
            AdmittedBackend::PureRustBackendAgnostic => CompositorImplementation::PureRust,
        }
    }
}

/// One source of a recorded question: an export and the first twelve
/// hexadecimal characters of its sha256.
#[derive(Debug, Clone, Copy, PartialEq, Eq, Hash)]
pub struct Citation {
    /// The export identifier.
    pub export: &'static str,
    /// The first twelve hexadecimal characters of that source's sha256.
    pub sha256_prefix: &'static str,
}

/// One recorded decision.
#[derive(Debug, Clone, Copy, PartialEq, Eq)]
pub struct DecisionRecord {
    /// The decision identifier.
    pub id: &'static str,
    /// The question the decision answers.
    pub question: &'static str,
    /// Whether the decision is settled.
    pub state: DecisionState,
    /// The option that was chosen.
    pub chosen: CompositorImplementation,
    /// The options that were not chosen.
    pub rejected: [CompositorImplementation; 2],
    /// What the choice rests on.
    pub rationale: &'static str,
    /// The milestone that applies the decision.
    pub applied_at: &'static str,
    /// The architecture decision record that carries it.
    pub adr: &'static str,
    /// The requirements the decision touches.
    pub touches: [&'static str; 2],
    /// The dispute this decision closes.
    pub dispute: &'static str,
    /// The sources that posed the question.
    pub sources: [Citation; 2],
}

/// The compositor implementation decision: pure Rust, with the C wlroots
/// binding and the higher-level frameworks rejected.
pub fn d08_compositor_implementation() -> (r: DecisionRecord)
    ensures
        r.state == DecisionState::Closed,
        r.chosen == CompositorImplementation::PureRust,
        r.rejected@ == seq![
            CompositorImplementation::CWlrootsBinding,
            CompositorImplementation::HigherLevelFramework,
        ],
        r.id@ == "D08"@,
        r.applied_at@ == "M07"@,
        r.adr@ == "ADR-0001"@,
        r.dispute@ == "DSP-23"@,
        r.touches@.len() == 2,
        r.touches@[0]@ == "REQ-P04-01"@,
        r.touches@[1]@ == "REQ-P04-04"@,
        r.sources@.len() == 2,
        r.sources@[0].export@ == "export-013"@,
        r.sources@[0].sha256_prefix@ == "7f4c22813332"@,
        r.sources@[1].export@ == "export-027"@,
        r.sources@[1].sha256_prefix@ == "f19640d7a7da"@,
{
    proof {
        reveal_strlit("D08");
        reveal_strlit("M07");
    }
    let r = DecisionRecord {
        id: "D08",
        question: "Is P04 implemented against a C wlroots core, as the blueprint mandates, or in \
                   pure Rust, as the only code candidate is?",
        state: DecisionState::Closed,
        chosen: CompositorImplementation::PureRust,
        rejected: [
            CompositorImplementation::CWlrootsBinding,
            CompositorImplementation::HigherLevelFramework,
        ],
        rationale: "the C mandate would add a C toolchain, a foreign-function boundary and a \
                    second memory-safety regime to the component at the centre of the mesh, and \
                    no wlroots version is pinned in any source; the blueprint's own latency \
                    argument for it is unbacked, and a budget is a claim this milestone cannot \
                    measure either way",
        applied_at: "M07",
        adr: "ADR-0001",
        touches: ["REQ-P04-01", "REQ-P04-04"],
        dispute: "DSP-23",
        sources: [
            Citation {
                export: "export-013",
                sha256_prefix: "7f4c22813332",
            },
            Citation {
                export: "export-027",
                sha256_prefix: "f19640d7a7da",
            },
        ],
    };
    assert(r.rejected@ =~= seq![
        CompositorImplementation::CWlrootsBinding,
        CompositorImplementation::HigherLevelFramework,
    ]);
    r
}

/// One upstream crate check.
#[derive(Debug, Clone, Copy, PartialEq, Eq)]
pub struct UpstreamCheck {
    /// The crate that was checked.
    pub crate_name: &'static str,
    /// The version requirement the imported manifest proposes, if any.
    pub proposed_requirement: &'static str,
    /// Whether this repository inherits that proposed requirement.
    pub inherits_proposal: bool,
    /// The highest stable version upstream reported.
    pub upstream_max_stable: &'static str,
    /// The date upstream published that version.
    pub upstream_released_on: &'static str,
    /// The date the check was run.
    pub checked_on: &'static str,
    /// The command the version and its date were read with; it carries the
    /// `User-Agent` header the registry requires.
    pub version_command: &'static str,
    /// The command the direct-dependency counts were read with.
    pub dependency_command: &'static str,
    /// Whether this milestone admits the crate as a dependency.
    pub admitted_here: bool,
    /// Where the admission would be made instead.
    pub admitted_at: &'static str,
    /// Why the outcome is what it is.
    pub reason: &'static str,
}

/// The check of the mesh transport crate: not admitted here.
pub fn zenoh_check() -> (r: UpstreamCheck)
    ensures
        r.crate_name@ == "zenoh"@,
        r.proposed_requirement@ == "1.0"@,
        r.upstream_max_stable@ == "1.10.1"@,
        r.upstream_released_on@ == "2026-09-07"@,
        r.checked_on@ == "2026-09-13"@,
        !r.inherits_proposal,
        !r.admitted_here,
{
    UpstreamCheck {
        crate_name: "zenoh",
        proposed_requirement: "1.0",
        inherits_proposal: false,
        upstream_max_stable: "1.10.1",
        upstream_released_on: "2026-09-07",
        checked_on: "2026-09-13",
        version_command: "curl -sS -H 'User-Agent: aegis-os-upstream-check \
                          (https://github.com/cordanaLLM/Aegis-OS)' \
                          https://crates.io/api/v1/crates/zenoh | jq -r '.crate.max_stable_version, \
                          (.versions[] | select(.num == \"1.10.1\") | .created_at)'",
        dependency_command: "curl -sS -H 'User-Agent: aegis-os-upstream-check \
                             (https://github.com/cordanaLLM/Aegis-OS)' \
                             https://crates.io/api/v1/crates/zenoh/1.10.1/dependencies | jq -c \
                             '[.dependencies[] | select(.kind == \"normal\")] | \
                             group_by(.optional) | map({optional: .[0].optional, count: length})'",
        admitted_here: false,
        admitted_at: "the milestone that first carries a payload between two processes; M23 for \
                      the P07 and P08 timing path, M12 for the display path",
        reason: "the acceptance this milestone has to meet is a mocked transport test, and \
                 MockedMesh is that mock. The dependency command reported 44 normal-kind direct \
                 dependencies on the 1.10.1 release, of which 42 are required and 2 optional; \
                 tokio is among the required ones, and none of them would this gate execute, so \
                 admitting it would add a resolution graph larger than the slice it was added \
                 for. The proposed 1.0 requirement is two minor series behind current upstream, \
                 which is exactly why an imported pin is proposal data",
    }
}

/// The check of the compositor library crate: not admitted here.
pub fn compositor_library_check() -> (r: UpstreamCheck)
    ensures
        r.crate_name@ == "smithay"@,
        r.upstream_max_stable@ == "0.7.0"@,
        r.upstream_released_on@ == "2025-06-24"@,
        r.checked_on@ == "2026-09-13"@,
        !r.inherits_proposal,
        !r.admitted_here,
{
    UpstreamCheck {
        crate_name: "smithay",
        proposed_requirement: "none; the imported manifest declares no compositor dependency",
        inherits_proposal: false,
        upstream_max_stable: "0.7.0",
        upstream_released_on: "2025-06-24",
        checked_on: "2026-09-13",
        version_command: "curl -sS -H 'User-Agent: aegis-os-upstream-check \
                          (https://github.com/cordanaLLM/Aegis-OS)' \
                          https://crates.io/api/v1/crates/smithay | jq -r \
                          '.crate.max_stable_version, (.versions[] | select(.num == \"0.7.0\") | \
                          .created_at)'",
        dependency_command: "curl -sS -H 'User-Agent: aegis-os-upstream-check \
                             (https://github.com/cordanaLLM/Aegis-OS)' \
                             https://crates.io/api/v1/crates/smithay/0.7.0/dependencies | jq -c \
                             '[.dependencies[] | select(.kind == \"normal\")] | \
                             group_by(.optional) | map({optional: .[0].optional, count: length})'",
        admitted_here: false,
        admitted_at: "the milestone that first drives a display, which is M12",
        reason: "M07's scope is the backend-agnostic registry and IPC state machine, and this \
                 crate opens no display. The dependency command reported 44 normal-kind direct \
                 dependencies on the 0.7.0 release -- the figure is the normal-kind total, not a \
                 required count like zenoh's 42, because only 19 are required and 25 are \
                 optional. drm, gbm, input and libseat are four of the optional ones, and all \
                 four sit inside the default feature closure, by way of backend_drm, \
                 backend_gbm, backend_libinput and backend_session_libseat; a default build \
                 therefore pulls the system-library boundary into a milestone whose exit \
                 criteria forbid GPU and wlroots work. Choosing pure Rust is a language \
                 boundary, which D08 settles; choosing a package is an admission, which needs a \
                 gate that calls it",
    }
}

/// Both upstream checks, the transport first.
pub fn m07_upstream_checks() -> (r: [UpstreamCheck; 2])
    ensures
        r@[0].crate_name@ == "zenoh"@,
        r@[1].crate_name@ == "smithay"@,
        forall|i: int| 0 <= i < 2 ==> !(#[trigger] r@[i]).admitted_here && !r@[i].inherits_proposal,
{
    [zenoh_check(), compositor_library_check()]
}

} // verus!
