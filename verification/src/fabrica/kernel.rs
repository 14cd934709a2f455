//! The kernel requirement schema handed to whoever builds the kernel.
//!
//! The requirement is a list of rows, each naming a [`ConfigSymbol`], the
//! [`RequiredState`] that symbol must be in, the [`ProbeSource`] that says how
//! the claim is checked on a running system, and the recorded requirement the
//! row comes from. [`KernelRequirement::config_fragment`] renders it as a
//! Kconfig fragment, and [`KernelRequirement::unmet`] lists what a measured
//! [`ReferenceProfile`] does not satisfy, failing closed.

use vstd::prelude::*;
use crate::fabrica::field::{
    ArtifactDigest, ArtifactSignature, ConfigSymbol, CorrelationId, KernelRelease, RequirementId,
    release_at_least,
};
use crate::fabrica::unit::at_most;
use crate::text::{
    chars_of, debug_quote, debug_quoted, decimal, push_decimal, push_text, same_text, string_of,
    trim, trim_bounds,
};

verus! {

/// The stable tag the payload's `schema` field carries.
pub const KERNEL_REQUIREMENT_TAG: &'static str = "aegis.p01-nucleus.kernel-requirement.v1";

/// Scalar bound on the feature rows one requirement payload may carry.
pub const MAX_FEATURES: usize = 64;

/// Scalar bound on the architectures one requirement payload may accept.
pub const MAX_ARCHITECTURES: usize = 4;

/// Scalar bound on the unmet rows one check may report: at most three from
/// the identity half and two from each feature row a valid payload carries.
pub const MAX_UNMET: usize = 3 + 2 * MAX_FEATURES;

/// Scalar bound, in bytes, on a reference profile document.
pub const MAX_PROFILE_BYTES: usize = 1048576;

/// The contract versions of the kernel requirement this build admits.
#[derive(Debug, Clone, Copy, PartialEq, Eq, Hash, Structural)]
#[non_exhaustive]
pub enum KernelRequirementVersion {
    /// Version 1, tagged `aegis.p01-nucleus.kernel-requirement.v1`.
    V1,
}

/// The architectures a kernel requirement may accept, spelled as mkosi's
/// `Architecture=` values.
#[derive(Debug, Clone, Copy, PartialEq, Eq, Hash, Structural)]
pub enum Architecture {
    /// 64-bit x86, spelled `x86-64`.
    X86_64,
    /// 64-bit Arm, spelled `arm64`.
    Arm64,
}

/// The tag an architecture is written as.
pub open spec fn architecture_tag(a: Architecture) -> Seq<char> {
    match a {
        Architecture::X86_64 => "x86-64"@,
        Architecture::Arm64 => "arm64"@,
    }
}

impl Architecture {
    /// The stable tag this architecture is written as.
    pub fn tag(self) -> (r: &'static str)
        ensures
            r@ == architecture_tag(self),
    {
        match self {
            Architecture::X86_64 => "x86-64",
            Architecture::Arm64 => "arm64",
        }
    }
}

/// The state a Kconfig symbol is observed in.
#[derive(Debug, Clone, Copy, PartialEq, Eq, Hash, Structural)]
pub enum ConfigState {
    /// Compiled into the kernel image, written `=y`.
    BuiltIn,
    /// Built as a loadable module, written `=m`.
    Module,
    /// Not enabled, written `# CONFIG_X is not set`.
    NotSet,
}

/// The state a trimmed `.config` or profile value names, if it names one.
pub open spec fn config_state_named(t: Seq<char>) -> Option<ConfigState> {
    if t == "y"@ {
        Some(ConfigState::BuiltIn)
    } else if t == "m"@ {
        Some(ConfigState::Module)
    } else if t == "n"@ || t == "not set"@ || t == "not-set"@ {
        Some(ConfigState::NotSet)
    } else {
        None
    }
}

/// The tag a state is written as.
pub open spec fn config_state_tag(s: ConfigState) -> Seq<char> {
    match s {
        ConfigState::BuiltIn => "y"@,
        ConfigState::Module => "m"@,
        ConfigState::NotSet => "not set"@,
    }
}

impl ConfigState {
    /// Reads a state as a `.config` or reference profile writes it: `y`, `m`,
    /// `n`, `not set` or `not-set` around optional white space.
    pub fn parse(text: &str) -> (r: Option<Self>)
        ensures
            r == config_state_named(trim(text@)),
    {
        let chars = chars_of(text);
        let (lo, hi) = trim_bounds(&chars, 0, chars.len());
        assert(chars@.subrange(0, chars@.len() as int) =~= chars@);
        let t = string_of(&chars, lo, hi);
        if same_text(t.as_str(), "y") {
            Some(ConfigState::BuiltIn)
        } else if same_text(t.as_str(), "m") {
            Some(ConfigState::Module)
        } else if same_text(t.as_str(), "n") || same_text(t.as_str(), "not set") || same_text(
            t.as_str(),
            "not-set",
        ) {
            Some(ConfigState::NotSet)
        } else {
            None
        }
    }

    /// The stable tag this state is written as.
    pub fn tag(self) -> (r: &'static str)
        ensures
            r@ == config_state_tag(self),
    {
        match self {
            ConfigState::BuiltIn => "y",
            ConfigState::Module => "m",
            ConfigState::NotSet => "not set",
        }
    }
}

/// The state a requirement row demands of its symbol.
#[derive(Debug, Clone, Copy, PartialEq, Eq, Hash, Structural)]
pub enum RequiredState {
    /// The symbol must be compiled in; a module does not satisfy it.
    BuiltIn,
    /// The symbol must be a loadable module; built-in does not satisfy it.
    Module,
    /// The symbol must be available either way.
    Present,
    /// The symbol must not be enabled at all.
    Absent,
}

/// Whether `observed` satisfies `required`. Nothing recorded never does,
/// not even for [`RequiredState::Absent`].
pub open spec fn satisfies(required: RequiredState, observed: Option<ConfigState>) -> bool {
    match observed {
        None => false,
        Some(state) => match required {
            RequiredState::BuiltIn => state == ConfigState::BuiltIn,
            RequiredState::Module => state == ConfigState::Module,
            RequiredState::Present => state != ConfigState::NotSet,
            RequiredState::Absent => state == ConfigState::NotSet,
        },
    }
}

/// One Kconfig fragment line for `symbol` in `state`.
pub open spec fn fragment_text(state: RequiredState, symbol: Seq<char>) -> Seq<char> {
    match state {
        RequiredState::BuiltIn | RequiredState::Present => symbol + "=y"@,
        RequiredState::Module => symbol + "=m"@,
        RequiredState::Absent => "# "@ + symbol + " is not set"@,
    }
}

/// The name `{:?}` writes a required state as.
pub open spec fn required_state_name(s: RequiredState) -> Seq<char> {
    match s {
        RequiredState::BuiltIn => "BuiltIn"@,
        RequiredState::Module => "Module"@,
        RequiredState::Present => "Present"@,
        RequiredState::Absent => "Absent"@,
    }
}

impl RequiredState {
    /// Returns `true` when `observed` satisfies this requirement.
    pub fn satisfied_by(self, observed: Option<ConfigState>) -> (r: bool)
        ensures
            r == satisfies(self, observed),
    {
        match observed {
            None => false,
            Some(state) => match self {
                RequiredState::BuiltIn => state == ConfigState::BuiltIn,
                RequiredState::Module => state == ConfigState::Module,
                RequiredState::Present => state != ConfigState::NotSet,
                RequiredState::Absent => state == ConfigState::NotSet,
            },
        }
    }

    /// Renders this requirement for `symbol` as one Kconfig fragment line;
    /// [`RequiredState::Present`] renders as `=y`.
    pub fn fragment_line(self, symbol: &ConfigSymbol) -> (r: String)
        ensures
            r@ == fragment_text(self, symbol@),
    {
        let mut out = String::new();
        match self {
            RequiredState::BuiltIn | RequiredState::Present => {
                push_text(&mut out, symbol.as_str());
                push_text(&mut out, "=y");
            },
            RequiredState::Module => {
                push_text(&mut out, symbol.as_str());
                push_text(&mut out, "=m");
            },
            RequiredState::Absent => {
                push_text(&mut out, "# ");
                push_text(&mut out, symbol.as_str());
                push_text(&mut out, " is not set");
            },
        }
        out
    }

    fn debug_name(self) -> (r: &'static str)
        ensures
            r@ == required_state_name(self),
    {
        match self {
            RequiredState::BuiltIn => "BuiltIn",
            RequiredState::Module => "Module",
            RequiredState::Present => "Present",
            RequiredState::Absent => "Absent",
        }
    }
}

/// How a feature claim is checked on a running system.
#[derive(Debug, Clone, Copy, PartialEq, Eq, Hash, Structural)]
pub enum ProbeSource {
    /// The kernel's own compiled-in configuration, `/proc/config.gz`.
    KernelConfig,
    /// The active LSM list, `/sys/kernel/security/lsm`.
    LsmList,
    /// The kernel BTF blob CO-RE eBPF programs compile against.
    BtfVmlinux,
    /// The powercap tree the RAPL energy counters appear under.
    Powercap,
    /// The IOMMU group tree VFIO passthrough needs.
    IommuGroups,
}

/// The exact path a probe reads.
pub open spec fn probe_path(p: ProbeSource) -> Seq<char> {
    match p {
        ProbeSource::KernelConfig => "/proc/config.gz"@,
        ProbeSource::LsmList => "/sys/kernel/security/lsm"@,
        ProbeSource::BtfVmlinux => "/sys/kernel/btf/vmlinux"@,
        ProbeSource::Powercap => "/sys/class/powercap"@,
        ProbeSource::IommuGroups => "/sys/kernel/iommu_groups"@,
    }
}

/// The reference profile capability row a probe corresponds to.
pub open spec fn probe_capability(p: ProbeSource) -> Option<Seq<char>> {
    match p {
        ProbeSource::KernelConfig => None,
        ProbeSource::LsmList => Some("bpf_lsm"@),
        ProbeSource::BtfVmlinux => Some("btf"@),
        ProbeSource::Powercap => Some("rapl_energy_counters"@),
        ProbeSource::IommuGroups => Some("iommu"@),
    }
}

impl ProbeSource {
    /// The exact path this probe reads.
    pub fn path(self) -> (r: &'static str)
        ensures
            r@ == probe_path(self),
    {
        match self {
            ProbeSource::KernelConfig => "/proc/config.gz",
            ProbeSource::LsmList => "/sys/kernel/security/lsm",
            ProbeSource::BtfVmlinux => "/sys/kernel/btf/vmlinux",
            ProbeSource::Powercap => "/sys/class/powercap",
            ProbeSource::IommuGroups => "/sys/kernel/iommu_groups",
        }
    }

    /// The reference profile capability row this probe corresponds to;
    /// `None` for the compiled-in configuration, which is the symbol table
    /// itself.
    pub fn capability(self) -> (r: Option<&'static str>)
        ensures
            match r {
                Some(c) => probe_capability(self) == Some(c@),
                None => probe_capability(self) is None,
            },
    {
        match self {
            ProbeSource::KernelConfig => None,
            ProbeSource::LsmList => Some("bpf_lsm"),
            ProbeSource::BtfVmlinux => Some("btf"),
            ProbeSource::Powercap => Some("rapl_energy_counters"),
            ProbeSource::IommuGroups => Some("iommu"),
        }
    }
}

/// One required kernel feature.
#[derive(Debug, Clone, PartialEq, Eq)]
pub struct FeatureRequirement {
    /// The Kconfig symbol the requirement is about.
    pub symbol: ConfigSymbol,
    /// The state that symbol must be in.
    pub state: RequiredState,
    /// How the claim is checked on a running system.
    pub probe: ProbeSource,
    /// The recorded requirement this row comes from.
    pub required_by: RequirementId,
}

/// The command that checks a row with `symbol` and `probe`.
pub open spec fn probe_command_text(symbol: Seq<char>, probe: ProbeSource) -> Seq<char> {
    match probe {
        ProbeSource::KernelConfig => "zgrep "@ + symbol + " "@ + probe_path(probe),
        ProbeSource::LsmList => "cat "@ + probe_path(probe),
        _ => "ls "@ + probe_path(probe),
    }
}

impl FeatureRequirement {
    /// The exact command that checks this row on a running system; for a
    /// kernel-configuration row the symbol is part of it.
    pub fn probe_command(&self) -> (r: String)
        ensures
            r@ == probe_command_text(self.symbol@, self.probe),
    {
        let mut out = String::new();
        match self.probe {
            ProbeSource::KernelConfig => {
                push_text(&mut out, "zgrep ");
                push_text(&mut out, self.symbol.as_str());
                push_text(&mut out, " ");
                push_text(&mut out, self.probe.path());
            },
            ProbeSource::LsmList => {
                push_text(&mut out, "cat ");
                push_text(&mut out, self.probe.path());
            },
            _ => {
                push_text(&mut out, "ls ");
                push_text(&mut out, self.probe.path());
            },
        }
        out
    }
}


/// The kernel version and module ABI the requirement is bounded by.
#[derive(Debug, Clone, PartialEq, Eq)]
pub struct KernelAbi {
    /// The oldest release the requirement admits. A hard floor.
    pub minimum_release: KernelRelease,
    /// The release the requirement aims at, when one is named. Recorded,
    /// never checked against a profile.
    pub target_release: Option<KernelRelease>,
    /// The exact module ABI a conforming artifact reports, when one is fixed.
    pub module_abi: Option<KernelRelease>,
}

/// The digest and signature a conforming artifact is expected to carry.
#[derive(Debug, Clone, PartialEq, Eq)]
pub struct ArtifactExpectation {
    /// The sha256 the produced artifact must hash to.
    pub digest: ArtifactDigest,
    /// The signature over that digest, when one is expected.
    pub signature: Option<ArtifactSignature>,
}

/// The kernel requirement payload.
#[derive(Debug, Clone, PartialEq, Eq)]
pub struct KernelRequirement {
    /// The contract version this payload claims.
    pub schema: KernelRequirementVersion,
    /// The identifier threading this requirement and its result together.
    pub correlation_id: CorrelationId,
    /// The architectures a conforming kernel may be built for.
    pub architectures: Vec<Architecture>,
    /// The version and ABI bounds.
    pub abi: KernelAbi,
    /// The features a conforming kernel must provide.
    pub features: Vec<FeatureRequirement>,
    /// What a conforming artifact must hash and be signed to, when known.
    pub artifact: Option<ArtifactExpectation>,
}

/// Why a kernel requirement payload was refused.
#[derive(Debug, Clone, PartialEq, Eq)]
#[non_exhaustive]
pub enum KernelError {
    /// The payload names a contract version this build does not admit.
    UnknownVersion { declared: String, expected: &'static str },
    /// The payload is not a well-formed instance of the contract.
    Malformed { reason: String },
    /// The payload does not fit the scalar byte bound.
    TooLong { bytes: usize, bound: usize },
    /// The payload carries no feature at all.
    NoFeatures,
    /// The payload accepts no architecture at all.
    NoArchitectures,
    /// The payload carries more rows than a bound allows.
    TooMany { what: &'static str, bound: usize },
    /// One Kconfig symbol is required twice.
    DuplicateSymbol { symbol: ConfigSymbol },
    /// The target release is older than the minimum release.
    InvertedRelease { minimum: KernelRelease, target: KernelRelease },
    /// The reference profile document could not be read.
    UnreadableProfile { reason: String },
}

/// The mathematical content of a [`KernelError`].
pub enum KernelFault {
    UnknownVersion { declared: Seq<char>, expected: Seq<char> },
    Malformed { reason: Seq<char> },
    TooLong { bytes: nat, bound: nat },
    NoFeatures,
    NoArchitectures,
    TooMany { what: Seq<char>, bound: nat },
    DuplicateSymbol { symbol: Seq<char> },
    InvertedRelease { minimum: Seq<char>, target: Seq<char> },
    UnreadableProfile { reason: Seq<char> },
}

impl View for KernelError {
    type V = KernelFault;

    open spec fn view(&self) -> KernelFault {
        match self {
            KernelError::UnknownVersion { declared, expected } => KernelFault::UnknownVersion {
                declared: declared@,
                expected: expected@,
            },
            KernelError::Malformed { reason } => KernelFault::Malformed { reason: reason@ },
            KernelError::TooLong { bytes, bound } => KernelFault::TooLong {
                bytes: *bytes as nat,
                bound: *bound as nat,
            },
            KernelError::NoFeatures => KernelFault::NoFeatures,
            KernelError::NoArchitectures => KernelFault::NoArchitectures,
            KernelError::TooMany { what, bound } => KernelFault::TooMany {
                what: what@,
                bound: *bound as nat,
            },
            KernelError::DuplicateSymbol { symbol } => KernelFault::DuplicateSymbol {
                symbol: symbol@,
            },
            KernelError::InvertedRelease { minimum, target } => KernelFault::InvertedRelease {
                minimum: minimum@,
                target: target@,
            },
            KernelError::UnreadableProfile { reason } => KernelFault::UnreadableProfile {
                reason: reason@,
            },
        }
    }
}

/// The text a [`KernelError`] is reported with.
pub open spec fn kernel_fault_message(f: KernelFault) -> Seq<char> {
    match f {
        KernelFault::UnknownVersion { declared, expected } =>
            "the payload claims contract version "@ + debug_quoted(declared) + ", not "@
                + debug_quoted(expected),
        KernelFault::Malformed { reason } =>
            "the payload is not a well-formed kernel requirement: "@ + reason,
        KernelFault::TooLong { bytes, bound } => "the payload is "@ + decimal(bytes)
            + " bytes, past the bound of "@ + decimal(bound),
        KernelFault::NoFeatures =>
            "the payload lists no required feature; an empty requirement is refused"@,
        KernelFault::NoArchitectures => "the payload accepts no architecture"@,
        KernelFault::TooMany { what, bound } => "the payload carries more than "@ + decimal(bound)
            + " "@ + what,
        KernelFault::DuplicateSymbol { symbol } => "the payload requires "@ + symbol
            + " more than once"@,
        KernelFault::InvertedRelease { minimum, target } => "target release "@ + target
            + " is older than the minimum release "@ + minimum,
        KernelFault::UnreadableProfile { reason } =>
            "the reference profile could not be read: "@ + reason,
    }
}

impl KernelError {
    /// The text this refusal is reported with.
    pub fn message(&self) -> (r: String)
        ensures
            r@ == kernel_fault_message(self@),
    {
        let mut out = String::new();
        match self {
            KernelError::UnknownVersion { declared, expected } => {
                push_text(&mut out, "the payload claims contract version ");
                let d = debug_quote(declared.as_str());
                push_text(&mut out, d.as_str());
                push_text(&mut out, ", not ");
                let e = debug_quote(expected);
                push_text(&mut out, e.as_str());
            },
            KernelError::Malformed { reason } => {
                push_text(&mut out, "the payload is not a well-formed kernel requirement: ");
                push_text(&mut out, reason.as_str());
            },
            KernelError::TooLong { bytes, bound } => {
                push_text(&mut out, "the payload is ");
                push_decimal(&mut out, *bytes as u64);
                push_text(&mut out, " bytes, past the bound of ");
                push_decimal(&mut out, *bound as u64);
            },
            KernelError::NoFeatures => {
                push_text(
                    &mut out,
                    "the payload lists no required feature; an empty requirement is refused",
                );
            },
            KernelError::NoArchitectures => {
                push_text(&mut out, "the payload accepts no architecture");
            },
            KernelError::TooMany { what, bound } => {
                push_text(&mut out, "the payload carries more than ");
                push_decimal(&mut out, *bound as u64);
                push_text(&mut out, " ");
                push_text(&mut out, what);
            },
            KernelError::DuplicateSymbol { symbol } => {
                push_text(&mut out, "the payload requires ");
                push_text(&mut out, symbol.as_str());
                push_text(&mut out, " more than once");
            },
            KernelError::InvertedRelease { minimum, target } => {
                push_text(&mut out, "target release ");
                push_text(&mut out, target.as_str());
                push_text(&mut out, " is older than the minimum release ");
                push_text(&mut out, minimum.as_str());
            },
            KernelError::UnreadableProfile { reason } => {
                push_text(&mut out, "the reference profile could not be read: ");
                push_text(&mut out, reason.as_str());
            },
        }
        assert(out@ =~= kernel_fault_message(self@));
        out
    }
}

/// What a reference profile does not satisfy, and why.
#[derive(Debug, Clone, PartialEq, Eq)]
#[non_exhaustive]
pub enum Unmet {
    /// The profile's architecture is not one the requirement accepts.
    ArchitectureNotAccepted { observed: Architecture },
    /// The profile's kernel is older than the required minimum.
    ReleaseBelowMinimum { observed: KernelRelease, minimum: KernelRelease },
    /// The profile's module ABI is not the one the requirement fixes.
    AbiMismatch { observed: KernelRelease, required: KernelRelease },
    /// The profile records nothing about a required symbol.
    Unobserved { symbol: ConfigSymbol, probe: ProbeSource },
    /// The profile records the symbol in another state.
    StateMismatch { symbol: ConfigSymbol, required: RequiredState, observed: ConfigState },
    /// The capability a runtime probe reads is absent from the profile.
    CapabilityAbsent { probe: ProbeSource, capability: &'static str },
}

/// The mathematical content of an [`Unmet`] row.
pub enum UnmetView {
    ArchitectureNotAccepted { observed: Architecture },
    ReleaseBelowMinimum { observed: Seq<char>, minimum: Seq<char> },
    AbiMismatch { observed: Seq<char>, required: Seq<char> },
    Unobserved { symbol: Seq<char>, probe: ProbeSource },
    StateMismatch { symbol: Seq<char>, required: RequiredState, observed: ConfigState },
    CapabilityAbsent { probe: ProbeSource, capability: Seq<char> },
}

impl View for Unmet {
    type V = UnmetView;

    open spec fn view(&self) -> UnmetView {
        match self {
            Unmet::ArchitectureNotAccepted { observed } => UnmetView::ArchitectureNotAccepted {
                observed: *observed,
            },
            Unmet::ReleaseBelowMinimum { observed, minimum } => UnmetView::ReleaseBelowMinimum {
                observed: observed@,
                minimum: minimum@,
            },
            Unmet::AbiMismatch { observed, required } => UnmetView::AbiMismatch {
                observed: observed@,
                required: required@,
            },
            Unmet::Unobserved { symbol, probe } => UnmetView::Unobserved {
                symbol: symbol@,
                probe: *probe,
            },
            Unmet::StateMismatch { symbol, required, observed } => UnmetView::StateMismatch {
                symbol: symbol@,
                required: *required,
                observed: *observed,
            },
            Unmet::CapabilityAbsent { probe, capability } => UnmetView::CapabilityAbsent {
                probe: *probe,
                capability: capability@,
            },
        }
    }
}

/// The views of a list of unmet rows.
pub open spec fn unmet_views(rows: Seq<Unmet>) -> Seq<UnmetView> {
    rows.map_values(|u: Unmet| u@)
}

/// The text an [`Unmet`] row is reported with.
pub open spec fn unmet_message(u: UnmetView) -> Seq<char> {
    match u {
        UnmetView::ArchitectureNotAccepted { observed } => "the profile reports architecture "@
            + architecture_tag(observed) + ", which the requirement does not accept"@,
        UnmetView::ReleaseBelowMinimum { observed, minimum } => "the profile kernel "@ + observed
            + " is older than the required minimum "@ + minimum,
        UnmetView::AbiMismatch { observed, required } => "the profile module ABI "@ + observed
            + " is not the required "@ + required,
        UnmetView::Unobserved { symbol, probe } => symbol
            + " is not recorded in the profile; read it with "@ + probe_path(probe),
        UnmetView::StateMismatch { symbol, required, observed } => symbol + " is "@
            + config_state_tag(observed) + " in the profile, and "@ + required_state_name(required)
            + " is required"@,
        UnmetView::CapabilityAbsent { probe, capability } => "profile capability "@ + capability
            + " is absent, so "@ + probe_path(probe) + " cannot be read"@,
    }
}

impl Unmet {
    /// The text this row is reported with.
    pub fn message(&self) -> (r: String)
        ensures
            r@ == unmet_message(self@),
    {
        let mut out = String::new();
        match self {
            Unmet::ArchitectureNotAccepted { observed } => {
                push_text(&mut out, "the profile reports architecture ");
                push_text(&mut out, observed.tag());
                push_text(&mut out, ", which the requirement does not accept");
            },
            Unmet::ReleaseBelowMinimum { observed, minimum } => {
                push_text(&mut out, "the profile kernel ");
                push_text(&mut out, observed.as_str());
                push_text(&mut out, " is older than the required minimum ");
                push_text(&mut out, minimum.as_str());
            },
            Unmet::AbiMismatch { observed, required } => {
                push_text(&mut out, "the profile module ABI ");
                push_text(&mut out, observed.as_str());
                push_text(&mut out, " is not the required ");
                push_text(&mut out, required.as_str());
            },
            Unmet::Unobserved { symbol, probe } => {
                push_text(&mut out, symbol.as_str());
                push_text(&mut out, " is not recorded in the profile; read it with ");
                push_text(&mut out, probe.path());
            },
            Unmet::StateMismatch { symbol, required, observed } => {
                push_text(&mut out, symbol.as_str());
                push_text(&mut out, " is ");
                push_text(&mut out, observed.tag());
                push_text(&mut out, " in the profile, and ");
                push_text(&mut out, required.debug_name());
                push_text(&mut out, " is required");
            },
            Unmet::CapabilityAbsent { probe, capability } => {
                push_text(&mut out, "profile capability ");
                push_text(&mut out, capability);
                push_text(&mut out, " is absent, so ");
                push_text(&mut out, probe.path());
                push_text(&mut out, " cannot be read");
            },
        }
        assert(out@ =~= unmet_message(self@));
        out
    }
}

/// The measured reference profile a kernel requirement is checked against:
/// the recorded release and architecture, the Kconfig symbol states, and the
/// capability rows with the command each was observed by.
#[derive(Debug, PartialEq, Eq)]
pub struct ReferenceProfile {
    release: KernelRelease,
    architecture: Architecture,
    symbols: Vec<(String, ConfigState)>,
    capabilities: Vec<(String, bool, String)>,
}

/// The mathematical content of a [`ReferenceProfile`].
pub struct ProfileView {
    pub release: Seq<char>,
    pub architecture: Architecture,
    pub symbols: Seq<(Seq<char>, ConfigState)>,
    pub capabilities: Seq<(Seq<char>, bool, Seq<char>)>,
}

impl View for ReferenceProfile {
    type V = ProfileView;

    closed spec fn view(&self) -> ProfileView {
        ProfileView {
            release: self.release@,
            architecture: self.architecture,
            symbols: self.symbols@.map_values(|r: (String, ConfigState)| (r.0@, r.1)),
            capabilities: self.capabilities@.map_values(
                |r: (String, bool, String)| (r.0@, r.1, r.2@),
            ),
        }
    }
}

/// The state the first symbol row named `name` records.
pub open spec fn state_named(rows: Seq<(Seq<char>, ConfigState)>, name: Seq<char>) -> Option<
    ConfigState,
>
    decreases rows.len(),
{
    if rows.len() == 0 {
        None
    } else if rows[0].0 == name {
        Some(rows[0].1)
    } else {
        state_named(rows.drop_first(), name)
    }
}

/// The first capability row named `name`: whether it is present, and the
/// command it was observed by.
pub open spec fn capability_named(rows: Seq<(Seq<char>, bool, Seq<char>)>, name: Seq<char>) -> Option<
    (bool, Seq<char>),
>
    decreases rows.len(),
{
    if rows.len() == 0 {
        None
    } else if rows[0].0 == name {
        Some((rows[0].1, rows[0].2))
    } else {
        capability_named(rows.drop_first(), name)
    }
}

/// The first raw Kconfig row whose value names no state, if any.
pub open spec fn first_unreadable(rows: Seq<(Seq<char>, Seq<char>)>) -> Option<int>
    decreases rows.len(),
{
    if rows.len() == 0 {
        None
    } else if config_state_named(trim(rows.last().1)) is None && first_unreadable(rows.drop_last())
        is None {
        Some(rows.len() - 1)
    } else {
        first_unreadable(rows.drop_last())
    }
}

/// The refusal of a profile whose Kconfig row `name` holds `value`.
pub open spec fn unreadable_state_reason(name: Seq<char>, value: Seq<char>) -> Seq<char> {
    "kernel.config["@ + name + "] is "@ + debug_quoted(value) + ", not y, m or not set"@
}

/// The raw Kconfig rows of a profile document, as plain values.
pub open spec fn raw_rows(config: Seq<(String, String)>) -> Seq<(Seq<char>, Seq<char>)> {
    config.map_values(|r: (String, String)| (r.0@, r.1@))
}

/// The names of the raw Kconfig rows, in order.
pub open spec fn raw_names(config: Seq<(String, String)>) -> Seq<Seq<char>> {
    config.map_values(|r: (String, String)| r.0@)
}

/// The names of the capability rows, in order.
pub open spec fn capability_names(rows: Seq<(Seq<char>, bool, Seq<char>)>) -> Seq<Seq<char>> {
    rows.map_values(|r: (Seq<char>, bool, Seq<char>)| r.0)
}

/// The names of the symbol rows, in order.
pub open spec fn symbol_names(rows: Seq<(Seq<char>, ConfigState)>) -> Seq<Seq<char>> {
    rows.map_values(|r: (Seq<char>, ConfigState)| r.0)
}

/// A profile records each Kconfig symbol and each capability once, as the
/// keyed tables of a profile document do.
pub open spec fn profile_wf(v: ProfileView) -> bool {
    &&& symbol_names(v.symbols).no_duplicates()
    &&& capability_names(v.capabilities).no_duplicates()
}

/// The refusal of a profile whose table `table` records `name` twice.
pub open spec fn repeated_row_reason(table: Seq<char>, name: Seq<char>) -> Seq<char> {
    table + "["@ + name + "] is recorded twice"@
}

/// The views of a list of names.
pub open spec fn names_view(names: Seq<&str>) -> Seq<Seq<char>> {
    names.map_values(|n: &str| n@)
}

/// A list with no first repeat holds each name once.
proof fn lemma_no_repeat_distinct(s: Seq<Seq<char>>, from: int)
    requires
        0 <= from,
        first_repeat_from(s, from) is None,
    ensures
        forall|i: int, j: int| 0 <= i < j < s.len() && from <= j ==> s[i] != s[j],
    decreases s.len() - from,
{
    if from < s.len() {
        lemma_no_repeat_distinct(s, from + 1);
    }
}

/// The index of the first name of `names` that an earlier one repeats.
fn first_repeated(names: &Vec<&str>) -> (r: Option<usize>)
    ensures
        match r {
            Some(j) => j < names@.len() && first_repeat_from(names_view(names@), 0) == Some(
                j as int,
            ),
            None => first_repeat_from(names_view(names@), 0) is None,
        },
{
    let ghost s = names_view(names@);
    let n = names.len();
    let mut j: usize = 0;
    while j < n
        invariant
            j <= n,
            n == names@.len(),
            s == names_view(names@),
            first_repeat_from(s, 0) == first_repeat_from(s, j as int),
        decreases n - j,
    {
        let mut i: usize = 0;
        while i < j
            invariant
                i <= j < n,
                n == names@.len(),
                s == names_view(names@),
                first_repeat_from(s, 0) == first_repeat_from(s, j as int),
                forall|k: int| 0 <= k < i ==> s[k] != s[j as int],
            decreases j - i,
        {
            if same_text(names[i], names[j]) {
                assert(s[i as int] == s[j as int]);
                return Some(j);
            }
            i += 1;
        }
        j += 1;
    }
    None
}

/// The refusal text of a row `name` recorded twice in table `table`.
fn repeated_row(table: &str, name: &str) -> (r: KernelError)
    ensures
        r@ == (KernelFault::UnreadableProfile { reason: repeated_row_reason(table@, name@) }),
{
    let mut reason = String::new();
    push_text(&mut reason, table);
    push_text(&mut reason, "[");
    push_text(&mut reason, name);
    push_text(&mut reason, "] is recorded twice");
    assert(reason@ =~= repeated_row_reason(table@, name@));
    KernelError::UnreadableProfile { reason }
}

/// Converts the profile's raw symbol rows into typed states, refusing the
/// first value that names no state.
fn typed_symbols(raw: &Vec<(String, String)>) -> (r: Result<Vec<(String, ConfigState)>, KernelError>)
    ensures
        match r {
            Ok(typed) => {
                &&& first_unreadable(raw_rows(raw@)) is None
                &&& typed@.len() == raw@.len()
                &&& forall|i: int|
                    #![trigger typed@[i]]
                    0 <= i < raw@.len() ==> typed@[i].0@ == raw@[i].0@ && Some(typed@[i].1)
                        == config_state_named(trim(raw@[i].1@))
            },
            Err(e) => match first_unreadable(raw_rows(raw@)) {
                Some(i) => e@ == KernelFault::UnreadableProfile {
                    reason: unreadable_state_reason(raw@[i].0@, raw@[i].1@),
                },
                None => false,
            },
        },
{
    let mut out: Vec<(String, ConfigState)> = Vec::new();
    let mut k: usize = 0;
    while k < raw.len()
        invariant
            k <= raw.len(),
            out@.len() == k,
            first_unreadable(raw_rows(raw@.take(k as int))) is None,
            forall|i: int|
                #![trigger out@[i]]
                0 <= i < k ==> out@[i].0@ == raw@[i].0@ && Some(out@[i].1) == config_state_named(
                    trim(raw@[i].1@),
                ),
        decreases raw.len() - k,
    {
        let ghost prefix = raw_rows(raw@.take(k as int + 1));
        assert(prefix.drop_last() =~= raw_rows(raw@.take(k as int)));
        assert(prefix.last() == (raw@[k as int].0@, raw@[k as int].1@));
        assert(raw_rows(raw@.take(k as int)) =~= raw_rows(raw@).take(k as int));
        match ConfigState::parse(raw[k].1.as_str()) {
            Some(state) => {
                out.push((raw[k].0.clone(), state));
            },
            None => {
                let mut reason = String::new();
                push_text(&mut reason, "kernel.config[");
                push_text(&mut reason, raw[k].0.as_str());
                push_text(&mut reason, "] is ");
                let q = debug_quote(raw[k].1.as_str());
                push_text(&mut reason, q.as_str());
                push_text(&mut reason, ", not y, m or not set");
                proof {
                    lemma_first_unreadable_prefix(raw_rows(raw@), k as int);
                }
                assert(reason@ =~= unreadable_state_reason(raw@[k as int].0@, raw@[k as int].1@));
                return Err(KernelError::UnreadableProfile { reason });
            },
        }
        k += 1;
    }
    assert(raw@.take(raw@.len() as int) =~= raw@);
    assert(raw_rows(raw@.take(raw@.len() as int)) == raw_rows(raw@));
    assert(first_unreadable(raw_rows(raw@)) is None);
    assert(out@.len() == raw@.len());
    Ok(out)
}

proof fn lemma_first_unreadable_prefix(rows: Seq<(Seq<char>, Seq<char>)>, k: int)
    requires
        0 <= k < rows.len(),
        first_unreadable(rows.take(k)) is None,
        config_state_named(trim(rows[k].1)) is None,
    ensures
        first_unreadable(rows) == Some(k),
    decreases rows.len() - k,
{
    assert(rows.take(k + 1).drop_last() =~= rows.take(k));
    if k + 1 < rows.len() {
        assert(rows.take(k + 1).take(k) =~= rows.take(k));
        lemma_first_unreadable_prefix_grow(rows, k, k + 1);
    } else {
        assert(rows.take(k + 1) =~= rows);
    }
}

proof fn lemma_first_unreadable_prefix_grow(rows: Seq<(Seq<char>, Seq<char>)>, k: int, n: int)
    requires
        0 <= k < n <= rows.len(),
        first_unreadable(rows.take(n)) == Some(k),
    ensures
        first_unreadable(rows) == Some(k),
    decreases rows.len() - n,
{
    if n < rows.len() {
        assert(rows.take(n + 1).drop_last() =~= rows.take(n));
        lemma_first_unreadable_prefix_grow(rows, k, n + 1);
    } else {
        assert(rows.take(n) =~= rows);
    }
}

impl ReferenceProfile {
    /// Every profile records each symbol and each capability once.
    #[verifier::type_invariant]
    closed spec fn well_formed(self) -> bool {
        profile_wf(self@)
    }
}

impl Clone for ReferenceProfile {
    fn clone(&self) -> (r: Self)
        ensures
            r@ == self@,
    {
        proof {
            use_type_invariant(self);
        }
        let mut symbols: Vec<(String, ConfigState)> = Vec::new();
        let mut k: usize = 0;
        while k < self.symbols.len()
            invariant
                k <= self.symbols@.len(),
                symbols@.len() == k,
                forall|i: int|
                    0 <= i < k ==> #[trigger] symbols@[i].0@ == self.symbols@[i].0@ && symbols@[i].1
                        == self.symbols@[i].1,
            decreases self.symbols.len() - k,
        {
            symbols.push((self.symbols[k].0.clone(), self.symbols[k].1));
            k += 1;
        }
        let mut capabilities: Vec<(String, bool, String)> = Vec::new();
        let mut k: usize = 0;
        while k < self.capabilities.len()
            invariant
                k <= self.capabilities@.len(),
                capabilities@.len() == k,
                forall|i: int|
                    0 <= i < k ==> #[trigger] capabilities@[i].0@ == self.capabilities@[i].0@
                        && capabilities@[i].1 == self.capabilities@[i].1 && capabilities@[i].2@
                        == self.capabilities@[i].2@,
            decreases self.capabilities.len() - k,
        {
            capabilities.push(
                (self.capabilities[k].0.clone(), self.capabilities[k].1, self.capabilities[k].2.clone()),
            );
            k += 1;
        }
        proof {
            assert(symbols@.map_values(|r: (String, ConfigState)| (r.0@, r.1)) =~= self@.symbols);
            assert(capabilities@.map_values(|r: (String, bool, String)| (r.0@, r.1, r.2@))
                =~= self@.capabilities);
        }
        ReferenceProfile {
            release: self.release.clone(),
            architecture: self.architecture,
            symbols,
            capabilities,
        }
    }
}

impl ReferenceProfile {
    /// Refuses a profile document past [`MAX_PROFILE_BYTES`].
    pub fn check_size(bytes: usize) -> (r: Result<(), KernelError>)
        ensures
            match r {
                Ok(()) => bytes <= MAX_PROFILE_BYTES,
                Err(e) => bytes > MAX_PROFILE_BYTES && e@ == (KernelFault::UnreadableProfile {
                    reason: decimal(bytes as nat) + " bytes, past the bound of 1048576"@,
                }),
            },
    {
        if bytes > MAX_PROFILE_BYTES {
            let mut reason = String::new();
            push_decimal(&mut reason, bytes as u64);
            push_text(&mut reason, " bytes, past the bound of 1048576");
            return Err(KernelError::UnreadableProfile { reason });
        }
        Ok(())
    }

    /// Builds a profile from the facts a profile document records: the
    /// release, the architecture, the raw Kconfig rows and the capability
    /// rows (name, present, evidence command).
    ///
    /// Refuses, as [`KernelError::UnreadableProfile`], the first Kconfig row
    /// whose value is not `y`, `m`, `n`, `not set` or `not-set`; then the
    /// first Kconfig row, then the first capability row, whose name an
    /// earlier row of its table already records.
    pub fn from_parts(
        release: KernelRelease,
        architecture: Architecture,
        config: Vec<(String, String)>,
        capabilities: Vec<(String, bool, String)>,
    ) -> (r: Result<Self, KernelError>)
        ensures
            match r {
                Ok(p) => first_unreadable(raw_rows(config@)) is None && first_repeat_from(
                    raw_names(config@),
                    0,
                ) is None && first_repeat_from(
                    capability_names(
                        capabilities@.map_values(|c: (String, bool, String)| (c.0@, c.1, c.2@)),
                    ),
                    0,
                ) is None && profile_wf(p@) && p@.release == release@ && p@.architecture
                    == architecture && p@.symbols.len() == config@.len() && (forall|i: int|
                    0 <= i < config@.len() ==> #[trigger] p@.symbols[i].0 == config@[i].0@ && Some(
                        p@.symbols[i].1,
                    ) == config_state_named(trim(config@[i].1@))) && p@.capabilities
                    == capabilities@.map_values(|c: (String, bool, String)| (c.0@, c.1, c.2@)),
                Err(e) => match first_unreadable(raw_rows(config@)) {
                    Some(i) => e@ == KernelFault::UnreadableProfile {
                        reason: unreadable_state_reason(config@[i].0@, config@[i].1@),
                    },
                    None => match first_repeat_from(raw_names(config@), 0) {
                        Some(j) => e@ == KernelFault::UnreadableProfile {
                            reason: repeated_row_reason("kernel.config"@, config@[j].0@),
                        },
                        None => match first_repeat_from(
                            capability_names(
                                capabilities@.map_values(
                                    |c: (String, bool, String)| (c.0@, c.1, c.2@),
                                ),
                            ),
                            0,
                        ) {
                            Some(j) => e@ == KernelFault::UnreadableProfile {
                                reason: repeated_row_reason("capabilities"@, capabilities@[j].0@),
                            },
                            None => false,
                        },
                    },
                },
            },
    {
        let symbols = match typed_symbols(&config) {
            Ok(rows) => rows,
            Err(e) => return Err(e),
        };
        let mut names: Vec<&str> = Vec::new();
        let mut k: usize = 0;
        while k < config.len()
            invariant
                k <= config@.len(),
                names@.len() == k,
                forall|i: int| 0 <= i < k ==> #[trigger] names@[i]@ == config@[i].0@,
            decreases config.len() - k,
        {
            names.push(config[k].0.as_str());
            k += 1;
        }
        assert(names_view(names@) =~= raw_names(config@));
        match first_repeated(&names) {
            Some(j) => {
                return Err(repeated_row("kernel.config", config[j].0.as_str()));
            },
            None => {},
        }
        let ghost caps = capabilities@.map_values(|c: (String, bool, String)| (c.0@, c.1, c.2@));
        let mut cap_names: Vec<&str> = Vec::new();
        let mut k: usize = 0;
        while k < capabilities.len()
            invariant
                k <= capabilities@.len(),
                cap_names@.len() == k,
                forall|i: int| 0 <= i < k ==> #[trigger] cap_names@[i]@ == capabilities@[i].0@,
            decreases capabilities.len() - k,
        {
            cap_names.push(capabilities[k].0.as_str());
            k += 1;
        }
        assert(names_view(cap_names@) =~= capability_names(caps));
        match first_repeated(&cap_names) {
            Some(j) => {
                return Err(repeated_row("capabilities", capabilities[j].0.as_str()));
            },
            None => {},
        }
        proof {
            lemma_no_repeat_distinct(raw_names(config@), 0);
            lemma_no_repeat_distinct(capability_names(caps), 0);
            assert(symbol_names(symbols@.map_values(|r: (String, ConfigState)| (r.0@, r.1)))
                =~= raw_names(config@));
        }
        Ok(ReferenceProfile { release, architecture, symbols, capabilities })
    }

    /// The kernel release the profile records.
    pub fn release(&self) -> (r: &KernelRelease)
        ensures
            r@ == self@.release,
    {
        &self.release
    }

    /// The architecture the profile records.
    pub fn architecture(&self) -> (r: Architecture)
        ensures
            r == self@.architecture,
    {
        self.architecture
    }

    /// The state the profile records for `symbol`, if it records one.
    pub fn state_of(&self, symbol: &ConfigSymbol) -> (r: Option<ConfigState>)
        ensures
            r == state_named(self@.symbols, symbol@),
            profile_wf(self@),
    {
        proof {
            use_type_invariant(self);
        }
        let ghost rows = self@.symbols;
        assert(rows.skip(0) =~= rows);
        let mut k: usize = 0;
        while k < self.symbols.len()
            invariant
                k <= self.symbols.len(),
                rows == self@.symbols,
                rows.len() == self.symbols@.len(),
                profile_wf(self@),
                state_named(rows, symbol@) == state_named(rows.skip(k as int), symbol@),
            decreases self.symbols.len() - k,
        {
            assert(rows.skip(k as int).drop_first() =~= rows.skip(k as int + 1));
            assert(rows.skip(k as int)[0] == rows[k as int]);
            if same_text(self.symbols[k].0.as_str(), symbol.as_str()) {
                return Some(self.symbols[k].1);
            }
            k += 1;
        }
        None
    }

    /// Whether the profile records `capability` as present.
    pub fn capability(&self, capability: &str) -> (r: Option<bool>)
        ensures
            r == (match capability_named(self@.capabilities, capability@) {
                Some(row) => Some(row.0),
                None => None,
            }),
            profile_wf(self@),
    {
        proof {
            use_type_invariant(self);
        }
        match self.capability_row(capability) {
            Some(k) => Some(self.capabilities[k].1),
            None => None,
        }
    }

    /// The command the profile records `capability` as observed by.
    pub fn capability_evidence(&self, capability: &str) -> (r: Option<&str>)
        ensures
            match r {
                Some(e) => capability_named(self@.capabilities, capability@) matches Some(row)
                    && row.1 == e@,
                None => capability_named(self@.capabilities, capability@) is None,
            },
    {
        match self.capability_row(capability) {
            Some(k) => Some(self.capabilities[k].2.as_str()),
            None => None,
        }
    }

    /// The index of the first capability row named `capability`.
    fn capability_row(&self, capability: &str) -> (r: Option<usize>)
        ensures
            match r {
                Some(k) => k < self.capabilities@.len() && capability_named(
                    self@.capabilities,
                    capability@,
                ) == Some((self.capabilities@[k as int].1, self.capabilities@[k as int].2@)),
                None => capability_named(self@.capabilities, capability@) is None,
            },
    {
        let ghost rows = self@.capabilities;
        assert(rows.skip(0) =~= rows);
        let mut k: usize = 0;
        while k < self.capabilities.len()
            invariant
                k <= self.capabilities.len(),
                rows == self@.capabilities,
                rows.len() == self.capabilities@.len(),
                capability_named(rows, capability@) == capability_named(
                    rows.skip(k as int),
                    capability@,
                ),
            decreases self.capabilities.len() - k,
        {
            assert(rows.skip(k as int).drop_first() =~= rows.skip(k as int + 1));
            assert(rows.skip(k as int)[0] == rows[k as int]);
            if same_text(self.capabilities[k].0.as_str(), capability) {
                return Some(k);
            }
            k += 1;
        }
        None
    }
}

/// The symbols a list of feature rows names, in order.
pub open spec fn feature_symbols(fs: Seq<FeatureRequirement>) -> Seq<Seq<char>> {
    fs.map_values(|f: FeatureRequirement| f.symbol@)
}

/// The first index `j >= from` whose symbol already occurs before it.
pub open spec fn first_repeat_from(s: Seq<Seq<char>>, from: int) -> Option<int>
    decreases s.len() - from,
{
    if from < 0 || from >= s.len() {
        None
    } else if exists|i: int| 0 <= i < from && s[i] == s[from] {
        Some(from)
    } else {
        first_repeat_from(s, from + 1)
    }
}

/// Why `req` is refused before it is rendered or decoded, if it is: an empty
/// feature list, an empty architecture list, either past its bound, a
/// repeated symbol (the first repeat), or a target release older than the
/// minimum, checked in that order.
pub open spec fn kernel_fault(req: KernelRequirement) -> Option<KernelFault> {
    let nf = req.features@.len();
    let na = req.architectures@.len();
    if nf == 0 {
        Some(KernelFault::NoFeatures)
    } else if na == 0 {
        Some(KernelFault::NoArchitectures)
    } else if nf > MAX_FEATURES {
        Some(KernelFault::TooMany { what: "features"@, bound: MAX_FEATURES as nat })
    } else if na > MAX_ARCHITECTURES {
        Some(KernelFault::TooMany { what: "architectures"@, bound: MAX_ARCHITECTURES as nat })
    } else if first_repeat_from(feature_symbols(req.features@), 0) is Some {
        Some(
            KernelFault::DuplicateSymbol {
                symbol: req.features@[first_repeat_from(
                    feature_symbols(req.features@),
                    0,
                )->0].symbol@,
            },
        )
    } else if req.abi.target_release matches Some(target) && !release_at_least(
        target@,
        req.abi.minimum_release@,
    ) {
        Some(
            KernelFault::InvertedRelease {
                minimum: req.abi.minimum_release@,
                target: req.abi.target_release->0@,
            },
        )
    } else {
        None
    }
}

/// Refuses a payload whose bounded collections are empty or overlong.
fn check_collections(requirement: &KernelRequirement) -> (r: Result<(), KernelError>)
    ensures
        match r {
            Ok(()) => 0 < requirement.features@.len() <= MAX_FEATURES && 0
                < requirement.architectures@.len() <= MAX_ARCHITECTURES,
            Err(e) => kernel_fault(*requirement) == Some(e@),
        },
{
    if requirement.features.len() == 0 {
        return Err(KernelError::NoFeatures);
    }
    if requirement.architectures.len() == 0 {
        return Err(KernelError::NoArchitectures);
    }
    if requirement.features.len() > MAX_FEATURES {
        return Err(KernelError::TooMany { what: "features", bound: MAX_FEATURES });
    }
    if requirement.architectures.len() > MAX_ARCHITECTURES {
        return Err(KernelError::TooMany { what: "architectures", bound: MAX_ARCHITECTURES });
    }
    Ok(())
}

/// Refuses a payload that names one Kconfig symbol more than once, naming
/// the first repeat.
fn check_distinct_symbols(requirement: &KernelRequirement) -> (r: Result<(), KernelError>)
    ensures
        match r {
            Ok(()) => first_repeat_from(feature_symbols(requirement.features@), 0) is None,
            Err(e) => first_repeat_from(feature_symbols(requirement.features@), 0) matches Some(
                j,
            ) && 0 <= j < requirement.features@.len() && e@ == (KernelFault::DuplicateSymbol {
                symbol: requirement.features@[j].symbol@,
            }),
        },
{
    let ghost s = feature_symbols(requirement.features@);
    let n = requirement.features.len();
    let mut j: usize = 0;
    while j < n
        invariant
            j <= n,
            n == requirement.features@.len(),
            s == feature_symbols(requirement.features@),
            first_repeat_from(s, 0) == first_repeat_from(s, j as int),
        decreases n - j,
    {
        let mut i: usize = 0;
        while i < j
            invariant
                i <= j < n,
                n == requirement.features@.len(),
                s == feature_symbols(requirement.features@),
                first_repeat_from(s, 0) == first_repeat_from(s, j as int),
                forall|k: int| 0 <= k < i ==> s[k] != s[j as int],
            decreases j - i,
        {
            if same_text(requirement.features[i].symbol.as_str(), requirement.features[j].symbol.as_str()) {
                assert(s[i as int] == s[j as int]);
                return Err(KernelError::DuplicateSymbol { symbol: requirement.features[j].symbol.clone() });
            }
            i += 1;
        }
        j += 1;
    }
    Ok(())
}

/// One `# ...` comment line of a Kconfig fragment.
pub open spec fn comment_line(t: Seq<char>) -> Seq<char> {
    "# "@ + t + "\n"@
}

/// The fragment lines of a list of feature rows: each row's requirement as a
/// comment, then its assignment.
pub open spec fn feature_lines(fs: Seq<FeatureRequirement>) -> Seq<char>
    decreases fs.len(),
{
    if fs.len() == 0 {
        Seq::empty()
    } else {
        feature_lines(fs.drop_last()) + comment_line(fs.last().required_by@) + fragment_text(
            fs.last().state,
            fs.last().symbol@,
        ) + "\n"@
    }
}

/// The Kconfig fragment of a requirement: the contract tag, the correlation
/// identifier and the minimum release as comments, then each feature row.
pub open spec fn fragment_of(req: KernelRequirement) -> Seq<char> {
    comment_line(KERNEL_REQUIREMENT_TAG@) + comment_line("correlation-id: "@ + req.correlation_id@)
        + comment_line("minimum kernel release: "@ + req.abi.minimum_release@) + feature_lines(
        req.features@,
    )
}

/// Whether `a` is among the architectures of `accepted`.
pub open spec fn accepts(accepted: Seq<Architecture>, a: Architecture) -> bool {
    exists|i: int| 0 <= i < accepted.len() && accepted[i] == a
}

/// The architecture, release and ABI rows of what `p` does not satisfy.
pub open spec fn identity_unmet(req: KernelRequirement, p: ProfileView) -> Seq<UnmetView> {
    let arch = if !accepts(at_most(req.architectures@, MAX_ARCHITECTURES as nat), p.architecture) {
        seq![UnmetView::ArchitectureNotAccepted { observed: p.architecture }]
    } else {
        Seq::empty()
    };
    let release = if !release_at_least(p.release, req.abi.minimum_release@) {
        seq![
            UnmetView::ReleaseBelowMinimum {
                observed: p.release,
                minimum: req.abi.minimum_release@,
            },
        ]
    } else {
        Seq::empty()
    };
    let abi = match req.abi.module_abi {
        Some(required) => if p.release != required@ {
            seq![UnmetView::AbiMismatch { observed: p.release, required: required@ }]
        } else {
            Seq::empty()
        },
        None => Seq::empty(),
    };
    arch + release + abi
}

/// What `p` does not satisfy about one feature row: its probe's capability
/// row absent or not present, then its symbol unrecorded or in another state.
pub open spec fn feature_unmet(f: FeatureRequirement, p: ProfileView) -> Seq<UnmetView> {
    let capability = match probe_capability(f.probe) {
        Some(name) => if !(capability_named(p.capabilities, name) matches Some(row) && row.0) {
            seq![UnmetView::CapabilityAbsent { probe: f.probe, capability: name }]
        } else {
            Seq::empty()
        },
        None => Seq::empty(),
    };
    let state = match state_named(p.symbols, f.symbol@) {
        None => seq![UnmetView::Unobserved { symbol: f.symbol@, probe: f.probe }],
        Some(observed) => if !satisfies(f.state, Some(observed)) {
            seq![
                UnmetView::StateMismatch { symbol: f.symbol@, required: f.state, observed },
            ]
        } else {
            Seq::empty()
        },
    };
    capability + state
}

/// The feature rows of what `p` does not satisfy, row by row.
pub open spec fn features_unmet(fs: Seq<FeatureRequirement>, p: ProfileView) -> Seq<UnmetView>
    decreases fs.len(),
{
    if fs.len() == 0 {
        Seq::empty()
    } else {
        features_unmet(fs.drop_last(), p) + feature_unmet(fs.last(), p)
    }
}

/// Everything `p` does not satisfy of `req`, as [`KernelRequirement::unmet`]
/// reports it: the identity rows, then each of the first [`MAX_FEATURES`]
/// feature rows, cut at [`MAX_UNMET`].
pub open spec fn unmet_of(req: KernelRequirement, p: ProfileView) -> Seq<UnmetView> {
    at_most(
        identity_unmet(req, p) + features_unmet(at_most(req.features@, MAX_FEATURES as nat), p),
        MAX_UNMET as nat,
    )
}

/// The refusal a payload the decoder could not read is answered with: an
/// unknown version when the payload claimed another readable `schema` tag,
/// and a malformed payload otherwise.
pub open spec fn decode_refusal(declared: Option<Seq<char>>, reason: Seq<char>) -> KernelFault {
    match declared {
        Some(tag) => if tag != KERNEL_REQUIREMENT_TAG@ {
            KernelFault::UnknownVersion { declared: tag, expected: KERNEL_REQUIREMENT_TAG@ }
        } else {
            KernelFault::Malformed { reason }
        },
        None => KernelFault::Malformed { reason },
    }
}

impl KernelRequirement {
    /// The contract version tag this type instantiates.
    pub const SCHEMA_TAG: &'static str = KERNEL_REQUIREMENT_TAG;

    /// Checks the invariants the field types cannot express.
    pub fn validate(&self) -> (r: Result<(), KernelError>)
        ensures
            match r {
                Ok(()) => kernel_fault(*self) is None,
                Err(e) => kernel_fault(*self) == Some(e@),
            },
    {
        match check_collections(self) {
            Ok(()) => {},
            Err(e) => return Err(e),
        }
        match check_distinct_symbols(self) {
            Ok(()) => {},
            Err(e) => return Err(e),
        }
        match &self.abi.target_release {
            Some(target) => {
                if !target.at_least(&self.abi.minimum_release) {
                    return Err(
                        KernelError::InvertedRelease {
                            minimum: self.abi.minimum_release.clone(),
                            target: target.clone(),
                        },
                    );
                }
            },
            None => {},
        }
        Ok(())
    }

    /// Refuses a payload past the scalar byte bound before it is decoded.
    pub fn check_length(bytes: usize) -> (r: Result<(), KernelError>)
        ensures
            match r {
                Ok(()) => bytes <= crate::fabrica::payload::MAX_PAYLOAD_BYTES,
                Err(e) => bytes > crate::fabrica::payload::MAX_PAYLOAD_BYTES && e@ == (
                KernelFault::TooLong {
                    bytes: bytes as nat,
                    bound: crate::fabrica::payload::MAX_PAYLOAD_BYTES as nat,
                }),
            },
    {
        if bytes > crate::fabrica::payload::MAX_PAYLOAD_BYTES {
            return Err(
                KernelError::TooLong {
                    bytes,
                    bound: crate::fabrica::payload::MAX_PAYLOAD_BYTES,
                },
            );
        }
        Ok(())
    }

    /// What decoding a payload gives once the decoder has run: the refusal
    /// for a payload it could not read (given the `schema` tag the payload
    /// claimed, when it claimed a readable one, and the decoder's reason),
    /// and otherwise the decoded payload once it validates.
    pub fn from_decoded(parsed: Result<KernelRequirement, (Option<String>, String)>) -> (r: Result<
        KernelRequirement,
        KernelError,
    >)
        ensures
            match parsed {
                Ok(req) => match r {
                    Ok(out) => out == req && kernel_fault(req) is None,
                    Err(e) => kernel_fault(req) == Some(e@),
                },
                Err((declared, reason)) => r matches Err(e) && e@ == decode_refusal(
                    match declared {
                        Some(d) => Some(d@),
                        None => None,
                    },
                    reason@,
                ),
            },
    {
        match parsed {
            Ok(req) => match req.validate() {
                Ok(()) => Ok(req),
                Err(e) => Err(e),
            },
            Err((declared, reason)) => match declared {
                Some(tag) => {
                    if !same_text(tag.as_str(), KERNEL_REQUIREMENT_TAG) {
                        Err(
                            KernelError::UnknownVersion {
                                declared: tag,
                                expected: KERNEL_REQUIREMENT_TAG,
                            },
                        )
                    } else {
                        Err(KernelError::Malformed { reason })
                    }
                },
                None => Err(KernelError::Malformed { reason }),
            },
        }
    }

    /// Renders the payload as a Kconfig fragment: the contract tag, the
    /// correlation identifier and the minimum release as comments, then each
    /// feature's requirement identifier and assignment. A payload that does
    /// not validate is refused rather than rendered short.
    pub fn config_fragment(&self) -> (r: Result<String, KernelError>)
        ensures
            match r {
                Ok(text) => kernel_fault(*self) is None && text@ == fragment_of(*self),
                Err(e) => kernel_fault(*self) == Some(e@),
            },
    {
        match self.validate() {
            Ok(()) => {},
            Err(e) => return Err(e),
        }
        let mut out = String::new();
        push_comment(&mut out, KERNEL_REQUIREMENT_TAG);
        let mut header = String::new();
        push_text(&mut header, "correlation-id: ");
        push_text(&mut header, self.correlation_id.as_str());
        push_comment(&mut out, header.as_str());
        let mut floor = String::new();
        push_text(&mut floor, "minimum kernel release: ");
        push_text(&mut floor, self.abi.minimum_release.as_str());
        push_comment(&mut out, floor.as_str());
        let ghost head = out@;
        let mut k: usize = 0;
        while k < self.features.len()
            invariant
                k <= self.features@.len(),
                out@ == head + feature_lines(self.features@.take(k as int)),
            decreases self.features.len() - k,
        {
            let feature = &self.features[k];
            assert(self.features@.take(k as int + 1).drop_last() =~= self.features@.take(k as int));
            push_comment(&mut out, feature.required_by.as_str());
            let line = feature.state.fragment_line(&feature.symbol);
            push_text(&mut out, line.as_str());
            push_text(&mut out, "\n");
            k += 1;
        }
        assert(self.features@.take(self.features@.len() as int) =~= self.features@);
        assert(out@ =~= fragment_of(*self));
        Ok(out)
    }

    /// Returns everything `profile` does not satisfy; empty means it does.
    /// A symbol the profile records nothing about is
    /// [`Unmet::Unobserved`], and a probe whose capability row is absent or
    /// false is [`Unmet::CapabilityAbsent`]: nothing reads as a silent pass.
    pub fn unmet(&self, profile: &ReferenceProfile) -> (r: Vec<Unmet>)
        ensures
            unmet_views(r@) == unmet_of(*self, profile@),
    {
        let mut out = self.unmet_identity(profile);
        let n: usize = if self.features.len() < MAX_FEATURES {
            self.features.len()
        } else {
            MAX_FEATURES
        };
        let ghost fs = at_most(self.features@, MAX_FEATURES as nat);
        let ghost head = unmet_views(out@);
        let mut k: usize = 0;
        while k < n
            invariant
                k <= n,
                fs.len() == n,
                fs == at_most(self.features@, MAX_FEATURES as nat),
                n <= self.features@.len(),
                forall|j: int| 0 <= j < n ==> fs[j] == self.features@[j],
                unmet_views(out@) == head + features_unmet(fs.take(k as int), profile@),
            decreases n - k,
        {
            let mut rows = unmet_feature(&self.features[k], profile);
            assert(fs.take(k as int + 1).drop_last() =~= fs.take(k as int));
            let ghost before = out@;
            out.append(&mut rows);
            assert(unmet_views(out@) =~= unmet_views(before) + feature_unmet(
                self.features@[k as int],
                profile@,
            ));
            k += 1;
        }
        assert(fs.take(n as int) =~= fs);
        let ghost whole = out@;
        out.truncate(MAX_UNMET);
        assert(unmet_views(out@) =~= at_most(unmet_views(whole), MAX_UNMET as nat));
        out
    }

    /// The architecture, release and ABI half of [`Self::unmet`].
    fn unmet_identity(&self, profile: &ReferenceProfile) -> (r: Vec<Unmet>)
        ensures
            unmet_views(r@) == identity_unmet(*self, profile@),
    {
        let mut out: Vec<Unmet> = Vec::new();
        let observed = profile.architecture();
        let n: usize = if self.architectures.len() < MAX_ARCHITECTURES {
            self.architectures.len()
        } else {
            MAX_ARCHITECTURES
        };
        let ghost accepted = at_most(self.architectures@, MAX_ARCHITECTURES as nat);
        let mut found = false;
        let mut k: usize = 0;
        while k < n
            invariant
                k <= n,
                n <= self.architectures@.len(),
                accepted.len() == n,
                forall|j: int| 0 <= j < n ==> accepted[j] == self.architectures@[j],
                found == (exists|j: int| 0 <= j < k && accepted[j] == observed),
            decreases n - k,
        {
            if self.architectures[k] == observed {
                assert(accepted[k as int] == observed);
                found = true;
            } else {
                assert(accepted[k as int] != observed);
            }
            assert(found == (exists|j: int| 0 <= j < k + 1 && accepted[j] == observed)) by {
                if found && !(exists|j: int| 0 <= j < k && accepted[j] == observed) {
                    assert(accepted[k as int] == observed);
                }
            }
            k += 1;
        }
        if !found {
            out.push(Unmet::ArchitectureNotAccepted { observed });
        }
        let ghost arch = unmet_views(out@);
        if !profile.release().at_least(&self.abi.minimum_release) {
            out.push(
                Unmet::ReleaseBelowMinimum {
                    observed: profile.release().clone(),
                    minimum: self.abi.minimum_release.clone(),
                },
            );
        }
        let ghost release = unmet_views(out@);
        match &self.abi.module_abi {
            Some(required) => {
                if !same_text(profile.release().as_str(), required.as_str()) {
                    out.push(
                        Unmet::AbiMismatch {
                            observed: profile.release().clone(),
                            required: required.clone(),
                        },
                    );
                }
            },
            None => {},
        }
        assert(unmet_views(out@) =~= identity_unmet(*self, profile@));
        out
    }
}

/// Appends one `# ...` comment line to a Kconfig fragment.
fn push_comment(out: &mut String, text: &str)
    ensures
        final(out)@ == old(out)@ + comment_line(text@),
{
    push_text(out, "# ");
    push_text(out, text);
    push_text(out, "\n");
    assert(final(out)@ =~= old(out)@ + comment_line(text@));
}

/// Returns what `profile` does not satisfy about one feature row.
fn unmet_feature(feature: &FeatureRequirement, profile: &ReferenceProfile) -> (r: Vec<Unmet>)
    ensures
        unmet_views(r@) == feature_unmet(*feature, profile@),
{
    let mut out: Vec<Unmet> = Vec::new();
    match feature.probe.capability() {
        Some(capability) => {
            let present = profile.capability(capability);
            let absent = match present {
                Some(p) => !p,
                None => true,
            };
            if absent {
                out.push(Unmet::CapabilityAbsent { probe: feature.probe, capability });
            }
        },
        None => {},
    }
    let ghost capability_rows = unmet_views(out@);
    match profile.state_of(&feature.symbol) {
        None => out.push(Unmet::Unobserved { symbol: feature.symbol.clone(), probe: feature.probe }),
        Some(observed) => {
            if !feature.state.satisfied_by(Some(observed)) {
                out.push(
                    Unmet::StateMismatch {
                        symbol: feature.symbol.clone(),
                        required: feature.state,
                        observed,
                    },
                );
            }
        },
    }
    assert(unmet_views(out@) =~= feature_unmet(*feature, profile@));
    out
}

proof fn lemma_feature_unmet_len(f: FeatureRequirement, p: ProfileView)
    ensures
        feature_unmet(f, p).len() <= 2,
{
}

proof fn lemma_features_unmet_len(fs: Seq<FeatureRequirement>, p: ProfileView)
    ensures
        features_unmet(fs, p).len() <= 2 * fs.len(),
    decreases fs.len(),
{
    if fs.len() > 0 {
        lemma_features_unmet_len(fs.drop_last(), p);
        lemma_feature_unmet_len(fs.last(), p);
    }
}

proof fn lemma_features_unmet_holds_row(fs: Seq<FeatureRequirement>, p: ProfileView, i: int)
    requires
        0 <= i < fs.len(),
    ensures
        forall|x: UnmetView|
            feature_unmet(fs[i], p).contains(x) ==> #[trigger] features_unmet(fs, p).contains(x),
    decreases fs.len(),
{
    let whole = features_unmet(fs, p);
    let rest = features_unmet(fs.drop_last(), p);
    if i < fs.len() - 1 {
        lemma_features_unmet_holds_row(fs.drop_last(), p, i);
    }
    assert forall|x: UnmetView| feature_unmet(fs[i], p).contains(x) implies #[trigger] whole.contains(
        x,
    ) by {
        let row = feature_unmet(fs[i], p);
        let k = choose|k: int| 0 <= k < row.len() && row[k] == x;
        if i == fs.len() - 1 {
            assert(whole[rest.len() + k] == x);
        } else {
            assert(rest.contains(x));
            let m = choose|m: int| 0 <= m < rest.len() && rest[m] == x;
            assert(whole[m] == x);
        }
    }
}

/// The unmet report of a payload that validates is never cut short: the
/// identity rows and every feature row's findings all appear in it, which is
/// why [`MAX_UNMET`] is derived from [`MAX_FEATURES`] rather than chosen.
pub proof fn unmet_report_is_complete(req: KernelRequirement, p: ProfileView)
    requires
        kernel_fault(req) is None,
    ensures
        unmet_of(req, p) == identity_unmet(req, p) + features_unmet(req.features@, p),
        unmet_of(req, p).len() <= MAX_UNMET,
{
    lemma_features_unmet_len(req.features@, p);
    assert(identity_unmet(req, p).len() <= 3);
    assert(at_most(req.features@, MAX_FEATURES as nat) == req.features@);
}

/// The check fails closed: for a payload that validates, a required symbol
/// the profile records nothing about is reported as unobserved, naming the
/// probe that would have recorded it.
pub proof fn unrecorded_symbol_is_reported(req: KernelRequirement, p: ProfileView, i: int)
    requires
        kernel_fault(req) is None,
        0 <= i < req.features@.len(),
        state_named(p.symbols, req.features@[i].symbol@) is None,
    ensures
        unmet_of(req, p).contains(
            UnmetView::Unobserved {
                symbol: req.features@[i].symbol@,
                probe: req.features@[i].probe,
            },
        ),
{
    unmet_report_is_complete(req, p);
    let f = req.features@[i];
    let row = feature_unmet(f, p);
    let target = UnmetView::Unobserved { symbol: f.symbol@, probe: f.probe };
    assert(row[row.len() - 1] == target);
    assert(row.contains(target));
    lemma_features_unmet_holds_row(req.features@, p, i);
    let all = features_unmet(req.features@, p);
    assert(all.contains(target));
    let m = choose|m: int| 0 <= m < all.len() && all[m] == target;
    let whole = identity_unmet(req, p) + all;
    assert(whole[identity_unmet(req, p).len() + m] == target);
}

/// A capability lookup finds a row of that name, and reports its presence.
proof fn lemma_capability_named_row(rows: Seq<(Seq<char>, bool, Seq<char>)>, name: Seq<char>)
    ensures
        capability_named(rows, name) matches Some(found) ==> exists|j: int|
            0 <= j < rows.len() && #[trigger] rows[j].0 == name && rows[j].1 == found.0,
    decreases rows.len(),
{
    if rows.len() > 0 && rows[0].0 != name {
        lemma_capability_named_row(rows.drop_first(), name);
        if let Some(found) = capability_named(rows, name) {
            let j = choose|j: int|
                0 <= j < rows.drop_first().len() && #[trigger] rows.drop_first()[j].0 == name
                    && rows.drop_first()[j].1 == found.0;
            assert(rows[j + 1] == rows.drop_first()[j]);
        }
    }
}

/// The check fails closed on capabilities: for a payload that validates, a
/// feature whose probe reads a capability the profile does not record as
/// present (no row of that name, or only rows recording it absent) is
/// reported as that capability absent, naming the probe.
pub proof fn unrecorded_capability_is_reported(
    req: KernelRequirement,
    p: ProfileView,
    i: int,
    capability: Seq<char>,
)
    requires
        kernel_fault(req) is None,
        0 <= i < req.features@.len(),
        probe_capability(req.features@[i].probe) == Some(capability),
        forall|j: int|
            0 <= j < p.capabilities.len() && #[trigger] p.capabilities[j].0 == capability
                ==> !p.capabilities[j].1,
    ensures
        unmet_of(req, p).contains(
            UnmetView::CapabilityAbsent { probe: req.features@[i].probe, capability },
        ),
{
    unmet_report_is_complete(req, p);
    lemma_capability_named_row(p.capabilities, capability);
    let f = req.features@[i];
    let row = feature_unmet(f, p);
    let target = UnmetView::CapabilityAbsent { probe: f.probe, capability };
    assert(row[0] == target);
    assert(row.contains(target));
    lemma_features_unmet_holds_row(req.features@, p, i);
    let all = features_unmet(req.features@, p);
    assert(all.contains(target));
    let m = choose|m: int| 0 <= m < all.len() && all[m] == target;
    let whole = identity_unmet(req, p) + all;
    assert(whole[identity_unmet(req, p).len() + m] == target);
}

} // verus!
