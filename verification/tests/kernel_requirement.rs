//! The kernel requirement: rows render as Kconfig lines, the payload renders
//! as a fragment only when it validates, and a measured profile is checked
//! against it failing closed.

use aegis::fabrica::field::{ConfigSymbol, CorrelationId, KernelRelease, RequirementId};
use aegis::fabrica::kernel::{
    Architecture, ConfigState, FeatureRequirement, KERNEL_REQUIREMENT_TAG, KernelAbi, KernelError,
    KernelRequirement, KernelRequirementVersion, MAX_ARCHITECTURES, MAX_FEATURES, MAX_UNMET,
    ProbeSource, ReferenceProfile, RequiredState, Unmet,
};
use aegis::fabrica::payload::MAX_PAYLOAD_BYTES;
use aegis::fabrica::FieldError;

#[derive(Debug)]
struct Failure(String);

impl From<FieldError> for Failure {
    fn from(e: FieldError) -> Self {
        Failure(e.message())
    }
}

impl From<KernelError> for Failure {
    fn from(e: KernelError) -> Self {
        Failure(e.message())
    }
}

impl From<&str> for Failure {
    fn from(e: &str) -> Self {
        Failure(e.to_owned())
    }
}

impl From<String> for Failure {
    fn from(e: String) -> Self {
        Failure(e)
    }
}

type Fallible = Result<(), Failure>;

fn row(symbol: &str, state: RequiredState, probe: ProbeSource) -> Result<FeatureRequirement, Failure> {
    Ok(FeatureRequirement {
        symbol: ConfigSymbol::try_from(symbol.to_owned())?,
        state,
        probe,
        required_by: RequirementId::try_from("REQ-P07-01".to_owned())?,
    })
}

fn release(text: &str) -> Result<KernelRelease, Failure> {
    Ok(KernelRelease::try_from(text.to_owned())?)
}

fn reviewed() -> Result<KernelRequirement, Failure> {
    Ok(KernelRequirement {
        schema: KernelRequirementVersion::V1,
        correlation_id: CorrelationId::try_from("aegis-m18-kernel-requirement-0001".to_owned())?,
        architectures: vec![Architecture::X86_64],
        abi: KernelAbi {
            minimum_release: release("6.12")?,
            target_release: Some(release("7.3")?),
            module_abi: None,
        },
        features: vec![
            row("CONFIG_PREEMPT_RT", RequiredState::BuiltIn, ProbeSource::KernelConfig)?,
            row("CONFIG_HZ_1000", RequiredState::BuiltIn, ProbeSource::KernelConfig)?,
            row("CONFIG_SCHED_CLASS_EXT", RequiredState::BuiltIn, ProbeSource::KernelConfig)?,
            row("CONFIG_BPF_LSM", RequiredState::BuiltIn, ProbeSource::LsmList)?,
            row("CONFIG_DEBUG_INFO_BTF", RequiredState::BuiltIn, ProbeSource::BtfVmlinux)?,
            row("CONFIG_POWERCAP", RequiredState::BuiltIn, ProbeSource::Powercap)?,
            row("CONFIG_INTEL_RAPL", RequiredState::Present, ProbeSource::Powercap)?,
            row("CONFIG_IOMMU_API", RequiredState::BuiltIn, ProbeSource::IommuGroups)?,
            row("CONFIG_VFIO", RequiredState::Module, ProbeSource::KernelConfig)?,
            row("CONFIG_KVM", RequiredState::Present, ProbeSource::KernelConfig)?,
        ],
        artifact: None,
    })
}

fn assignment_lines(fragment: &str) -> usize {
    fragment.lines().filter(|line| !line.starts_with('#')).count()
}

fn profile(config: &[(&str, &str)], capabilities: &[(&str, bool)]) -> Result<ReferenceProfile, Failure> {
    Ok(ReferenceProfile::from_parts(
        release("7.2.4-1-cachyos")?,
        Architecture::X86_64,
        config
            .iter()
            .map(|(name, value)| ((*name).to_owned(), (*value).to_owned()))
            .collect(),
        capabilities
            .iter()
            .map(|(name, present)| ((*name).to_owned(), *present, format!("probe {name}")))
            .collect(),
    )?)
}

#[test]
fn each_required_state_is_satisfied_by_exactly_the_states_it_names() {
    let observed = [
        ConfigState::BuiltIn,
        ConfigState::Module,
        ConfigState::NotSet,
    ];
    let expected = [
        (RequiredState::BuiltIn, [true, false, false]),
        (RequiredState::Module, [false, true, false]),
        (RequiredState::Present, [true, true, false]),
        (RequiredState::Absent, [false, false, true]),
    ];
    for (required, admits) in expected {
        for (index, state) in observed.iter().enumerate() {
            let satisfied = required.satisfied_by(Some(*state));
            assert_eq!(
                satisfied,
                admits.get(index).copied().unwrap_or(false),
                "{required:?} against {}",
                state.tag()
            );
        }
        assert!(!required.satisfied_by(None), "{required:?} against nothing");
    }
    assert_eq!(ConfigState::parse("y"), Some(ConfigState::BuiltIn));
    assert_eq!(ConfigState::parse("m"), Some(ConfigState::Module));
    assert_eq!(ConfigState::parse("not set"), Some(ConfigState::NotSet));
    assert_eq!(ConfigState::parse("maybe"), None);
}

#[test]
fn each_required_state_renders_one_kconfig_line() -> Fallible {
    let symbol = ConfigSymbol::try_from("CONFIG_VFIO".to_owned())?;
    assert_eq!(RequiredState::BuiltIn.fragment_line(&symbol), "CONFIG_VFIO=y");
    assert_eq!(RequiredState::Module.fragment_line(&symbol), "CONFIG_VFIO=m");
    assert_eq!(RequiredState::Present.fragment_line(&symbol), "CONFIG_VFIO=y");
    assert_eq!(
        RequiredState::Absent.fragment_line(&symbol),
        "# CONFIG_VFIO is not set"
    );
    Ok(())
}

#[test]
fn a_state_is_read_around_white_space_in_every_spelling() {
    assert_eq!(ConfigState::parse("  y\n"), Some(ConfigState::BuiltIn));
    assert_eq!(ConfigState::parse("n"), Some(ConfigState::NotSet));
    assert_eq!(ConfigState::parse("not-set"), Some(ConfigState::NotSet));
    assert_eq!(ConfigState::parse("Y"), None);
    assert_eq!(ConfigState::parse(""), None);
    assert_eq!(ConfigState::NotSet.tag(), "not set");
}

#[test]
fn every_feature_row_renders_its_own_probe_command() -> Fallible {
    let requirement = reviewed()?;
    let commands: Vec<String> = requirement.features.iter().map(|f| f.probe_command()).collect();
    assert_eq!(commands[0], "zgrep CONFIG_PREEMPT_RT /proc/config.gz");
    assert_eq!(commands[3], "cat /sys/kernel/security/lsm");
    assert_eq!(commands[4], "ls /sys/kernel/btf/vmlinux");
    assert_eq!(commands[5], "ls /sys/class/powercap");
    assert_eq!(commands[7], "ls /sys/kernel/iommu_groups");
    for feature in &requirement.features {
        assert!(feature.probe_command().contains(feature.probe.path()));
    }
    assert_eq!(ProbeSource::KernelConfig.capability(), None);
    assert_eq!(ProbeSource::LsmList.capability(), Some("bpf_lsm"));
    Ok(())
}

#[test]
fn the_payload_renders_as_a_kconfig_fragment() -> Fallible {
    let requirement = reviewed()?;
    let fragment = requirement.config_fragment()?;
    assert!(fragment.starts_with(&format!("# {KERNEL_REQUIREMENT_TAG}\n")));
    assert!(fragment.contains("# correlation-id: aegis-m18-kernel-requirement-0001\n"));
    assert!(fragment.contains("# minimum kernel release: 6.12\n"));
    assert!(fragment.contains("# REQ-P07-01\nCONFIG_PREEMPT_RT=y\n"));
    assert!(fragment.contains("CONFIG_VFIO=m"));
    assert_eq!(assignment_lines(&fragment), requirement.features.len());
    for line in fragment.lines() {
        assert!(line.starts_with('#') || line.contains('='), "{line:?}");
    }
    assert_eq!(KernelRequirement::SCHEMA_TAG, KERNEL_REQUIREMENT_TAG);
    Ok(())
}

/// Positive: a fragment carries nothing but comments and assignments.
#[test]
fn a_fragment_carries_nothing_but_comments_and_assignments() -> Fallible {
    let fragment = reviewed()?.config_fragment()?;
    for line in fragment.lines() {
        let shaped = line.starts_with('#') || line.contains('=');
        assert!(shaped, "fragment line {line:?} is neither comment nor assignment");
    }
    Ok(())
}

/// Boundary: a fragment is rendered whole at the feature bound and refused
/// one row past it, rather than rendered short.
#[test]
fn a_fragment_is_rendered_whole_at_the_bound_and_refused_past_it() -> Fallible {
    let mut requirement = reviewed()?;
    let mut features: Vec<FeatureRequirement> = Vec::new();
    for index in 0..MAX_FEATURES {
        features.push(row(
            &format!("CONFIG_BOUND_{index}"),
            RequiredState::BuiltIn,
            ProbeSource::KernelConfig,
        )?);
    }
    requirement.features = features;
    let fragment = requirement.config_fragment()?;
    assert_eq!(assignment_lines(&fragment), MAX_FEATURES);

    requirement.features.push(row(
        "CONFIG_ONE_TOO_MANY",
        RequiredState::BuiltIn,
        ProbeSource::KernelConfig,
    )?);
    let refused = requirement.config_fragment();
    assert!(
        matches!(
            refused,
            Err(KernelError::TooMany {
                what: "features",
                bound: MAX_FEATURES
            })
        ),
        "{refused:?}"
    );
    Ok(())
}

#[test]
fn a_disabled_feature_renders_as_the_kconfig_not_set_comment() -> Fallible {
    let mut requirement = reviewed()?;
    requirement.features = vec![row(
        "CONFIG_PREEMPT_RT",
        RequiredState::Absent,
        ProbeSource::KernelConfig,
    )?];
    let fragment = requirement.config_fragment()?;
    assert!(fragment.contains("# CONFIG_PREEMPT_RT is not set"));
    assert!(!fragment.contains("CONFIG_PREEMPT_RT=y"));
    Ok(())
}

#[test]
fn a_repeated_symbol_is_refused() -> Fallible {
    let mut requirement = reviewed()?;
    let first = requirement.features[0].clone();
    requirement.features.push(first.clone());
    let refused = requirement.validate();
    let Err(KernelError::DuplicateSymbol { symbol }) = refused else {
        return Err(format!("expected a duplicate refusal, got {refused:?}").into());
    };
    assert_eq!(symbol, first.symbol);
    assert_eq!(
        KernelError::DuplicateSymbol { symbol }.message(),
        "the payload requires CONFIG_PREEMPT_RT more than once"
    );
    Ok(())
}

#[test]
fn a_target_release_older_than_the_minimum_is_refused() -> Fallible {
    let mut requirement = reviewed()?;
    requirement.abi.minimum_release = release("7.3")?;
    requirement.abi.target_release = Some(release("6.12")?);
    let refused = requirement.validate();
    let Err(KernelError::InvertedRelease { minimum, target }) = refused else {
        return Err(format!("expected an inverted-release refusal, got {refused:?}").into());
    };
    assert_eq!(minimum.as_str(), "7.3");
    assert_eq!(target.as_str(), "6.12");
    Ok(())
}

#[test]
fn an_empty_requirement_list_is_refused_explicitly() -> Fallible {
    let mut requirement = reviewed()?;
    requirement.features = Vec::new();
    assert_eq!(requirement.validate(), Err(KernelError::NoFeatures));
    let mut no_arch = reviewed()?;
    no_arch.architectures = Vec::new();
    assert_eq!(no_arch.validate(), Err(KernelError::NoArchitectures));
    assert_eq!(
        KernelError::NoFeatures.message(),
        "the payload lists no required feature; an empty requirement is refused"
    );
    Ok(())
}

#[test]
fn the_feature_and_architecture_bounds_are_exact() -> Fallible {
    let mut requirement = reviewed()?;
    let mut features: Vec<FeatureRequirement> = Vec::new();
    for index in 0..MAX_FEATURES {
        features.push(row(
            &format!("CONFIG_BOUND_{index}"),
            RequiredState::Present,
            ProbeSource::KernelConfig,
        )?);
    }
    requirement.features = features;
    requirement.validate()?;
    requirement.features.push(row(
        "CONFIG_ONE_TOO_MANY",
        RequiredState::Present,
        ProbeSource::KernelConfig,
    )?);
    assert_eq!(
        requirement.validate(),
        Err(KernelError::TooMany { what: "features", bound: MAX_FEATURES })
    );
    assert_eq!(
        requirement.config_fragment(),
        Err(KernelError::TooMany { what: "features", bound: MAX_FEATURES })
    );

    let mut arches = reviewed()?;
    arches.architectures = vec![Architecture::Arm64; MAX_ARCHITECTURES.saturating_add(1)];
    assert_eq!(
        arches.validate(),
        Err(KernelError::TooMany { what: "architectures", bound: MAX_ARCHITECTURES })
    );
    Ok(())
}

#[test]
fn a_decoder_refusal_names_the_version_a_payload_claimed() -> Fallible {
    let other = KernelRequirement::from_decoded(Err((
        Some("aegis.p01-nucleus.kernel-requirement.v2".to_owned()),
        "unknown variant".to_owned(),
    )));
    assert_eq!(
        other,
        Err(KernelError::UnknownVersion {
            declared: "aegis.p01-nucleus.kernel-requirement.v2".to_owned(),
            expected: KERNEL_REQUIREMENT_TAG,
        })
    );
    let same = KernelRequirement::from_decoded(Err((
        Some(KERNEL_REQUIREMENT_TAG.to_owned()),
        "missing field".to_owned(),
    )));
    assert_eq!(same, Err(KernelError::Malformed { reason: "missing field".to_owned() }));
    let none = KernelRequirement::from_decoded(Err((None, "not json".to_owned())));
    assert_eq!(none, Err(KernelError::Malformed { reason: "not json".to_owned() }));
    let decoded = KernelRequirement::from_decoded(Ok(reviewed()?))?;
    assert_eq!(decoded, reviewed()?);
    assert_eq!(
        KernelRequirement::check_length(MAX_PAYLOAD_BYTES + 1),
        Err(KernelError::TooLong { bytes: MAX_PAYLOAD_BYTES + 1, bound: MAX_PAYLOAD_BYTES })
    );
    assert!(KernelRequirement::check_length(MAX_PAYLOAD_BYTES).is_ok());
    Ok(())
}

#[test]
fn a_profile_that_records_everything_satisfies_the_requirement() -> Fallible {
    let requirement = reviewed()?;
    let satisfied = profile(
        &[
            ("CONFIG_PREEMPT_RT", "y"),
            ("CONFIG_HZ_1000", "y"),
            ("CONFIG_SCHED_CLASS_EXT", "y"),
            ("CONFIG_BPF_LSM", "y"),
            ("CONFIG_DEBUG_INFO_BTF", "y"),
            ("CONFIG_POWERCAP", "y"),
            ("CONFIG_INTEL_RAPL", "m"),
            ("CONFIG_IOMMU_API", "y"),
            ("CONFIG_VFIO", "m"),
            ("CONFIG_KVM", "y"),
        ],
        &[("bpf_lsm", true), ("btf", true), ("rapl_energy_counters", true), ("iommu", true)],
    )?;
    assert_eq!(requirement.unmet(&satisfied), Vec::new());
    assert_eq!(satisfied.architecture(), Architecture::X86_64);
    assert_eq!(satisfied.release().as_str(), "7.2.4-1-cachyos");
    assert_eq!(satisfied.capability("btf"), Some(true));
    assert_eq!(satisfied.capability_evidence("btf"), Some("probe btf"));
    assert_eq!(satisfied.capability("gpu"), None);
    Ok(())
}

#[test]
fn the_check_fails_closed() -> Fallible {
    let mut requirement = reviewed()?;
    requirement.features = vec![
        row("CONFIG_BPF_LSM", RequiredState::BuiltIn, ProbeSource::LsmList)?,
        row("CONFIG_VFIO", RequiredState::Module, ProbeSource::KernelConfig)?,
    ];
    requirement.abi.module_abi = Some(release("7.3.0-aegis")?);
    let measured = profile(&[("CONFIG_VFIO", "y")], &[("bpf_lsm", false)])?;
    let unmet = requirement.unmet(&measured);
    assert_eq!(
        unmet,
        vec![
            Unmet::AbiMismatch {
                observed: release("7.2.4-1-cachyos")?,
                required: release("7.3.0-aegis")?,
            },
            Unmet::CapabilityAbsent { probe: ProbeSource::LsmList, capability: "bpf_lsm" },
            Unmet::Unobserved {
                symbol: ConfigSymbol::try_from("CONFIG_BPF_LSM".to_owned())?,
                probe: ProbeSource::LsmList,
            },
            Unmet::StateMismatch {
                symbol: ConfigSymbol::try_from("CONFIG_VFIO".to_owned())?,
                required: RequiredState::Module,
                observed: ConfigState::BuiltIn,
            },
        ]
    );
    assert_eq!(
        unmet[2].message(),
        "CONFIG_BPF_LSM is not recorded in the profile; read it with /sys/kernel/security/lsm"
    );
    assert_eq!(
        unmet[3].message(),
        "CONFIG_VFIO is y in the profile, and Module is required"
    );
    assert!(unmet.len() <= MAX_UNMET);
    Ok(())
}

#[test]
fn an_old_kernel_on_another_architecture_is_reported() -> Fallible {
    let mut requirement = reviewed()?;
    requirement.features = vec![row("CONFIG_KVM", RequiredState::Present, ProbeSource::KernelConfig)?];
    requirement.abi.minimum_release = release("7.3")?;
    requirement.architectures = vec![Architecture::Arm64];
    let measured = profile(&[("CONFIG_KVM", "m")], &[])?;
    let unmet = requirement.unmet(&measured);
    assert_eq!(
        unmet,
        vec![
            Unmet::ArchitectureNotAccepted { observed: Architecture::X86_64 },
            Unmet::ReleaseBelowMinimum {
                observed: release("7.2.4-1-cachyos")?,
                minimum: release("7.3")?,
            },
        ]
    );
    assert_eq!(
        unmet[0].message(),
        "the profile reports architecture x86-64, which the requirement does not accept"
    );
    Ok(())
}

#[test]
fn an_unreadable_profile_state_is_refused() -> Fallible {
    let refused = profile(&[("CONFIG_KVM", "maybe")], &[]);
    assert!(refused.is_err());
    let direct = ReferenceProfile::from_parts(
        release("6.12")?,
        Architecture::Arm64,
        vec![("CONFIG_A".to_owned(), "y".to_owned()), ("CONFIG_B".to_owned(), "2".to_owned())],
        Vec::new(),
    );
    assert_eq!(
        direct,
        Err(KernelError::UnreadableProfile {
            reason: "kernel.config[CONFIG_B] is \"2\", not y, m or not set".to_owned(),
        })
    );
    assert!(ReferenceProfile::check_size(1 << 20).is_ok());
    assert_eq!(
        ReferenceProfile::check_size((1 << 20) + 1),
        Err(KernelError::UnreadableProfile {
            reason: "1048577 bytes, past the bound of 1048576".to_owned(),
        })
    );
    Ok(())
}
