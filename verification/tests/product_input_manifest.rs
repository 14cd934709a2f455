//! The product input manifest: a content set and a retry budget in bounds,
//! and a definition set that parses and meets every recorded requirement.

use aegis::fabrica::field::{
    CorrelationId, PackageName, RelativePath, Revision, SnapshotId,
};
use aegis::fabrica::manifest::{
    BootKernel, BootKernelSource, DefinitionReferences, DistributionId, DistributionPin,
    MAX_BACKOFF_SECONDS, MAX_PACKAGES, MAX_RETRY_ATTEMPTS, ManifestError, PRODUCT_INPUT_TAG,
    ProductInputManifest, ProductInputVersion, RetryPolicy,
};
use aegis::fabrica::payload::MAX_PAYLOAD_BYTES;
use aegis::fabrica::{DefinitionError, FieldError, Finding, MAX_DEFINITIONS};

#[derive(Debug)]
struct Failure(String);

impl From<FieldError> for Failure {
    fn from(e: FieldError) -> Self {
        Failure(e.message())
    }
}

impl From<ManifestError> for Failure {
    fn from(e: ManifestError) -> Self {
        Failure(e.message())
    }
}

type Fallible = Result<(), Failure>;

const ESP: &str = "[Partition]\nType=esp\nFormat=vfat\nLabel=ESP\n\
SizeMinBytes=512M\nSizeMaxBytes=1G\nCopyFiles=/boot:/\nPriority=100\n";
const ROOT_A: &str = "[Partition]\nType=root\nFormat=erofs\nLabel=root-a\n\
Verity=data\nVerityMatchKey=root\nMinimize=yes\nPriority=90\nWeight=1000\n";
const ROOT_B: &str = "[Partition]\nType=root\nLabel=root-b\nPriority=90\nWeight=1000\n";
const VERITY: &str = "[Partition]\nType=root-verity\nVerity=hash\n\
VerityMatchKey=root\nMinimize=yes\nPriority=90\n";
const VAR: &str = "[Partition]\nType=var\nFormat=btrfs\nLabel=var\n\
Encrypt=tpm2\nSizeMinBytes=10G\nWeight=2000\n";
const TRANSFER: &str = "[Transfer]\nProtectVersion=%A\n\n\
[Source]\nType=url-file\nPath=https://releases.aegisos.org/update/\n\
MatchPattern=aegis-os-root-@v.raw.xz\n\n\
[Target]\nType=partition\nPath=auto\nMatchPattern=root-@v\n\
MatchPartitionType=root\nReadOnly=1\nMode=0444\nInstancesMax=2\n";

fn manifest() -> Result<ProductInputManifest, Failure> {
    Ok(ProductInputManifest {
        schema: ProductInputVersion::V1,
        correlation_id: CorrelationId::try_from("aegis-m18-product-input-0001".to_owned())?,
        revision: Revision::try_from("a".repeat(40))?,
        distribution: DistributionPin {
            id: DistributionId::Arch,
            snapshot: SnapshotId::try_from("2026/09/13".to_owned())?,
        },
        definitions: DefinitionReferences {
            repart: RelativePath::try_from("build/repart.d".to_owned())?,
            sysupdate: RelativePath::try_from("build/sysupdate.d".to_owned())?,
            mkosi: RelativePath::try_from("build/mkosi.conf".to_owned())?,
            kernel_requirement: RelativePath::try_from("build/kernel-requirement.json".to_owned())?,
        },
        packages: vec![PackageName::try_from("linux-rt".to_owned())?],
        kernel: BootKernel {
            source: BootKernelSource::DistributionPackage,
            default_package: PackageName::try_from("linux-rt".to_owned())?,
        },
        retries: RetryPolicy { max_attempts: 3, backoff_seconds: 30 },
    })
}

fn owned(rows: &[(&str, &str)]) -> Vec<(String, String)> {
    rows.iter()
        .map(|(name, text)| ((*name).to_owned(), (*text).to_owned()))
        .collect()
}

fn reviewed_repart() -> Vec<(String, String)> {
    owned(&[
        ("00-esp.conf", ESP),
        ("10-root-a.conf", ROOT_A),
        ("10-root-b.conf", ROOT_B),
        ("11-root-verity.conf", VERITY),
        ("20-var.conf", VAR),
    ])
}

#[test]
fn a_reviewed_manifest_validates_with_its_definitions() -> Fallible {
    let m = manifest()?;
    m.validate()?;
    m.validate_definitions(&reviewed_repart(), &owned(&[("aegis.transfer", TRANSFER)]))?;
    assert_eq!(ProductInputManifest::SCHEMA_TAG, PRODUCT_INPUT_TAG);
    Ok(())
}

#[test]
fn the_content_set_and_the_retry_budget_are_bounded() -> Fallible {
    let mut m = manifest()?;
    m.packages = Vec::new();
    assert_eq!(m.validate(), Err(ManifestError::NoPackages));
    m.packages = vec![PackageName::try_from("linux".to_owned())?; MAX_PACKAGES];
    m.validate()?;
    m.packages.push(PackageName::try_from("linux".to_owned())?);
    assert_eq!(
        m.validate(),
        Err(ManifestError::TooMany { what: "packages", bound: MAX_PACKAGES })
    );
    let mut r = manifest()?;
    r.retries = RetryPolicy { max_attempts: 0, backoff_seconds: 30 };
    assert_eq!(
        r.validate(),
        Err(ManifestError::RetryOutOfRange {
            what: "max-attempts",
            value: 0,
            bound: MAX_RETRY_ATTEMPTS,
        })
    );
    r.retries = RetryPolicy { max_attempts: MAX_RETRY_ATTEMPTS, backoff_seconds: MAX_BACKOFF_SECONDS + 1 };
    let refused = r.validate();
    assert_eq!(
        refused,
        Err(ManifestError::RetryOutOfRange {
            what: "backoff-seconds",
            value: 3601,
            bound: MAX_BACKOFF_SECONDS,
        })
    );
    assert_eq!(
        refused.unwrap_err().message(),
        "backoff-seconds of 3601 is outside 1..=3600"
    );
    r.retries = RetryPolicy { max_attempts: MAX_RETRY_ATTEMPTS, backoff_seconds: MAX_BACKOFF_SECONDS };
    r.validate()?;
    Ok(())
}

#[test]
fn an_empty_or_overlong_definition_set_is_refused() -> Fallible {
    let m = manifest()?;
    let transfers = owned(&[("aegis.transfer", TRANSFER)]);
    assert_eq!(
        m.validate_definitions(&[], &transfers),
        Err(ManifestError::NoDefinitions { what: "repart" })
    );
    assert_eq!(
        m.validate_definitions(&reviewed_repart(), &[]),
        Err(ManifestError::NoDefinitions { what: "sysupdate" })
    );
    let many: Vec<(String, String)> = (0..=MAX_DEFINITIONS)
        .map(|index| (format!("{index:02}-esp.conf"), ESP.to_owned()))
        .collect();
    assert_eq!(
        m.validate_definitions(&many, &transfers),
        Err(ManifestError::TooMany { what: "repart definitions", bound: MAX_DEFINITIONS })
    );
    assert_eq!(
        ManifestError::NoDefinitions { what: "repart" }.message(),
        "repart referenced by the manifest holds no definition"
    );
    Ok(())
}

#[test]
fn a_definition_the_parser_refuses_is_reported_under_its_reference() -> Fallible {
    let m = manifest()?;
    let mut repart = reviewed_repart();
    repart[4].1 = "[Partition]\nType=var\nSizeMinBytes=lots\n".to_owned();
    let refused = m.validate_definitions(&repart, &owned(&[("aegis.transfer", TRANSFER)]));
    let Err(ManifestError::DefinitionRefused { path, source }) = refused else {
        return Err(Failure(format!("expected a refused definition, got {refused:?}")));
    };
    assert_eq!(path, "build/repart.d");
    assert!(matches!(source, DefinitionError::MalformedValue { .. }), "{source:?}");
    Ok(())
}

#[test]
fn a_set_that_misses_a_requirement_is_refused_with_the_first_finding() -> Fallible {
    let m = manifest()?;
    let repart = owned(&[
        ("00-esp.conf", ESP),
        ("10-root-a.conf", ROOT_A),
        ("11-root-verity.conf", VERITY),
        ("20-var.conf", VAR),
    ]);
    let refused = m.validate_definitions(&repart, &owned(&[("aegis.transfer", TRANSFER)]));
    let Err(ManifestError::RequirementNotMet { path, finding }) = refused else {
        return Err(Failure(format!("expected a requirement refusal, got {refused:?}")));
    };
    assert_eq!(path, "build/repart.d");
    assert!(matches!(finding, Finding::MissingAlternateRootSlot { slots: 1 }), "{finding:?}");
    let writable = TRANSFER.replace("ReadOnly=1", "ReadOnly=0");
    let refused = m.validate_definitions(&reviewed_repart(), &owned(&[("aegis.transfer", &writable)]));
    assert!(
        matches!(refused, Err(ManifestError::RequirementNotMet { .. })),
        "{refused:?}"
    );
    Ok(())
}

#[test]
fn a_manifest_decoder_refusal_names_the_version_a_payload_claimed() -> Fallible {
    assert_eq!(
        ProductInputManifest::from_decoded(Err((Some("aegis.p01.product-input.v2".to_owned()), "x".to_owned()))),
        Err(ManifestError::UnknownVersion {
            declared: "aegis.p01.product-input.v2".to_owned(),
            expected: PRODUCT_INPUT_TAG,
        })
    );
    assert_eq!(
        ProductInputManifest::from_decoded(Err((None, "not json".to_owned()))),
        Err(ManifestError::Malformed { reason: "not json".to_owned() })
    );
    let decoded = ProductInputManifest::from_decoded(Ok(manifest()?))?;
    assert_eq!(decoded, manifest()?);
    assert_eq!(
        ProductInputManifest::check_length(MAX_PAYLOAD_BYTES + 1),
        Err(ManifestError::TooLong { bytes: MAX_PAYLOAD_BYTES + 1, bound: MAX_PAYLOAD_BYTES })
    );
    assert_eq!(
        ManifestError::UnknownVersion { declared: "v2".to_owned(), expected: "v1" }.message(),
        "the payload claims contract version \"v2\", not \"v1\""
    );
    Ok(())
}

fn reviewed_transfers() -> Vec<(String, String)> {
    owned(&[("aegis.transfer", TRANSFER)])
}

/// Negative: a manifest pointing at a broken definition set is refused; the
/// drop-in is one systemd itself refuses, a `[Partition]` with no `Type=`.
#[test]
fn a_manifest_is_refused_when_its_definition_set_does_not_parse() -> Fallible {
    let manifest = manifest()?;
    let broken = owned(&[("50-no-type.conf", "[Partition]\nLabel=nowhere\n")]);
    let refused = manifest.validate_definitions(&broken, &reviewed_transfers());
    assert!(
        matches!(refused, Err(ManifestError::DefinitionRefused { .. })),
        "{refused:?}"
    );
    Ok(())
}

/// Negative: a definition set that parses but is not A/B is refused with the
/// finding, not a generic refusal.
#[test]
fn a_manifest_is_refused_when_its_definition_set_is_not_ab() -> Fallible {
    let manifest = manifest()?;
    let mut repart = reviewed_repart();
    assert_eq!(repart.len(), 5, "the reviewed repart set is five drop-ins");
    repart.retain(|(name, _)| name != "10-root-b.conf");
    assert_eq!(repart.len(), 4, "dropping one of five leaves four");
    let refused = manifest.validate_definitions(&repart, &reviewed_transfers());
    let Err(ManifestError::RequirementNotMet { path, finding }) = refused else {
        return Err(Failure(format!("expected a requirement refusal, got {refused:?}")));
    };
    assert_eq!(path, "build/repart.d");
    assert_eq!(finding, Finding::MissingAlternateRootSlot { slots: 1 });
    Ok(())
}

/// Negative: an empty definition set is refused, not read as "nothing to do".
#[test]
fn an_empty_definition_set_is_refused() -> Fallible {
    let manifest = manifest()?;
    let refused = manifest.validate_definitions(&[], &reviewed_transfers());
    assert!(
        matches!(refused, Err(ManifestError::NoDefinitions { what: "repart" })),
        "{refused:?}"
    );
    let no_transfer = manifest.validate_definitions(&reviewed_repart(), &[]);
    assert!(
        matches!(no_transfer, Err(ManifestError::NoDefinitions { what: "sysupdate" })),
        "{no_transfer:?}"
    );
    Ok(())
}

/// Boundary: a retry count at the bound is accepted and one above is refused.
#[test]
fn a_retry_count_at_the_bound_is_accepted_and_one_above_is_refused() -> Fallible {
    let mut manifest = manifest()?;
    manifest.retries = RetryPolicy {
        max_attempts: MAX_RETRY_ATTEMPTS,
        backoff_seconds: MAX_BACKOFF_SECONDS,
    };
    manifest.validate()?;

    manifest.retries.max_attempts = MAX_RETRY_ATTEMPTS.saturating_add(1);
    let over = manifest.validate();
    assert!(
        matches!(over, Err(ManifestError::RetryOutOfRange { what: "max-attempts", .. })),
        "{over:?}"
    );

    manifest.retries.max_attempts = 0;
    assert!(manifest.validate().is_err());

    manifest.retries.max_attempts = 1;
    manifest.retries.backoff_seconds = MAX_BACKOFF_SECONDS.saturating_add(1);
    let backoff = manifest.validate();
    assert!(
        matches!(backoff, Err(ManifestError::RetryOutOfRange { what: "backoff-seconds", .. })),
        "{backoff:?}"
    );
    Ok(())
}

/// Boundary: the package bound is exact, and one package past it is refused.
#[test]
fn the_package_bound_is_exact() -> Fallible {
    let mut manifest = manifest()?;
    let one = manifest
        .packages
        .first()
        .ok_or(Failure("the manifest pins no package".to_owned()))?
        .clone();
    manifest.packages = vec![one.clone(); MAX_PACKAGES];
    manifest.validate()?;
    manifest.packages.push(one);
    let over = manifest.validate();
    assert!(
        matches!(over, Err(ManifestError::TooMany { what: "packages", bound: MAX_PACKAGES })),
        "{over:?}"
    );
    Ok(())
}

/// Boundary: the transfer bound is exact, and one transfer past it is
/// refused; the broken transfer appended past the bound is what makes the
/// refusal load-bearing.
#[test]
fn the_transfer_bound_is_exact() -> Fallible {
    let manifest = manifest()?;
    let repart = reviewed_repart();
    let one = reviewed_transfers()
        .first()
        .ok_or(Failure("the transfer set is empty".to_owned()))?
        .clone();
    let at_bound = vec![one; MAX_DEFINITIONS];
    manifest.validate_definitions(&repart, &at_bound)?;

    let mut over = at_bound;
    over.push((
        "99-not-a-transfer.conf".to_owned(),
        "[Transfer]\nNotAKey=whatever\n".to_owned(),
    ));
    assert_eq!(over.len(), MAX_DEFINITIONS.saturating_add(1));
    let refused = manifest.validate_definitions(&repart, &over);
    assert!(
        matches!(
            refused,
            Err(ManifestError::TooMany { what: "sysupdate definitions", bound: MAX_DEFINITIONS })
        ),
        "{refused:?}"
    );
    Ok(())
}
