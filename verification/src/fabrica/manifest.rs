//! The product input manifest: what this repository hands to a builder.
//!
//! Each direction across the boundary needs a schema, a correlation
//! identifier, an exact revision, bounded retries and a recorded result. The
//! manifest is the Aegis-owned half of that, typed, and
//! [`ProductInputManifest::validate_definitions`] runs the text of the
//! referenced definitions through the same repart and sysupdate parsers the
//! definition gate uses: a manifest is valid only when the definition set it
//! points at is valid and meets every recorded requirement.

use vstd::prelude::*;
use crate::fabrica::error::{DefinitionError, DefinitionFault, fault_message};
use crate::fabrica::field::{CorrelationId, PackageName, RelativePath, Revision, SnapshotId};
use crate::fabrica::finding::{Finding, FindingView, finding_message, findings_view};
use crate::fabrica::payload::MAX_PAYLOAD_BYTES;
use crate::fabrica::repart::{
    MAX_DEFINITIONS, RepartDefinition, RepartView, check_repart_set, definitions_view,
    repart_parse, repart_set_findings,
};
use crate::fabrica::sysupdate::{TransferDefinition, transfer_findings, transfer_parse};
use crate::text::{debug_quote, debug_quoted, decimal, push_decimal, push_text, same_text};

verus! {

/// The stable tag the payload's `schema` field carries.
pub const PRODUCT_INPUT_TAG: &'static str = "aegis.p01.product-input.v1";

/// Scalar bound on the packages one manifest may pin.
pub const MAX_PACKAGES: usize = 64;

/// The most delivery attempts one request may make.
pub const MAX_RETRY_ATTEMPTS: u32 = 5;

/// The longest backoff, in seconds, one request may wait between attempts.
pub const MAX_BACKOFF_SECONDS: u32 = 3600;

/// The contract versions of the product input manifest this build admits.
#[derive(Debug, Clone, Copy, PartialEq, Eq, Hash, Structural)]
#[non_exhaustive]
pub enum ProductInputVersion {
    /// Version 1, tagged `aegis.p01.product-input.v1`.
    V1,
}

/// The distributions an image may be built from, spelled as mkosi's
/// `Distribution=` values.
#[derive(Debug, Clone, Copy, PartialEq, Eq, Hash, Structural)]
pub enum DistributionId {
    /// Arch Linux, spelled `arch`.
    Arch,
}

/// The pinned distribution input: a distribution and a dated snapshot, with
/// no unpinned spelling.
#[derive(Debug, Clone, PartialEq, Eq)]
pub struct DistributionPin {
    /// The distribution the image is built from.
    pub id: DistributionId,
    /// The dated snapshot every package version is resolved against.
    pub snapshot: SnapshotId,
}

/// Where the reviewed configuration inputs live in this repository.
#[derive(Debug, Clone, PartialEq, Eq)]
pub struct DefinitionReferences {
    /// The `repart.d(5)` drop-in directory.
    pub repart: RelativePath,
    /// The `sysupdate.d(5)` transfer directory.
    pub sysupdate: RelativePath,
    /// The mkosi configuration the image gate resolves.
    pub mkosi: RelativePath,
    /// The kernel requirement payload the kernel build consumes.
    pub kernel_requirement: RelativePath,
}

/// Where the boot kernel comes from.
#[derive(Debug, Clone, Copy, PartialEq, Eq, Hash, Structural)]
pub enum BootKernelSource {
    /// The pinned distribution package, the default.
    DistributionPackage,
    /// The kernel this repository builds while the producer is a scaffold.
    BuiltHere,
    /// A producer artifact consumed through its contract.
    ProducerArtifact,
}

/// The boot kernel identity: which source is in force, and the distribution
/// package that boots by default.
#[derive(Debug, Clone, PartialEq, Eq)]
pub struct BootKernel {
    /// Which source is in force.
    pub source: BootKernelSource,
    /// The pinned distribution package that is the default.
    pub default_package: PackageName,
}

/// The bounded retry budget for one request across the boundary.
#[derive(Debug, Clone, Copy, PartialEq, Eq, Hash, Structural)]
pub struct RetryPolicy {
    /// How many attempts one request may make in total.
    pub max_attempts: u32,
    /// How long to wait between attempts, in seconds.
    pub backoff_seconds: u32,
}

/// The product input manifest payload.
#[derive(Debug, Clone, PartialEq, Eq)]
pub struct ProductInputManifest {
    /// The contract version this payload claims.
    pub schema: ProductInputVersion,
    /// The identifier threading this request and its result together.
    pub correlation_id: CorrelationId,
    /// The exact source revision the referenced inputs were read at.
    pub revision: Revision,
    /// The pinned distribution input.
    pub distribution: DistributionPin,
    /// Where the reviewed configuration inputs live.
    pub definitions: DefinitionReferences,
    /// The image content set the recorded requirements name.
    pub packages: Vec<PackageName>,
    /// The boot kernel identity.
    pub kernel: BootKernel,
    /// The bounded retry budget.
    pub retries: RetryPolicy,
}

/// Why a product input manifest was refused.
#[derive(Debug, Clone, PartialEq, Eq)]
#[non_exhaustive]
pub enum ManifestError {
    /// The payload names a contract version this build does not admit.
    UnknownVersion { declared: String, expected: &'static str },
    /// The payload is not a well-formed instance of the contract.
    Malformed { reason: String },
    /// The payload does not fit the scalar byte bound.
    TooLong { bytes: usize, bound: usize },
    /// The payload pins no package at all.
    NoPackages,
    /// The payload carries more rows than a bound allows.
    TooMany { what: &'static str, bound: usize },
    /// The retry budget is outside its declared bounds.
    RetryOutOfRange { what: &'static str, value: u32, bound: u32 },
    /// The definition set the manifest points at is empty.
    NoDefinitions { what: &'static str },
    /// A referenced definition is not valid input.
    DefinitionRefused { path: String, source: DefinitionError },
    /// A referenced definition set does not meet a recorded requirement.
    RequirementNotMet { path: String, finding: Finding },
}

/// The mathematical content of a [`ManifestError`].
pub enum ManifestFault {
    UnknownVersion { declared: Seq<char>, expected: Seq<char> },
    Malformed { reason: Seq<char> },
    TooLong { bytes: nat, bound: nat },
    NoPackages,
    TooMany { what: Seq<char>, bound: nat },
    RetryOutOfRange { what: Seq<char>, value: nat, bound: nat },
    NoDefinitions { what: Seq<char> },
    DefinitionRefused { path: Seq<char>, source: DefinitionFault },
    RequirementNotMet { path: Seq<char>, finding: FindingView },
}

impl View for ManifestError {
    type V = ManifestFault;

    open spec fn view(&self) -> ManifestFault {
        match self {
            ManifestError::UnknownVersion { declared, expected } => ManifestFault::UnknownVersion {
                declared: declared@,
                expected: expected@,
            },
            ManifestError::Malformed { reason } => ManifestFault::Malformed { reason: reason@ },
            ManifestError::TooLong { bytes, bound } => ManifestFault::TooLong {
                bytes: *bytes as nat,
                bound: *bound as nat,
            },
            ManifestError::NoPackages => ManifestFault::NoPackages,
            ManifestError::TooMany { what, bound } => ManifestFault::TooMany {
                what: what@,
                bound: *bound as nat,
            },
            ManifestError::RetryOutOfRange { what, value, bound } =>
                ManifestFault::RetryOutOfRange {
                what: what@,
                value: *value as nat,
                bound: *bound as nat,
            },
            ManifestError::NoDefinitions { what } => ManifestFault::NoDefinitions { what: what@ },
            ManifestError::DefinitionRefused { path, source } => ManifestFault::DefinitionRefused {
                path: path@,
                source: source@,
            },
            ManifestError::RequirementNotMet { path, finding } =>
                ManifestFault::RequirementNotMet {
                path: path@,
                finding: finding@,
            },
        }
    }
}

/// The text a [`ManifestError`] is reported with.
pub open spec fn manifest_fault_message(f: ManifestFault) -> Seq<char> {
    match f {
        ManifestFault::UnknownVersion { declared, expected } =>
            "the payload claims contract version "@ + debug_quoted(declared) + ", not "@
                + debug_quoted(expected),
        ManifestFault::Malformed { reason } =>
            "the payload is not a well-formed product input manifest: "@ + reason,
        ManifestFault::TooLong { bytes, bound } => "the payload is "@ + decimal(bytes)
            + " bytes, past the bound of "@ + decimal(bound),
        ManifestFault::NoPackages =>
            "the payload pins no package; an empty content set is refused"@,
        ManifestFault::TooMany { what, bound } => "the payload carries more than "@ + decimal(
            bound,
        ) + " "@ + what,
        ManifestFault::RetryOutOfRange { what, value, bound } => what + " of "@ + decimal(value)
            + " is outside 1..="@ + decimal(bound),
        ManifestFault::NoDefinitions { what } => what
            + " referenced by the manifest holds no definition"@,
        ManifestFault::DefinitionRefused { path, source } => path + ": "@ + fault_message(source),
        ManifestFault::RequirementNotMet { path, finding } => path + ": "@ + finding_message(
            finding,
        ),
    }
}

impl ManifestError {
    /// The text this refusal is reported with.
    pub fn message(&self) -> (r: String)
        ensures
            r@ == manifest_fault_message(self@),
    {
        let mut out = String::new();
        match self {
            ManifestError::UnknownVersion { declared, expected } => {
                push_text(&mut out, "the payload claims contract version ");
                let d = debug_quote(declared.as_str());
                push_text(&mut out, d.as_str());
                push_text(&mut out, ", not ");
                let e = debug_quote(expected);
                push_text(&mut out, e.as_str());
            },
            ManifestError::Malformed { reason } => {
                push_text(&mut out, "the payload is not a well-formed product input manifest: ");
                push_text(&mut out, reason.as_str());
            },
            ManifestError::TooLong { bytes, bound } => {
                push_text(&mut out, "the payload is ");
                push_decimal(&mut out, *bytes as u64);
                push_text(&mut out, " bytes, past the bound of ");
                push_decimal(&mut out, *bound as u64);
            },
            ManifestError::NoPackages => {
                push_text(&mut out, "the payload pins no package; an empty content set is refused");
            },
            ManifestError::TooMany { what, bound } => {
                push_text(&mut out, "the payload carries more than ");
                push_decimal(&mut out, *bound as u64);
                push_text(&mut out, " ");
                push_text(&mut out, what);
            },
            ManifestError::RetryOutOfRange { what, value, bound } => {
                push_text(&mut out, what);
                push_text(&mut out, " of ");
                push_decimal(&mut out, *value as u64);
                push_text(&mut out, " is outside 1..=");
                push_decimal(&mut out, *bound as u64);
            },
            ManifestError::NoDefinitions { what } => {
                push_text(&mut out, what);
                push_text(&mut out, " referenced by the manifest holds no definition");
            },
            ManifestError::DefinitionRefused { path, source } => {
                push_text(&mut out, path.as_str());
                push_text(&mut out, ": ");
                let m = source.message();
                push_text(&mut out, m.as_str());
            },
            ManifestError::RequirementNotMet { path, finding } => {
                push_text(&mut out, path.as_str());
                push_text(&mut out, ": ");
                let m = finding.message();
                push_text(&mut out, m.as_str());
            },
        }
        assert(out@ =~= manifest_fault_message(self@));
        out
    }
}

/// Why a retry budget is refused, if it is: attempts outside `1..=5`, then
/// a backoff outside `1..=3600` seconds.
pub open spec fn retry_fault(retries: RetryPolicy) -> Option<ManifestFault> {
    if retries.max_attempts == 0 || retries.max_attempts > MAX_RETRY_ATTEMPTS {
        Some(
            ManifestFault::RetryOutOfRange {
                what: "max-attempts"@,
                value: retries.max_attempts as nat,
                bound: MAX_RETRY_ATTEMPTS as nat,
            },
        )
    } else if retries.backoff_seconds == 0 || retries.backoff_seconds > MAX_BACKOFF_SECONDS {
        Some(
            ManifestFault::RetryOutOfRange {
                what: "backoff-seconds"@,
                value: retries.backoff_seconds as nat,
                bound: MAX_BACKOFF_SECONDS as nat,
            },
        )
    } else {
        None
    }
}

/// Why a manifest is refused before it is decoded or encoded, if it is: no
/// package, too many packages, then the retry budget.
pub open spec fn manifest_fault(m: ProductInputManifest) -> Option<ManifestFault> {
    if m.packages@.len() == 0 {
        Some(ManifestFault::NoPackages)
    } else if m.packages@.len() > MAX_PACKAGES {
        Some(ManifestFault::TooMany { what: "packages"@, bound: MAX_PACKAGES as nat })
    } else {
        retry_fault(m.retries)
    }
}

/// `(file name, text)` pairs as plain values.
pub open spec fn sources_view(sources: Seq<(String, String)>) -> Seq<(Seq<char>, Seq<char>)> {
    sources.map_values(|s: (String, String)| (s.0@, s.1@))
}

/// Parses each repart source in turn; the first refusal is reported under
/// `path`.
pub open spec fn repart_parse_all(path: Seq<char>, sources: Seq<(Seq<char>, Seq<char>)>) -> Result<
    Seq<RepartView>,
    ManifestFault,
>
    decreases sources.len(),
{
    if sources.len() == 0 {
        Ok(Seq::empty())
    } else {
        match repart_parse_all(path, sources.drop_last()) {
            Err(f) => Err(f),
            Ok(ds) => match repart_parse(sources.last().0, sources.last().1) {
                Ok(d) => Ok(ds.push(d)),
                Err(source) => Err(ManifestFault::DefinitionRefused { path, source }),
            },
        }
    }
}

/// The parsed repart set `path` refers to, or why it is refused: empty, past
/// [`MAX_DEFINITIONS`], or a drop-in that does not parse.
pub open spec fn repart_outcome(path: Seq<char>, sources: Seq<(Seq<char>, Seq<char>)>) -> Result<
    Seq<RepartView>,
    ManifestFault,
> {
    if sources.len() == 0 {
        Err(ManifestFault::NoDefinitions { what: "repart"@ })
    } else if sources.len() > MAX_DEFINITIONS {
        Err(ManifestFault::TooMany { what: "repart definitions"@, bound: MAX_DEFINITIONS as nat })
    } else {
        repart_parse_all(path, sources)
    }
}

/// Checks each transfer in turn: the first that does not parse, or that
/// parses with a finding of its own, is reported under `path`.
pub open spec fn transfers_fault_all(path: Seq<char>, sources: Seq<(Seq<char>, Seq<char>)>) -> Option<
    ManifestFault,
>
    decreases sources.len(),
{
    if sources.len() == 0 {
        None
    } else {
        match transfers_fault_all(path, sources.drop_last()) {
            Some(f) => Some(f),
            None => match transfer_parse(sources.last().0, sources.last().1) {
                Err(source) => Some(ManifestFault::DefinitionRefused { path, source }),
                Ok(t) => if transfer_findings(t).len() > 0 {
                    Some(ManifestFault::RequirementNotMet { path, finding: transfer_findings(t)[0] })
                } else {
                    None
                },
            },
        }
    }
}

/// Why the transfer set `path` refers to is refused, if it is: empty, past
/// [`MAX_DEFINITIONS`], or a transfer that is refused.
pub open spec fn transfers_fault(path: Seq<char>, sources: Seq<(Seq<char>, Seq<char>)>) -> Option<
    ManifestFault,
> {
    if sources.len() == 0 {
        Some(ManifestFault::NoDefinitions { what: "sysupdate"@ })
    } else if sources.len() > MAX_DEFINITIONS {
        Some(
            ManifestFault::TooMany { what: "sysupdate definitions"@, bound: MAX_DEFINITIONS as nat },
        )
    } else {
        transfers_fault_all(path, sources)
    }
}

/// Why the definitions a manifest references are refused, if they are: the
/// repart set, then the requirements the parsed repart set misses (the
/// first finding), then the transfer set.
pub open spec fn definitions_fault(
    repart_path: Seq<char>,
    sysupdate_path: Seq<char>,
    repart: Seq<(Seq<char>, Seq<char>)>,
    transfers: Seq<(Seq<char>, Seq<char>)>,
) -> Option<ManifestFault> {
    match repart_outcome(repart_path, repart) {
        Err(f) => Some(f),
        Ok(ds) => if repart_set_findings(ds).len() > 0 {
            Some(
                ManifestFault::RequirementNotMet {
                    path: repart_path,
                    finding: repart_set_findings(ds)[0],
                },
            )
        } else {
            transfers_fault(sysupdate_path, transfers)
        },
    }
}

/// The refusal a payload the decoder could not read is answered with: an
/// unknown version when the payload claimed another readable `schema` tag,
/// and a malformed payload otherwise.
pub open spec fn manifest_decode_refusal(declared: Option<Seq<char>>, reason: Seq<char>) -> ManifestFault {
    match declared {
        Some(tag) => if tag != PRODUCT_INPUT_TAG@ {
            ManifestFault::UnknownVersion { declared: tag, expected: PRODUCT_INPUT_TAG@ }
        } else {
            ManifestFault::Malformed { reason }
        },
        None => ManifestFault::Malformed { reason },
    }
}

/// Refuses a retry budget outside its declared bounds.
fn check_retries(retries: RetryPolicy) -> (r: Result<(), ManifestError>)
    ensures
        match r {
            Ok(()) => retry_fault(retries) is None,
            Err(e) => retry_fault(retries) == Some(e@),
        },
{
    if retries.max_attempts == 0 || retries.max_attempts > MAX_RETRY_ATTEMPTS {
        return Err(
            ManifestError::RetryOutOfRange {
                what: "max-attempts",
                value: retries.max_attempts,
                bound: MAX_RETRY_ATTEMPTS,
            },
        );
    }
    if retries.backoff_seconds == 0 || retries.backoff_seconds > MAX_BACKOFF_SECONDS {
        return Err(
            ManifestError::RetryOutOfRange {
                what: "backoff-seconds",
                value: retries.backoff_seconds,
                bound: MAX_BACKOFF_SECONDS,
            },
        );
    }
    Ok(())
}

/// Parses one referenced repart set.
fn check_repart(path: &str, sources: &[(String, String)]) -> (r: Result<
    Vec<RepartDefinition>,
    ManifestError,
>)
    ensures
        match r {
            Ok(set) => repart_outcome(path@, sources_view(sources@)) == Ok::<
                Seq<RepartView>,
                ManifestFault,
            >(definitions_view(set@)),
            Err(e) => repart_outcome(path@, sources_view(sources@)) == Err::<
                Seq<RepartView>,
                ManifestFault,
            >(e@),
        },
{
    if sources.len() == 0 {
        return Err(ManifestError::NoDefinitions { what: "repart" });
    }
    if sources.len() > MAX_DEFINITIONS {
        return Err(ManifestError::TooMany { what: "repart definitions", bound: MAX_DEFINITIONS });
    }
    let ghost all = sources_view(sources@);
    let mut set: Vec<RepartDefinition> = Vec::new();
    assert(all.take(0) =~= Seq::<(Seq<char>, Seq<char>)>::empty());
    assert(definitions_view(set@) =~= Seq::<RepartView>::empty());
    let mut k: usize = 0;
    while k < sources.len()
        invariant
            k <= sources@.len(),
            0 < sources@.len() <= MAX_DEFINITIONS,
            all == sources_view(sources@),
            repart_parse_all(path@, all.take(k as int)) == Ok::<Seq<RepartView>, ManifestFault>(
                definitions_view(set@),
            ),
        decreases sources.len() - k,
    {
        assert(all.take(k as int + 1).drop_last() =~= all.take(k as int));
        assert(all.take(k as int + 1).last() == (sources@[k as int].0@, sources@[k as int].1@));
        match RepartDefinition::parse(sources[k].0.as_str(), sources[k].1.as_str()) {
            Ok(parsed) => {
                let ghost before = set@;
                set.push(parsed);
                assert(definitions_view(set@) =~= definitions_view(before).push(parsed@));
            },
            Err(source) => {
                proof {
                    lemma_repart_parse_all_stops(path@, all, k as int);
                }
                return Err(ManifestError::DefinitionRefused { path: path.to_owned(), source });
            },
        }
        k += 1;
    }
    assert(all.take(sources@.len() as int) =~= all);
    Ok(set)
}

proof fn lemma_repart_parse_all_stops(
    path: Seq<char>,
    all: Seq<(Seq<char>, Seq<char>)>,
    k: int,
)
    requires
        0 <= k < all.len(),
        repart_parse_all(path, all.take(k + 1)) is Err,
    ensures
        repart_parse_all(path, all) == repart_parse_all(path, all.take(k + 1)),
    decreases all.len() - k,
{
    if k + 1 < all.len() {
        assert(all.take(k + 2).drop_last() =~= all.take(k + 1));
        lemma_repart_parse_all_stops(path, all, k + 1);
    } else {
        assert(all.take(k + 1) =~= all);
    }
}

proof fn lemma_transfers_fault_all_stops(
    path: Seq<char>,
    all: Seq<(Seq<char>, Seq<char>)>,
    k: int,
)
    requires
        0 <= k < all.len(),
        transfers_fault_all(path, all.take(k + 1)) is Some,
    ensures
        transfers_fault_all(path, all) == transfers_fault_all(path, all.take(k + 1)),
    decreases all.len() - k,
{
    if k + 1 < all.len() {
        assert(all.take(k + 2).drop_last() =~= all.take(k + 1));
        lemma_transfers_fault_all_stops(path, all, k + 1);
    } else {
        assert(all.take(k + 1) =~= all);
    }
}

/// Parses one referenced transfer set and refuses the first transfer with a
/// finding of its own.
fn check_transfers(path: &str, sources: &[(String, String)]) -> (r: Result<(), ManifestError>)
    ensures
        match r {
            Ok(()) => transfers_fault(path@, sources_view(sources@)) is None,
            Err(e) => transfers_fault(path@, sources_view(sources@)) == Some(e@),
        },
{
    if sources.len() == 0 {
        return Err(ManifestError::NoDefinitions { what: "sysupdate" });
    }
    if sources.len() > MAX_DEFINITIONS {
        return Err(ManifestError::TooMany { what: "sysupdate definitions", bound: MAX_DEFINITIONS });
    }
    let ghost all = sources_view(sources@);
    assert(all.take(0) =~= Seq::<(Seq<char>, Seq<char>)>::empty());
    let mut k: usize = 0;
    while k < sources.len()
        invariant
            k <= sources@.len(),
            0 < sources@.len() <= MAX_DEFINITIONS,
            all == sources_view(sources@),
            transfers_fault_all(path@, all.take(k as int)) is None,
        decreases sources.len() - k,
    {
        assert(all.take(k as int + 1).drop_last() =~= all.take(k as int));
        assert(all.take(k as int + 1).last() == (sources@[k as int].0@, sources@[k as int].1@));
        match TransferDefinition::parse(sources[k].0.as_str(), sources[k].1.as_str()) {
            Ok(transfer) => {
                let mut findings = transfer.findings();
                if findings.len() > 0 {
                    let ghost fs = findings@;
                    let finding = findings.remove(0);
                    assert(finding@ == findings_view(fs)[0]);
                    proof {
                        lemma_transfers_fault_all_stops(path@, all, k as int);
                    }
                    return Err(ManifestError::RequirementNotMet { path: path.to_owned(), finding });
                }
            },
            Err(source) => {
                proof {
                    lemma_transfers_fault_all_stops(path@, all, k as int);
                }
                return Err(ManifestError::DefinitionRefused { path: path.to_owned(), source });
            },
        }
        k += 1;
    }
    assert(all.take(sources@.len() as int) =~= all);
    Ok(())
}

impl ProductInputManifest {
    /// The contract version tag this type instantiates.
    pub const SCHEMA_TAG: &'static str = PRODUCT_INPUT_TAG;

    /// Checks the invariants the field types cannot express: a content set
    /// of one to [`MAX_PACKAGES`] packages and a retry budget in bounds.
    pub fn validate(&self) -> (r: Result<(), ManifestError>)
        ensures
            match r {
                Ok(()) => manifest_fault(*self) is None,
                Err(e) => manifest_fault(*self) == Some(e@),
            },
    {
        if self.packages.len() == 0 {
            return Err(ManifestError::NoPackages);
        }
        if self.packages.len() > MAX_PACKAGES {
            return Err(ManifestError::TooMany { what: "packages", bound: MAX_PACKAGES });
        }
        check_retries(self.retries)
    }

    /// Refuses a payload past the scalar byte bound before it is decoded.
    pub fn check_length(bytes: usize) -> (r: Result<(), ManifestError>)
        ensures
            match r {
                Ok(()) => bytes <= MAX_PAYLOAD_BYTES,
                Err(e) => bytes > MAX_PAYLOAD_BYTES && e@ == (ManifestFault::TooLong {
                    bytes: bytes as nat,
                    bound: MAX_PAYLOAD_BYTES as nat,
                }),
            },
    {
        if bytes > MAX_PAYLOAD_BYTES {
            return Err(ManifestError::TooLong { bytes, bound: MAX_PAYLOAD_BYTES });
        }
        Ok(())
    }

    /// What decoding a payload gives once the decoder has run: the refusal
    /// for a payload it could not read (given the `schema` tag the payload
    /// claimed, when it claimed a readable one, and the decoder's reason),
    /// and otherwise the decoded manifest once it validates.
    pub fn from_decoded(parsed: Result<ProductInputManifest, (Option<String>, String)>) -> (r: Result<
        ProductInputManifest,
        ManifestError,
    >)
        ensures
            match parsed {
                Ok(m) => match r {
                    Ok(out) => out == m && manifest_fault(m) is None,
                    Err(e) => manifest_fault(m) == Some(e@),
                },
                Err((declared, reason)) => r matches Err(e) && e@ == manifest_decode_refusal(
                    match declared {
                        Some(d) => Some(d@),
                        None => None,
                    },
                    reason@,
                ),
            },
    {
        match parsed {
            Ok(m) => match m.validate() {
                Ok(()) => Ok(m),
                Err(e) => Err(e),
            },
            Err((declared, reason)) => match declared {
                Some(tag) => {
                    if !same_text(tag.as_str(), PRODUCT_INPUT_TAG) {
                        Err(
                            ManifestError::UnknownVersion {
                                declared: tag,
                                expected: PRODUCT_INPUT_TAG,
                            },
                        )
                    } else {
                        Err(ManifestError::Malformed { reason })
                    }
                },
                None => Err(ManifestError::Malformed { reason }),
            },
        }
    }

    /// Validates the definition sets this manifest references, given as
    /// `(file name, text)` pairs read from the referenced directories: every
    /// drop-in must parse, the repart set must meet every recorded
    /// requirement, and every transfer must parse with no finding of its own.
    pub fn validate_definitions(
        &self,
        repart: &[(String, String)],
        transfers: &[(String, String)],
    ) -> (r: Result<(), ManifestError>)
        ensures
            match r {
                Ok(()) => definitions_fault(
                    self.definitions.repart@,
                    self.definitions.sysupdate@,
                    sources_view(repart@),
                    sources_view(transfers@),
                ) is None,
                Err(e) => definitions_fault(
                    self.definitions.repart@,
                    self.definitions.sysupdate@,
                    sources_view(repart@),
                    sources_view(transfers@),
                ) == Some(e@),
            },
    {
        let repart_path = self.definitions.repart.as_str();
        let set = match check_repart(repart_path, repart) {
            Ok(set) => set,
            Err(e) => return Err(e),
        };
        let mut findings = check_repart_set(set.as_slice());
        if findings.len() > 0 {
            let ghost fs = findings@;
            let finding = findings.remove(0);
            assert(finding@ == findings_view(fs)[0]);
            return Err(ManifestError::RequirementNotMet { path: repart_path.to_owned(), finding });
        }
        check_transfers(self.definitions.sysupdate.as_str(), transfers)
    }
}

} // verus!
