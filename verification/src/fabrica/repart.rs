//! `repart.d(5)` partition drop-ins.
//!
//! The known-key list is the set `repart.d(5)` documents on the admitted
//! systemd floor; a key outside it is refused here because systemd only warns
//! and carries on.

use vstd::prelude::*;
use crate::fabrica::canonical::{
    declared, lemma_value_of_declared, parsed_unit_shape, unit_round_trip,
};
use crate::fabrica::error::{DefinitionError, DefinitionFault};
use crate::fabrica::finding::{Finding, FindingView, MAX_FINDINGS, findings_view};
use crate::fabrica::size::{ESP_MAX_BYTES, ESP_MIN_BYTES, parse_size, size_value};
use crate::fabrica::unit::{
    MAX_ENTRIES, UnitFile, UnitView, at_most, entries_view, line_of_key,
    opt_str_view, unit_parse, unit_render, unit_well_formed, value_of,
};
use crate::text::same_text;

verus! {

/// The only section a repart drop-in may declare.
pub const PARTITION_SECTION: &'static str = "Partition";

/// The `Type=` value of an EFI system partition.
pub const ESP_TYPE: &'static str = "esp";

/// The `Type=` value of a root partition.
pub const ROOT_TYPE: &'static str = "root";

/// The `Type=` value of a stateful `/var` partition.
pub const VAR_TYPE: &'static str = "var";

/// Scalar bound on the drop-ins one definition set may hold.
pub const MAX_DEFINITIONS: usize = 32;

/// Every key `repart.d(5)` defines on the admitted systemd floor.
pub const KNOWN_KEYS: [&'static str; 47] = [
    "AddValidateFS",
    "BlockDeviceReplace",
    "Compression",
    "CompressionLevel",
    "CopyBlocks",
    "CopyFiles",
    "DefaultSubvolume",
    "Discard",
    "Encrypt",
    "EncryptKDF",
    "EncryptedVolume",
    "ExcludeFiles",
    "ExcludeFilesTarget",
    "FactoryReset",
    "FileSystemSectorSize",
    "Flags",
    "Format",
    "GrowFileSystem",
    "Integrity",
    "IntegrityAlgorithm",
    "KeyFile",
    "Label",
    "MakeDirectories",
    "MakeSymlinks",
    "Minimize",
    "MountPoint",
    "NoAuto",
    "PaddingMaxBytes",
    "PaddingMinBytes",
    "PaddingWeight",
    "Priority",
    "ReadOnly",
    "SizeMaxBytes",
    "SizeMinBytes",
    "SplitName",
    "Subvolumes",
    "SupplementFor",
    "TPM2PCRs",
    "Type",
    "UUID",
    "Verity",
    "VerityDataBlockSizeBytes",
    "VerityHashBlockSizeBytes",
    "VerityMatchKey",
    "VolumeLabel",
    "VolumeName",
    "Weight",
];

/// The expectation a malformed size refusal names.
pub const SIZE_EXPECTATION: &'static str = "size in bytes with an optional K, M, G, T, P or E suffix";

/// One reviewed partition drop-in.
#[derive(Debug, Clone, PartialEq, Eq)]
pub struct RepartDefinition {
    unit: UnitFile,
    partition_type: String,
    size_min: Option<u64>,
    size_max: Option<u64>,
}

/// The mathematical content of a [`RepartDefinition`].
pub struct RepartView {
    pub unit: UnitView,
    pub partition_type: Seq<char>,
    pub size_min: Option<u64>,
    pub size_max: Option<u64>,
}

impl View for RepartDefinition {
    type V = RepartView;

    closed spec fn view(&self) -> RepartView {
        RepartView {
            unit: self.unit@,
            partition_type: self.partition_type@,
            size_min: self.size_min,
            size_max: self.size_max,
        }
    }
}

/// Whether `key` is one of [`KNOWN_KEYS`].
pub open spec fn known_key(key: Seq<char>) -> bool {
    exists|j: int| 0 <= j < 47 && #[trigger] KNOWN_KEYS[j]@ == key
}

/// The first assignment at or after `i` that repart's vocabulary does not
/// define, as the refusal it earns.
pub open spec fn vocabulary_fault(u: UnitView, i: int) -> Option<DefinitionFault>
    decreases u.entries.len() - i,
{
    if i < 0 || i >= u.entries.len() || i >= MAX_ENTRIES {
        None
    } else {
        let e = u.entries[i];
        if e.section != PARTITION_SECTION@ {
            Some(DefinitionFault::UnknownSection { name: u.name, line: e.line, section: e.section })
        } else if !known_key(e.key) {
            Some(
                DefinitionFault::UnknownKey {
                    name: u.name,
                    line: e.line,
                    section: e.section,
                    key: e.key,
                },
            )
        } else {
            vocabulary_fault(u, i + 1)
        }
    }
}

/// What an optional size assignment reads as.
pub open spec fn size_field(u: UnitView, key: Seq<char>) -> Result<Option<u64>, DefinitionFault> {
    match value_of(u, PARTITION_SECTION@, key) {
        None => Ok(None),
        Some(raw) => match size_value(raw) {
            Some(bytes) => Ok(Some(bytes)),
            None => Err(
                DefinitionFault::MalformedValue {
                    name: u.name,
                    line: match line_of_key(u, PARTITION_SECTION@, key) {
                        Some(n) => n,
                        None => 0,
                    },
                    key,
                    value: raw,
                    expected: SIZE_EXPECTATION@,
                },
            ),
        },
    }
}

/// What [`RepartDefinition::parse`] reads `text` as.
pub open spec fn repart_parse(name: Seq<char>, text: Seq<char>) -> Result<RepartView, DefinitionFault> {
    match unit_parse(name, text) {
        Err(f) => Err(f),
        Ok(u) => match vocabulary_fault(u, 0) {
            Some(f) => Err(f),
            None => match value_of(u, PARTITION_SECTION@, "Type"@) {
                None => Err(
                    DefinitionFault::MissingKey {
                        name,
                        section: PARTITION_SECTION@,
                        key: "Type"@,
                    },
                ),
                Some(t) => match size_field(u, "SizeMinBytes"@) {
                    Err(f) => Err(f),
                    Ok(minimum) => match size_field(u, "SizeMaxBytes"@) {
                        Err(f) => Err(f),
                        Ok(maximum) => if minimum is Some && maximum is Some && minimum->0
                            > maximum->0 {
                            Err(
                                DefinitionFault::InvertedSize {
                                    name,
                                    minimum: minimum->0 as nat,
                                    maximum: maximum->0 as nat,
                                },
                            )
                        } else {
                            Ok(
                                RepartView {
                                    unit: u,
                                    partition_type: t,
                                    size_min: minimum,
                                    size_max: maximum,
                                },
                            )
                        },
                    },
                },
            },
        },
    }
}

/// Whether the drop-in seals the partition with the TPM2.
pub open spec fn tpm2_encrypted(d: RepartView) -> bool {
    value_of(d.unit, PARTITION_SECTION@, "Encrypt"@) == Some("tpm2"@) || value_of(
        d.unit,
        PARTITION_SECTION@,
        "Encrypt"@,
    ) == Some("key-file+tpm2"@)
}

/// The ESP size-bound findings (REQ-P01-10).
pub open spec fn esp_findings(minimum: Option<u64>, maximum: Option<u64>) -> Seq<FindingView> {
    if minimum is None && maximum is None {
        seq![FindingView::EspUnbounded]
    } else {
        (if minimum is Some && minimum->0 < ESP_MIN_BYTES {
            seq![FindingView::EspBelowMinimum { bytes: minimum->0 as nat }]
        } else {
            Seq::empty()
        }) + (if maximum is Some && maximum->0 > ESP_MAX_BYTES {
            seq![FindingView::EspAboveMaximum { bytes: maximum->0 as nat }]
        } else {
            Seq::empty()
        })
    }
}

/// The requirements one drop-in does not meet.
pub open spec fn repart_findings(d: RepartView) -> Seq<FindingView> {
    at_most(
        (if d.partition_type == ESP_TYPE@ {
            esp_findings(d.size_min, d.size_max)
        } else {
            Seq::empty()
        }) + (if d.partition_type == VAR_TYPE@ && !tpm2_encrypted(d) {
            seq![FindingView::VarNotEncrypted]
        } else {
            Seq::empty()
        }),
        MAX_FINDINGS as nat,
    )
}

/// The `Verity=` role a drop-in declares.
pub open spec fn verity_role(d: RepartView) -> Option<Seq<char>> {
    value_of(d.unit, PARTITION_SECTION@, "Verity"@)
}

/// The `VerityMatchKey=` a drop-in declares.
pub open spec fn verity_key(d: RepartView) -> Option<Seq<char>> {
    value_of(d.unit, PARTITION_SECTION@, "VerityMatchKey"@)
}

/// The role that pairs with `role`: a data partition pairs with a hash one
/// and everything else with a data one.
pub open spec fn partner_role(role: Seq<char>) -> Seq<char> {
    if role == "data"@ {
        "hash"@
    } else {
        "data"@
    }
}

/// Whether some drop-in of `ds` carries `role` under `key`.
pub open spec fn has_verity(ds: Seq<RepartView>, role: Seq<char>, key: Seq<char>) -> bool {
    exists|j: int| 0 <= j < ds.len() && #[trigger] verity_role(ds[j]) == Some(role) && verity_key(ds[j]) == Some(key)
}

/// The pairing finding for drop-in `d` within `ds`, if it has one.
pub open spec fn verity_finding(ds: Seq<RepartView>, d: RepartView) -> Seq<FindingView> {
    match (verity_role(d), verity_key(d)) {
        (Some(role), Some(key)) => if has_verity(ds, partner_role(role), key) {
            Seq::empty()
        } else if role == "data"@ {
            seq![FindingView::MissingVerityHash { match_key: key }]
        } else {
            seq![FindingView::MissingVerityData { match_key: key }]
        },
        _ => Seq::empty(),
    }
}

/// The pairing findings of the first `n` drop-ins of `ds`, in order.
pub open spec fn verity_findings_upto(ds: Seq<RepartView>, n: int) -> Seq<FindingView>
    decreases n,
{
    if n <= 0 || n > ds.len() {
        Seq::empty()
    } else {
        verity_findings_upto(ds, n - 1) + verity_finding(ds, ds[n - 1])
    }
}

/// The per-drop-in findings of the first `n` drop-ins, in order.
pub open spec fn each_findings_upto(ds: Seq<RepartView>, n: int) -> Seq<FindingView>
    decreases n,
{
    if n <= 0 || n > ds.len() {
        Seq::empty()
    } else {
        each_findings_upto(ds, n - 1) + repart_findings(ds[n - 1])
    }
}

/// How many of the first `n` drop-ins are root partitions.
pub open spec fn root_slots_upto(ds: Seq<RepartView>, n: int) -> nat
    decreases n,
{
    if n <= 0 || n > ds.len() {
        0
    } else {
        root_slots_upto(ds, n - 1) + if ds[n - 1].partition_type == ROOT_TYPE@ {
            1nat
        } else {
            0nat
        }
    }
}

/// The views of a set of drop-ins.
pub open spec fn definitions_view(v: Seq<RepartDefinition>) -> Seq<RepartView> {
    v.map_values(|d: RepartDefinition| d@)
}

/// What [`check_repart_set`] reports: per-drop-in findings in set order, then
/// the verity pairing, then the two root slots, at most [`MAX_FINDINGS`].
pub open spec fn repart_set_findings(all: Seq<RepartView>) -> Seq<FindingView> {
    let ds = at_most(all, MAX_DEFINITIONS as nat);
    let slots = root_slots_upto(ds, ds.len() as int);
    at_most(
        each_findings_upto(ds, ds.len() as int) + verity_findings_upto(ds, ds.len() as int) + if slots
            != 2 {
            seq![FindingView::MissingAlternateRootSlot { slots }]
        } else {
            Seq::empty()
        },
        MAX_FINDINGS as nat,
    )
}

/// Whether `key` is one of [`KNOWN_KEYS`].
fn is_known_key(key: &str) -> (r: bool)
    ensures
        r == known_key(key@),
{
    let mut j: usize = 0;
    while j < KNOWN_KEYS.len()
        invariant
            j <= 47,
            forall|i: int| 0 <= i < j ==> KNOWN_KEYS[i]@ != key@,
        decreases 47 - j,
    {
        if same_text(KNOWN_KEYS[j], key) {
            return true;
        }
        j += 1;
    }
    false
}

/// Reads an optional size value, refusing one that is not a systemd size.
fn optional_size(unit: &UnitFile, key: &str) -> (r: Result<Option<u64>, DefinitionError>)
    ensures
        match r {
            Ok(v) => size_field(unit@, key@) == Ok::<Option<u64>, DefinitionFault>(v),
            Err(e) => size_field(unit@, key@) == Err::<Option<u64>, DefinitionFault>(e@),
        },
{
    let raw = match unit.value(PARTITION_SECTION, key) {
        Some(raw) => raw,
        None => return Ok(None),
    };
    match parse_size(raw) {
        Some(bytes) => Ok(Some(bytes)),
        None => {
            let line = match unit.line_of(PARTITION_SECTION, key) {
                Some(n) => n,
                None => 0,
            };
            Err(
                DefinitionError::MalformedValue {
                    name: unit.name().to_owned(),
                    line,
                    key: key.to_owned(),
                    value: raw.to_owned(),
                    expected: SIZE_EXPECTATION,
                },
            )
        },
    }
}

/// Refuses any section or key the drop-in syntax does not define.
fn check_vocabulary(unit: &UnitFile) -> (r: Result<(), DefinitionError>)
    requires
        unit_well_formed(unit@),
    ensures
        match r {
            Ok(()) => vocabulary_fault(unit@, 0) is None,
            Err(e) => vocabulary_fault(unit@, 0) == Some(e@),
        },
{
    let entries = unit.entries();
    let mut i: usize = 0;
    while i < entries.len() && i < MAX_ENTRIES
        invariant
            i <= entries.len(),
            entries_view(entries@) == unit@.entries,
            vocabulary_fault(unit@, 0) == vocabulary_fault(unit@, i as int),
        decreases entries.len() - i,
    {
        let entry = &entries[i];
        assert(unit@.entries[i as int] == entry@);
        if !same_text(entry.section.as_str(), PARTITION_SECTION) {
            return Err(
                DefinitionError::UnknownSection {
                    name: unit.name().to_owned(),
                    line: entry.line,
                    section: entry.section.clone(),
                },
            );
        }
        if !is_known_key(entry.key.as_str()) {
            return Err(
                DefinitionError::UnknownKey {
                    name: unit.name().to_owned(),
                    line: entry.line,
                    section: entry.section.clone(),
                    key: entry.key.clone(),
                },
            );
        }
        i += 1;
    }
    Ok(())
}

/// Whether an optional value is exactly `expected`.
fn is_value(value: Option<&str>, expected: &str) -> (r: bool)
    ensures
        r == (opt_str_view(value) == Some(expected@)),
{
    match value {
        Some(v) => same_text(v, expected),
        None => false,
    }
}

impl RepartDefinition {
    /// Parses the drop-in `name` from `text`.
    ///
    /// Refuses anything systemd refuses -- a missing `Type=`, an unreadable
    /// size, `SizeMinBytes=` above `SizeMaxBytes=` -- and the unknown keys and
    /// repeats systemd only warns about.
    pub fn parse(name: &str, text: &str) -> (r: Result<Self, DefinitionError>)
        ensures
            match r {
                Ok(d) => repart_parse(name@, text@) == Ok::<RepartView, DefinitionFault>(d@)
                    && d.wf(),
                Err(e) => repart_parse(name@, text@) == Err::<RepartView, DefinitionFault>(e@),
            },
    {
        let unit = match UnitFile::parse(name, text) {
            Ok(unit) => unit,
            Err(e) => return Err(e),
        };
        match check_vocabulary(&unit) {
            Ok(()) => {},
            Err(e) => return Err(e),
        }
        let partition_type = match unit.value(PARTITION_SECTION, "Type") {
            Some(t) => t.to_owned(),
            None => {
                return Err(
                    DefinitionError::MissingKey {
                        name: name.to_owned(),
                        section: PARTITION_SECTION.to_owned(),
                        key: "Type",
                    },
                );
            },
        };
        let size_min = match optional_size(&unit, "SizeMinBytes") {
            Ok(v) => v,
            Err(e) => return Err(e),
        };
        let size_max = match optional_size(&unit, "SizeMaxBytes") {
            Ok(v) => v,
            Err(e) => return Err(e),
        };
        if let (Some(minimum), Some(maximum)) = (size_min, size_max) {
            if minimum > maximum {
                return Err(DefinitionError::InvertedSize { name: name.to_owned(), minimum, maximum });
            }
        }
        Ok(RepartDefinition { unit, partition_type, size_min, size_max })
    }

    /// The parsed drop-in is well formed.
    pub closed spec fn wf(&self) -> bool {
        unit_well_formed(self.unit@)
    }

    /// The parsed drop-in, for callers that need the raw assignments.
    pub fn unit(&self) -> (r: &UnitFile)
        ensures
            r@ == self@.unit,
    {
        &self.unit
    }

    /// The `Type=` value, which systemd requires and this crate refuses to default.
    pub fn partition_type(&self) -> (r: &str)
        ensures
            r@ == self@.partition_type,
    {
        self.partition_type.as_str()
    }

    /// The `Label=` value, if the drop-in sets one.
    pub fn label(&self) -> (r: Option<&str>)
        ensures
            opt_str_view(r) == value_of(self@.unit, PARTITION_SECTION@, "Label"@),
    {
        self.unit.value(PARTITION_SECTION, "Label")
    }

    /// `SizeMinBytes=` in bytes, if the drop-in sets one.
    pub fn size_min(&self) -> (r: Option<u64>)
        ensures
            r == self@.size_min,
    {
        self.size_min
    }

    /// `SizeMaxBytes=` in bytes, if the drop-in sets one.
    pub fn size_max(&self) -> (r: Option<u64>)
        ensures
            r == self@.size_max,
    {
        self.size_max
    }

    /// The `Verity=` role, if the drop-in declares one.
    pub fn verity(&self) -> (r: Option<&str>)
        ensures
            opt_str_view(r) == verity_role(self@),
    {
        self.unit.value(PARTITION_SECTION, "Verity")
    }

    /// The `VerityMatchKey=` that pairs a data partition with its hash partition.
    pub fn verity_match_key(&self) -> (r: Option<&str>)
        ensures
            opt_str_view(r) == verity_key(self@),
    {
        self.unit.value(PARTITION_SECTION, "VerityMatchKey")
    }

    /// `true` when the drop-in seals the partition with the TPM2.
    pub fn is_tpm2_encrypted(&self) -> (r: bool)
        ensures
            r == tpm2_encrypted(self@),
    {
        let encrypt = self.unit.value(PARTITION_SECTION, "Encrypt");
        is_value(encrypt, "tpm2") || is_value(encrypt, "key-file+tpm2")
    }

    /// Renders the drop-in back to its canonical form.
    pub fn render(&self) -> (r: String)
        ensures
            r@ == unit_render(self@.unit),
    {
        self.unit.render()
    }

    /// Requirements this one drop-in does not meet.
    pub fn findings(&self) -> (r: Vec<Finding>)
        ensures
            findings_view(r@) == repart_findings(self@),
    {
        let mut out: Vec<Finding> = Vec::new();
        let is_esp = same_text(self.partition_type.as_str(), ESP_TYPE);
        if is_esp {
            let mut esp = self.esp_findings();
            out.append(&mut esp);
        }
        let ghost after_esp = out@;
        if same_text(self.partition_type.as_str(), VAR_TYPE) && !self.is_tpm2_encrypted() {
            out.push(Finding::VarNotEncrypted);
        }
        proof {
            let esp_part = if self@.partition_type == ESP_TYPE@ {
                esp_findings(self@.size_min, self@.size_max)
            } else {
                Seq::empty()
            };
            assert(findings_view(after_esp) =~= esp_part);
        }
        out.truncate(MAX_FINDINGS);
        proof {
            let esp_part = if self@.partition_type == ESP_TYPE@ {
                esp_findings(self@.size_min, self@.size_max)
            } else {
                Seq::empty()
            };
            let var_part = if self@.partition_type == VAR_TYPE@ && !tpm2_encrypted(self@) {
                seq![FindingView::VarNotEncrypted]
            } else {
                Seq::<FindingView>::empty()
            };
            assert(findings_view(out@) =~= at_most(esp_part + var_part, MAX_FINDINGS as nat));
        }
        out
    }

    /// The ESP size-bound findings (REQ-P01-10).
    fn esp_findings(&self) -> (r: Vec<Finding>)
        ensures
            findings_view(r@) == esp_findings(self@.size_min, self@.size_max),
    {
        match (self.size_min, self.size_max) {
            (None, None) => {
                let r = vec![Finding::EspUnbounded];
                assert(findings_view(r@) =~= seq![FindingView::EspUnbounded]);
                r
            },
            (minimum, maximum) => {
                let mut out: Vec<Finding> = Vec::new();
                if let Some(bytes) = minimum {
                    if bytes < ESP_MIN_BYTES {
                        out.push(Finding::EspBelowMinimum { bytes });
                    }
                }
                let ghost first = out@;
                if let Some(bytes) = maximum {
                    if bytes > ESP_MAX_BYTES {
                        out.push(Finding::EspAboveMaximum { bytes });
                    }
                }
                assert(findings_view(out@) =~= esp_findings(self@.size_min, self@.size_max));
                out
            },
        }
    }
}

/// Returns the verity pairing findings for a whole definition set.
fn verity_findings(definitions: &[RepartDefinition]) -> (r: Vec<Finding>)
    ensures
        ({
            let ds = at_most(definitions_view(definitions@), MAX_DEFINITIONS as nat);
            findings_view(r@) == verity_findings_upto(ds, ds.len() as int)
        }),
{
    let ghost ds = at_most(definitions_view(definitions@), MAX_DEFINITIONS as nat);
    let count = if definitions.len() < MAX_DEFINITIONS {
        definitions.len()
    } else {
        MAX_DEFINITIONS
    };
    let mut out: Vec<Finding> = Vec::new();
    let mut i: usize = 0;
    while i < count
        invariant
            i <= count <= definitions.len(),
            ds == at_most(definitions_view(definitions@), MAX_DEFINITIONS as nat),
            ds.len() == count,
            findings_view(out@) == verity_findings_upto(ds, i as int),
        decreases count - i,
    {
        let definition = &definitions[i];
        assert(ds[i as int] == definition@);
        let ghost before = out@;
        match (definition.verity(), definition.verity_match_key()) {
            (Some(role), Some(key)) => {
                let data = same_text(role, "data");
                let partner = if data {
                    "hash"
                } else {
                    "data"
                };
                assert(partner@ == partner_role(role@));
                let mut paired = false;
                let mut j: usize = 0;
                while j < count
                    invariant
                        j <= count <= definitions.len(),
                        ds == at_most(definitions_view(definitions@), MAX_DEFINITIONS as nat),
                        ds.len() == count,
                        paired == exists|k: int| 0 <= k < j && #[trigger] verity_role(ds[k]) == Some(partner@)
                            && verity_key(ds[k]) == Some(key@),
                    decreases count - j,
                {
                    let other = &definitions[j];
                    assert(ds[j as int] == other@);
                    if is_value(other.verity(), partner) && is_value(other.verity_match_key(), key) {
                        paired = true;
                    }
                    j += 1;
                }
                if !paired {
                    let match_key = key.to_owned();
                    if data {
                        out.push(Finding::MissingVerityHash { match_key });
                    } else {
                        out.push(Finding::MissingVerityData { match_key });
                    }
                }
            },
            _ => {},
        }
        proof {
            assert(ds.take(i + 1).len() == i + 1);
            assert(findings_view(out@) =~= verity_findings_upto(ds, i + 1));
        }
        i += 1;
    }
    out
}

/// Checks a whole definition set against the A/B and verity requirements.
///
/// Per-drop-in findings come first, in set order, then the findings that only
/// exist across files: the verity pairing and the two root slots.
pub fn check_repart_set(definitions: &[RepartDefinition]) -> (r: Vec<Finding>)
    ensures
        findings_view(r@) == repart_set_findings(definitions_view(definitions@)),
        r.len() <= MAX_FINDINGS,
{
    let ghost ds = at_most(definitions_view(definitions@), MAX_DEFINITIONS as nat);
    let count = if definitions.len() < MAX_DEFINITIONS {
        definitions.len()
    } else {
        MAX_DEFINITIONS
    };
    let mut out: Vec<Finding> = Vec::new();
    let mut slots: usize = 0;
    let mut i: usize = 0;
    while i < count
        invariant
            i <= count <= definitions.len(),
            count <= MAX_DEFINITIONS,
            ds == at_most(definitions_view(definitions@), MAX_DEFINITIONS as nat),
            ds.len() == count,
            findings_view(out@) == each_findings_upto(ds, i as int),
            slots == root_slots_upto(ds, i as int),
            slots <= i,
        decreases count - i,
    {
        let definition = &definitions[i];
        assert(ds[i as int] == definition@);
        let ghost before = out@;
        let mut own = definition.findings();
        out.append(&mut own);
        if same_text(definition.partition_type(), ROOT_TYPE) {
            slots += 1;
        }
        proof {
            assert(findings_view(out@) =~= findings_view(before) + repart_findings(ds[i as int]));
        }
        i += 1;
    }
    let ghost each = out@;
    let mut verity = verity_findings(definitions);
    out.append(&mut verity);
    let ghost with_verity = out@;
    if slots != 2 {
        out.push(Finding::MissingAlternateRootSlot { slots });
    }
    proof {
        let tail = if slots != 2 {
            seq![FindingView::MissingAlternateRootSlot { slots: slots as nat }]
        } else {
            Seq::<FindingView>::empty()
        };
        assert(findings_view(out@) =~= each_findings_upto(ds, ds.len() as int)
            + verity_findings_upto(ds, ds.len() as int) + tail);
    }
    out.truncate(MAX_FINDINGS);
    proof {
        let tail = if slots != 2 {
            seq![FindingView::MissingAlternateRootSlot { slots: slots as nat }]
        } else {
            Seq::<FindingView>::empty()
        };
        let whole = each_findings_upto(ds, ds.len() as int) + verity_findings_upto(
            ds,
            ds.len() as int,
        ) + tail;
        assert(findings_view(out@) =~= at_most(whole, MAX_FINDINGS as nat));
    }
    out
}

proof fn lemma_vocabulary_declared(u: UnitView, v: UnitView, i: int)
    requires
        declared(u.entries) == declared(v.entries),
    ensures
        vocabulary_fault(u, i) is None <==> vocabulary_fault(v, i) is None,
    decreases u.entries.len() - i,
{
    assert(declared(u.entries).len() == u.entries.len());
    assert(declared(v.entries).len() == v.entries.len());
    if 0 <= i < u.entries.len() && i < MAX_ENTRIES {
        assert(declared(u.entries)[i] == declared(v.entries)[i]);
        lemma_vocabulary_declared(u, v, i + 1);
    }
}

/// A drop-in renders back to a form that reads as the same definition.
/// Reading the canonical text of an accepted drop-in, under the same name,
/// succeeds with the same partition type, the same size bounds, the same
/// findings, and a unit with the same sections and assignments, whose own
/// canonical text is the same; from the second pass on the round trip
/// gives back exactly the definition it started from.
pub proof fn repart_round_trip(name: Seq<char>, text: Seq<char>)
    ensures
        repart_parse(name, text) matches Ok(d) ==> {
            &&& repart_parse(name, unit_render(d.unit)) matches Ok(d2)
            &&& d2.partition_type == d.partition_type
            &&& d2.size_min == d.size_min
            &&& d2.size_max == d.size_max
            &&& repart_findings(d2) == repart_findings(d)
            &&& d2.unit.sections == d.unit.sections
            &&& declared(d2.unit.entries) == declared(d.unit.entries)
            &&& unit_render(d2.unit) == unit_render(d.unit)
            &&& repart_parse(name, unit_render(d2.unit)) == Ok::<RepartView, DefinitionFault>(d2)
        },
{
    unit_round_trip(name, text);
    if let Ok(d) = repart_parse(name, text) {
        let u = d.unit;
        if let Ok(v) = unit_parse(name, unit_render(u)) {
            lemma_vocabulary_declared(u, v, 0);
            lemma_value_of_declared(u, v, PARTITION_SECTION@, "Type"@);
            lemma_value_of_declared(u, v, PARTITION_SECTION@, "SizeMinBytes"@);
            lemma_value_of_declared(u, v, PARTITION_SECTION@, "SizeMaxBytes"@);
            lemma_value_of_declared(u, v, PARTITION_SECTION@, "Encrypt"@);
        }
    }
}

proof fn lemma_vocabulary_clean(u: UnitView, i: int)
    requires
        0 <= i,
        u.entries.len() <= MAX_ENTRIES,
        vocabulary_fault(u, i) is None,
    ensures
        forall|j: int|
            i <= j < u.entries.len() ==> (#[trigger] u.entries[j]).section == PARTITION_SECTION@
                && known_key(u.entries[j].key),
    decreases u.entries.len() - i,
{
    if i < u.entries.len() {
        lemma_vocabulary_clean(u, i + 1);
    }
}

/// What an accepted drop-in is. Every assignment sits in `[Partition]` under
/// a key `repart.d(5)` defines; the partition type is the value of `Type=`;
/// each size bound is what its assignment reads as, absent when it is not
/// assigned; and when both bounds are set the minimum is at most the maximum.
pub proof fn parsed_drop_in_shape(name: Seq<char>, text: Seq<char>)
    ensures
        repart_parse(name, text) matches Ok(d) ==> {
            &&& forall|i: int|
                0 <= i < d.unit.entries.len() ==> (#[trigger] d.unit.entries[i]).section
                    == PARTITION_SECTION@ && known_key(d.unit.entries[i].key)
            &&& value_of(d.unit, PARTITION_SECTION@, "Type"@) == Some(d.partition_type)
            &&& d.size_min == match value_of(d.unit, PARTITION_SECTION@, "SizeMinBytes"@) {
                Some(raw) => size_value(raw),
                None => None,
            }
            &&& d.size_max == match value_of(d.unit, PARTITION_SECTION@, "SizeMaxBytes"@) {
                Some(raw) => size_value(raw),
                None => None,
            }
            &&& d.size_min is Some && d.size_max is Some ==> d.size_min->0 <= d.size_max->0
        },
{
    parsed_unit_shape(name, text);
    if let Ok(d) = repart_parse(name, text) {
        lemma_vocabulary_clean(d.unit, 0);
    }
}

/// A `/var` drop-in is reported unencrypted exactly when it does not seal
/// with the TPM2: its `Encrypt=` is neither `tpm2` nor `key-file+tpm2`
/// (both of which seal with the TPM2), and that is its only finding.
pub proof fn var_sealing_finding(d: RepartView)
    requires
        d.partition_type == VAR_TYPE@,
    ensures
        ({
            let encrypt = value_of(d.unit, PARTITION_SECTION@, "Encrypt"@);
            let sealed = encrypt == Some("tpm2"@) || encrypt == Some("key-file+tpm2"@);
            &&& sealed ==> repart_findings(d) == Seq::<FindingView>::empty()
            &&& !sealed ==> repart_findings(d) == seq![FindingView::VarNotEncrypted]
        }),
{
    reveal_strlit("esp");
    reveal_strlit("var");
    assert(d.partition_type != ESP_TYPE@) by {
        assert(d.partition_type[0] == 'v');
        assert(ESP_TYPE@[0] == 'e');
    }
    let encrypt = value_of(d.unit, PARTITION_SECTION@, "Encrypt"@);
    if encrypt == Some("tpm2"@) || encrypt == Some("key-file+tpm2"@) {
        assert(Seq::<FindingView>::empty() + Seq::<FindingView>::empty() =~= Seq::<FindingView>::empty());
    } else {
        assert(Seq::<FindingView>::empty() + seq![FindingView::VarNotEncrypted] =~= seq![FindingView::VarNotEncrypted]);
    }
}

proof fn lemma_verity_findings_len(ds: Seq<RepartView>, n: int)
    ensures
        verity_findings_upto(ds, n).len() <= if n < 0 { 0 } else { n },
    decreases n,
{
    if 0 < n <= ds.len() {
        lemma_verity_findings_len(ds, n - 1);
    }
}

/// The finding a drop-in of verity role `role` and match key `k` earns
/// when its partner is missing: a data drop-in misses its hash, a hash
/// drop-in its data.
pub open spec fn missing_partner(role: Seq<char>, k: Seq<char>) -> FindingView {
    if role == "data"@ {
        FindingView::MissingVerityHash { match_key: k }
    } else {
        FindingView::MissingVerityData { match_key: k }
    }
}

/// A drop-in of role `role` (data or hash) with match key `k` and no
/// drop-in of the partner role with that key leaves its missing-partner
/// finding among the pairing findings.
proof fn lemma_verity_findings_report(ds: Seq<RepartView>, n: int, i: int, role: Seq<char>, k: Seq<char>)
    requires
        0 <= i < n <= ds.len(),
        role == "data"@ || role == "hash"@,
        verity_role(ds[i]) == Some(role),
        verity_key(ds[i]) == Some(k),
        !has_verity(ds, partner_role(role), k),
    ensures
        verity_findings_upto(ds, n).contains(missing_partner(role, k)),
    decreases n,
{
    let x = missing_partner(role, k);
    let front = verity_findings_upto(ds, n - 1);
    let last = verity_finding(ds, ds[n - 1]);
    assert(verity_findings_upto(ds, n) == front + last);
    if i < n - 1 {
        lemma_verity_findings_report(ds, n - 1, i, role, k);
        let m = choose|m: int| 0 <= m < front.len() && front[m] == x;
        assert((front + last)[m] == x);
    } else {
        assert(last == seq![x]);
        assert((front + last)[front.len() as int] == x);
    }
}

/// Where a drop-in of the partner role with match key `k` is in the set, no
/// pairing finding reports `role`'s missing partner for `k`.
proof fn lemma_verity_findings_paired(ds: Seq<RepartView>, n: int, role: Seq<char>, k: Seq<char>)
    requires
        role == "data"@ || role == "hash"@,
        has_verity(ds, partner_role(role), k),
    ensures
        !verity_findings_upto(ds, n).contains(missing_partner(role, k)),
    decreases n,
{
    reveal_strlit("data");
    reveal_strlit("hash");
    assert("data"@ != "hash"@) by {
        assert("data"@[0] != "hash"@[0]);
    }
    if 0 < n <= ds.len() {
        lemma_verity_findings_paired(ds, n - 1, role, k);
        let x = missing_partner(role, k);
        let front = verity_findings_upto(ds, n - 1);
        let last = verity_finding(ds, ds[n - 1]);
        assert(!last.contains(x)) by {
            if last.contains(x) {
                assert(last.len() == 1 && last[0] == x);
                assert(verity_role(ds[n - 1]) == Some(role));
            }
        }
        assert forall|m: int| 0 <= m < (front + last).len() implies (front + last)[m] != x by {
            if m < front.len() {
                assert((front + last)[m] == front[m]);
            } else {
                assert((front + last)[m] == last[m - front.len()]);
            }
        }
    }
}

/// No finding of a drop-in of its own is a verity pairing finding.
proof fn lemma_own_findings_not_verity(ds: Seq<RepartView>, n: int, x: FindingView)
    requires
        x is MissingVerityHash || x is MissingVerityData,
    ensures
        !each_findings_upto(ds, n).contains(x),
    decreases n,
{
    if 0 < n <= ds.len() {
        lemma_own_findings_not_verity(ds, n - 1, x);
        let d = ds[n - 1];
        let front = each_findings_upto(ds, n - 1);
        let last = repart_findings(d);
        let whole = (if d.partition_type == ESP_TYPE@ {
            esp_findings(d.size_min, d.size_max)
        } else {
            Seq::empty()
        }) + (if d.partition_type == VAR_TYPE@ && !tpm2_encrypted(d) {
            seq![FindingView::VarNotEncrypted]
        } else {
            Seq::empty()
        });
        assert forall|m: int| 0 <= m < whole.len() implies whole[m] != x by {}
        assert forall|m: int| 0 <= m < last.len() implies last[m] != x by {
            assert(last[m] == whole[m]);
        }
        assert forall|m: int| 0 <= m < (front + last).len() implies (front + last)[m] != x by {
            if m < front.len() {
                assert((front + last)[m] == front[m]);
            } else {
                assert((front + last)[m] == last[m - front.len()]);
            }
        }
    }
}

/// Verity data and hash drop-ins pair only on the same match key. In a set
/// of at most [`MAX_DEFINITIONS`] drop-ins, take `role` data or hash, and
/// `partner` the other. A drop-in of `role` with `VerityMatchKey=k`, and no
/// drop-in of `partner` with that same key, leaves its missing-partner
/// finding (`MissingVerityHash { k }` for data, `MissingVerityData { k }`
/// for hash) in the set's findings, provided they fit in [`MAX_FINDINGS`];
/// and when a drop-in of `partner` with key `k` is in the set, that finding
/// is not reported, whatever drop-ins with other keys the set holds.
pub proof fn verity_pairs_by_match_key(ds: Seq<RepartView>, role: Seq<char>, k: Seq<char>)
    requires
        ds.len() <= MAX_DEFINITIONS,
        role == "data"@ || role == "hash"@,
    ensures
        ({
            let partner = if role == "data"@ {
                "hash"@
            } else {
                "data"@
            };
            let finding = if role == "data"@ {
                FindingView::MissingVerityHash { match_key: k }
            } else {
                FindingView::MissingVerityData { match_key: k }
            };
            &&& (exists|i: int|
                0 <= i < ds.len() && #[trigger] verity_role(ds[i]) == Some(role) && verity_key(ds[i])
                    == Some(k)) && !(exists|j: int|
                0 <= j < ds.len() && #[trigger] verity_role(ds[j]) == Some(partner) && verity_key(
                    ds[j],
                ) == Some(k)) && each_findings_upto(ds, ds.len() as int).len() + ds.len()
                < MAX_FINDINGS ==> repart_set_findings(ds).contains(finding)
            &&& (exists|j: int|
                0 <= j < ds.len() && #[trigger] verity_role(ds[j]) == Some(partner) && verity_key(
                    ds[j],
                ) == Some(k)) ==> !repart_set_findings(ds).contains(finding)
        }),
{
    reveal_strlit("data");
    reveal_strlit("hash");
    assert("data"@ != "hash"@) by {
        assert("data"@[0] != "hash"@[0]);
    }
    let x = missing_partner(role, k);
    let partner = partner_role(role);
    assert(at_most(ds, MAX_DEFINITIONS as nat) == ds);
    let n = ds.len() as int;
    let a = each_findings_upto(ds, n);
    let b = verity_findings_upto(ds, n);
    let slots = root_slots_upto(ds, n);
    let c = if slots != 2 {
        seq![FindingView::MissingAlternateRootSlot { slots }]
    } else {
        Seq::empty()
    };
    let all = a + b + c;
    assert(repart_set_findings(ds) == at_most(all, MAX_FINDINGS as nat));
    lemma_own_findings_not_verity(ds, n, x);
    if has_verity(ds, partner, k) {
        lemma_verity_findings_paired(ds, n, role, k);
        let r = at_most(all, MAX_FINDINGS as nat);
        assert forall|m: int| 0 <= m < r.len() implies r[m] != x by {
            assert(r[m] == all[m]);
            if m < a.len() {
                assert(all[m] == a[m]);
            } else if m < a.len() + b.len() {
                assert(all[m] == b[m - a.len()]);
            } else {
                assert(all[m] == c[m - a.len() - b.len()]);
            }
        }
    } else if (exists|i: int|
        0 <= i < ds.len() && #[trigger] verity_role(ds[i]) == Some(role) && verity_key(ds[i])
            == Some(k)) && a.len() + ds.len() < MAX_FINDINGS {
        let i = choose|i: int|
            0 <= i < ds.len() && #[trigger] verity_role(ds[i]) == Some(role) && verity_key(ds[i])
                == Some(k);
        lemma_verity_findings_report(ds, n, i, role, k);
        lemma_verity_findings_len(ds, n);
        assert(all.len() <= MAX_FINDINGS);
        assert(at_most(all, MAX_FINDINGS as nat) == all);
        let m = choose|m: int| 0 <= m < b.len() && b[m] == x;
        assert(all[a.len() + m] == x);
    }
}

} // verus!
