//! `sysupdate.d(5)` transfer definitions.
//!
//! The per-section key lists are what `sysupdate.d(5)` documents on the
//! admitted systemd floor. They are what rejected the imported transfer: none
//! of `File=`, `Partitions=`, `Writable=`, `Format=`, `MatchKey=` or
//! `VerityMatchKey=` appears in any of them.

use vstd::prelude::*;
use crate::fabrica::canonical::{declared, lemma_value_of_declared, unit_round_trip};
use crate::fabrica::error::{DefinitionError, DefinitionFault};
use crate::fabrica::finding::{Finding, FindingView, MAX_FINDINGS, findings_view};
use crate::fabrica::size::{all_ascii_digits, digits_value};
use crate::fabrica::unit::{
    MAX_ENTRIES, UnitFile, UnitView, at_most, entries_view, line_of_key, opt_str_view,
    unit_parse, unit_render, unit_well_formed, value_of,
};
use crate::text::{chars_of, is_ascii_digit, same_text};

verus! {

/// The `[Transfer]` section name.
pub const TRANSFER_SECTION: &'static str = "Transfer";

/// The `[Source]` section name.
pub const SOURCE_SECTION: &'static str = "Source";

/// The `[Target]` section name.
pub const TARGET_SECTION: &'static str = "Target";

/// The instance count an A/B transfer needs (REQ-P02-04).
pub const AB_INSTANCES: u32 = 2;

/// Every key `[Transfer]` defines on the admitted systemd floor.
pub const TRANSFER_KEYS: [&'static str; 7] = [
    "AppStream",
    "ChangeLog",
    "Features",
    "MinVersion",
    "ProtectVersion",
    "RequisiteFeatures",
    "Verify",
];

/// Every key `[Source]` defines on the admitted systemd floor.
pub const SOURCE_KEYS: [&'static str; 3] = ["MatchPattern", "Path", "Type"];

/// Every key `[Target]` defines on the admitted systemd floor.
pub const TARGET_KEYS: [&'static str; 16] = [
    "CurrentSymlink",
    "InstancesMax",
    "MatchPartitionType",
    "MatchPattern",
    "Mode",
    "PartitionFlags",
    "PartitionGrowFileSystem",
    "PartitionNoAuto",
    "PartitionUUID",
    "Path",
    "PathRelativeTo",
    "ReadOnly",
    "RemoveTemporary",
    "TriesDone",
    "TriesLeft",
    "Type",
];

/// The expectation a malformed instance count names.
pub const COUNT_EXPECTATION: &'static str = "decimal instance count";

/// One reviewed transfer definition.
#[derive(Debug, Clone, PartialEq, Eq)]
pub struct TransferDefinition {
    unit: UnitFile,
    instances_max: Option<u32>,
}

/// The mathematical content of a [`TransferDefinition`].
pub struct TransferView {
    pub unit: UnitView,
    pub instances_max: Option<u32>,
}

impl View for TransferDefinition {
    type V = TransferView;

    closed spec fn view(&self) -> TransferView {
        TransferView { unit: self.unit@, instances_max: self.instances_max }
    }
}

/// The key list `sysupdate.d(5)` defines for `section`, if it defines the section.
pub open spec fn section_keys(section: Seq<char>) -> Option<Seq<&'static str>> {
    if section == TRANSFER_SECTION@ {
        Some(TRANSFER_KEYS@)
    } else if section == SOURCE_SECTION@ {
        Some(SOURCE_KEYS@)
    } else if section == TARGET_SECTION@ {
        Some(TARGET_KEYS@)
    } else {
        None
    }
}

/// Whether `keys` holds `key`.
pub open spec fn lists_key(keys: Seq<&'static str>, key: Seq<char>) -> bool {
    exists|j: int| 0 <= j < keys.len() && #[trigger] keys[j]@ == key
}

/// The first assignment at or after `i` that `sysupdate.d(5)` does not
/// define, as the refusal it earns.
pub open spec fn transfer_vocabulary_fault(u: UnitView, i: int) -> Option<DefinitionFault>
    decreases u.entries.len() - i,
{
    if i < 0 || i >= u.entries.len() || i >= MAX_ENTRIES {
        None
    } else {
        let e = u.entries[i];
        match section_keys(e.section) {
            None => Some(
                DefinitionFault::UnknownSection { name: u.name, line: e.line, section: e.section },
            ),
            Some(keys) => if !lists_key(keys, e.key) {
                Some(
                    DefinitionFault::UnknownKey {
                        name: u.name,
                        line: e.line,
                        section: e.section,
                        key: e.key,
                    },
                )
            } else {
                transfer_vocabulary_fault(u, i + 1)
            },
        }
    }
}

/// The refusal a section missing a mandatory key earns.
pub open spec fn missing_fault(u: UnitView, section: Seq<char>, key: Seq<char>) -> Option<DefinitionFault> {
    if value_of(u, section, key) is Some {
        None
    } else {
        Some(DefinitionFault::MissingKey { name: u.name, section, key })
    }
}

/// What `str::parse::<u32>` reads: an optional `+`, then at least one ASCII
/// digit, with a value that fits in 32 bits.
pub open spec fn u32_value(s: Seq<char>) -> Option<u32> {
    let digits = if s.len() > 0 && s[0] == '+' {
        s.drop_first()
    } else {
        s
    };
    if digits.len() == 0 || !all_ascii_digits(digits) || digits_value(digits) > u32::MAX {
        None
    } else {
        Some(digits_value(digits) as u32)
    }
}

/// What `InstancesMax=` reads as.
pub open spec fn instances_field(u: UnitView) -> Result<Option<u32>, DefinitionFault> {
    match value_of(u, TARGET_SECTION@, "InstancesMax"@) {
        None => Ok(None),
        Some(raw) => match u32_value(raw) {
            Some(n) => Ok(Some(n)),
            None => Err(
                DefinitionFault::MalformedValue {
                    name: u.name,
                    line: match line_of_key(u, TARGET_SECTION@, "InstancesMax"@) {
                        Some(n) => n,
                        None => 0,
                    },
                    key: "InstancesMax"@,
                    value: raw,
                    expected: COUNT_EXPECTATION@,
                },
            ),
        },
    }
}

/// What [`TransferDefinition::parse`] reads `text` as.
pub open spec fn transfer_parse(name: Seq<char>, text: Seq<char>) -> Result<TransferView, DefinitionFault> {
    match unit_parse(name, text) {
        Err(f) => Err(f),
        Ok(u) => match transfer_vocabulary_fault(u, 0) {
            Some(f) => Err(f),
            None => match missing_fault(u, SOURCE_SECTION@, "Type"@) {
                Some(f) => Err(f),
                None => match missing_fault(u, SOURCE_SECTION@, "MatchPattern"@) {
                    Some(f) => Err(f),
                    None => match missing_fault(u, TARGET_SECTION@, "Type"@) {
                        Some(f) => Err(f),
                        None => match missing_fault(u, TARGET_SECTION@, "MatchPattern"@) {
                            Some(f) => Err(f),
                            None => match instances_field(u) {
                                Err(f) => Err(f),
                                Ok(n) => Ok(TransferView { unit: u, instances_max: n }),
                            },
                        },
                    },
                },
            },
        },
    }
}

/// Whether the target is declared read-only in one of systemd's spellings.
pub open spec fn read_only(t: TransferView) -> bool {
    let v = value_of(t.unit, TARGET_SECTION@, "ReadOnly"@);
    v == Some("1"@) || v == Some("yes"@) || v == Some("true"@) || v == Some("on"@)
}

/// The requirements a transfer does not meet: fewer than two instances,
/// counting an absent `InstancesMax=` as none, and a writable target.
pub open spec fn transfer_findings(t: TransferView) -> Seq<FindingView> {
    let declared: u32 = match t.instances_max {
        Some(n) => n,
        None => 0,
    };
    at_most(
        (if declared < AB_INSTANCES {
            seq![FindingView::SingleSlotTransfer { instances_max: declared as nat }]
        } else {
            Seq::empty()
        }) + (if !read_only(t) {
            seq![FindingView::WritableTransferTarget]
        } else {
            Seq::empty()
        }),
        MAX_FINDINGS as nat,
    )
}

/// Whether the key list of `section` holds `key`; `None` when
/// `sysupdate.d(5)` does not define the section.
fn keys_of(section: &str, key: &str) -> (r: Option<bool>)
    ensures
        match section_keys(section@) {
            None => r is None,
            Some(keys) => r == Some(lists_key(keys, key@)),
        },
{
    if same_text(section, TRANSFER_SECTION) {
        Some(listed(&TRANSFER_KEYS, key))
    } else if same_text(section, SOURCE_SECTION) {
        Some(listed(&SOURCE_KEYS, key))
    } else if same_text(section, TARGET_SECTION) {
        Some(listed(&TARGET_KEYS, key))
    } else {
        None
    }
}

/// Whether `keys` holds `key`.
fn listed(keys: &[&'static str], key: &str) -> (r: bool)
    ensures
        r == lists_key(keys@, key@),
{
    let mut j: usize = 0;
    while j < keys.len()
        invariant
            j <= keys.len(),
            forall|i: int| 0 <= i < j ==> keys@[i]@ != key@,
        decreases keys.len() - j,
    {
        if same_text(keys[j], key) {
            return true;
        }
        j += 1;
    }
    false
}

/// Refuses any section or key `sysupdate.d(5)` does not define.
fn check_vocabulary(unit: &UnitFile) -> (r: Result<(), DefinitionError>)
    requires
        unit_well_formed(unit@),
    ensures
        match r {
            Ok(()) => transfer_vocabulary_fault(unit@, 0) is None,
            Err(e) => transfer_vocabulary_fault(unit@, 0) == Some(e@),
        },
{
    let entries = unit.entries();
    let mut i: usize = 0;
    while i < entries.len() && i < MAX_ENTRIES
        invariant
            i <= entries.len(),
            entries_view(entries@) == unit@.entries,
            transfer_vocabulary_fault(unit@, 0) == transfer_vocabulary_fault(unit@, i as int),
        decreases entries.len() - i,
    {
        let entry = &entries[i];
        assert(unit@.entries[i as int] == entry@);
        match keys_of(entry.section.as_str(), entry.key.as_str()) {
            None => {
                return Err(
                    DefinitionError::UnknownSection {
                        name: unit.name().to_owned(),
                        line: entry.line,
                        section: entry.section.clone(),
                    },
                );
            },
            Some(false) => {
                return Err(
                    DefinitionError::UnknownKey {
                        name: unit.name().to_owned(),
                        line: entry.line,
                        section: entry.section.clone(),
                        key: entry.key.clone(),
                    },
                );
            },
            Some(true) => {},
        }
        i += 1;
    }
    Ok(())
}

/// Refuses a section that is present but missing a key systemd requires.
fn require(unit: &UnitFile, section: &str, key: &'static str) -> (r: Result<(), DefinitionError>)
    ensures
        match r {
            Ok(()) => missing_fault(unit@, section@, key@) is None,
            Err(e) => missing_fault(unit@, section@, key@) == Some(e@),
        },
{
    if unit.value(section, key).is_some() {
        return Ok(());
    }
    Err(DefinitionError::MissingKey { name: unit.name().to_owned(), section: section.to_owned(), key })
}

/// Reads a `u32` the way `str::parse::<u32>` does.
#[verifier::loop_isolation(false)]
fn parse_u32(text: &str) -> (r: Option<u32>)
    ensures
        r == u32_value(text@),
{
    let chars = chars_of(text);
    let start: usize = if chars.len() > 0 && chars[0] == '+' {
        1
    } else {
        0
    };
    let ghost digits = chars@.subrange(start as int, chars@.len() as int);
    proof {
        if start == 1 {
            assert(digits =~= chars@.drop_first());
        } else {
            assert(digits =~= chars@);
        }
    }
    if start == chars.len() {
        return None;
    }
    let mut value: u32 = 0;
    let mut k = start;
    while k < chars.len()
        invariant
            start <= k <= chars.len(),
            digits == chars@.subrange(start as int, chars@.len() as int),
            value == digits_value(chars@.subrange(start as int, k as int)),
            forall|j: int| start <= j < k ==> crate::text::ascii_digit(#[trigger] chars@[j]),
        decreases chars.len() - k,
    {
        let c = chars[k];
        proof {
            assert(chars@.subrange(start as int, k + 1).drop_last() =~= chars@.subrange(
                start as int,
                k as int,
            ));
        }
        if !is_ascii_digit(c) {
            proof {
                assert(digits[k - start] == c);
            }
            return None;
        }
        let d = (c as u32 - '0' as u32) as u32;
        let next = match value.checked_mul(10) {
            Some(s) => s.checked_add(d),
            None => None,
        };
        match next {
            Some(n) => {
                value = n;
            },
            None => {
                proof {
                    assert(all_ascii_digits(digits) ==> digits_value(digits) > u32::MAX) by {
                        lemma_digits_value_prefix_u(digits, k + 1 - start);
                        assert(digits.subrange(0, k + 1 - start) =~= chars@.subrange(
                            start as int,
                            k + 1,
                        ));
                    }
                }
                return None;
            },
        }
        k += 1;
    }
    proof {
        assert(chars@.subrange(start as int, k as int) =~= digits);
        assert forall|j: int| 0 <= j < digits.len() implies crate::text::ascii_digit(
            #[trigger] digits[j],
        ) by {
            assert(digits[j] == chars@[start + j]);
        }
    }
    Some(value)
}

proof fn lemma_digits_value_prefix_u(s: Seq<char>, n: int)
    requires
        0 <= n <= s.len(),
    ensures
        digits_value(s.subrange(0, n)) <= digits_value(s),
    decreases s.len() - n,
{
    if n < s.len() {
        lemma_digits_value_prefix_u(s, n + 1);
        assert(s.subrange(0, n + 1).drop_last() =~= s.subrange(0, n));
    } else {
        assert(s.subrange(0, n) =~= s);
    }
}

/// Reads `InstancesMax=`, refusing a value that is not a count.
fn instances_max(unit: &UnitFile) -> (r: Result<Option<u32>, DefinitionError>)
    ensures
        match r {
            Ok(v) => instances_field(unit@) == Ok::<Option<u32>, DefinitionFault>(v),
            Err(e) => instances_field(unit@) == Err::<Option<u32>, DefinitionFault>(e@),
        },
{
    let raw = match unit.value(TARGET_SECTION, "InstancesMax") {
        Some(raw) => raw,
        None => return Ok(None),
    };
    match parse_u32(raw) {
        Some(count) => Ok(Some(count)),
        None => {
            let line = match unit.line_of(TARGET_SECTION, "InstancesMax") {
                Some(n) => n,
                None => 0,
            };
            Err(
                DefinitionError::MalformedValue {
                    name: unit.name().to_owned(),
                    line,
                    key: "InstancesMax".to_owned(),
                    value: raw.to_owned(),
                    expected: COUNT_EXPECTATION,
                },
            )
        },
    }
}

/// Whether an optional value is exactly `expected`.
fn is_value(value: Option<&str>, expected: &str) -> (r: bool)
    ensures
        r == (opt_str_view(value) == Some(expected@)),
{
    match value {
        Some(v) => same_text(v, expected),
        None => false,
    }
}

impl TransferDefinition {
    /// Parses the transfer `name` from `text`.
    ///
    /// Refuses the keys and sections `sysupdate.d(5)` does not define, a
    /// `[Source]` or `[Target]` without its mandatory `Type=` and
    /// `MatchPattern=`, and an unreadable `InstancesMax=`.
    pub fn parse(name: &str, text: &str) -> (r: Result<Self, DefinitionError>)
        ensures
            match r {
                Ok(t) => transfer_parse(name@, text@) == Ok::<TransferView, DefinitionFault>(t@)
                    && unit_well_formed(t@.unit),
                Err(e) => transfer_parse(name@, text@) == Err::<TransferView, DefinitionFault>(e@),
            },
    {
        let unit = match UnitFile::parse(name, text) {
            Ok(unit) => unit,
            Err(e) => return Err(e),
        };
        match check_vocabulary(&unit) {
            Ok(()) => {},
            Err(e) => return Err(e),
        }
        match require(&unit, SOURCE_SECTION, "Type") {
            Ok(()) => {},
            Err(e) => return Err(e),
        }
        match require(&unit, SOURCE_SECTION, "MatchPattern") {
            Ok(()) => {},
            Err(e) => return Err(e),
        }
        match require(&unit, TARGET_SECTION, "Type") {
            Ok(()) => {},
            Err(e) => return Err(e),
        }
        match require(&unit, TARGET_SECTION, "MatchPattern") {
            Ok(()) => {},
            Err(e) => return Err(e),
        }
        let instances_max = match instances_max(&unit) {
            Ok(v) => v,
            Err(e) => return Err(e),
        };
        Ok(TransferDefinition { unit, instances_max })
    }

    /// The parsed drop-in, for callers that need the raw assignments.
    pub fn unit(&self) -> (r: &UnitFile)
        ensures
            r@ == self@.unit,
    {
        &self.unit
    }

    /// The `[Source] Type=` resource kind.
    pub fn source_type(&self) -> (r: Option<&str>)
        ensures
            opt_str_view(r) == value_of(self@.unit, SOURCE_SECTION@, "Type"@),
    {
        self.unit.value(SOURCE_SECTION, "Type")
    }

    /// The `[Target] Type=` resource kind.
    pub fn target_type(&self) -> (r: Option<&str>)
        ensures
            opt_str_view(r) == value_of(self@.unit, TARGET_SECTION@, "Type"@),
    {
        self.unit.value(TARGET_SECTION, "Type")
    }

    /// The `[Target] MatchPattern=`, which selects the slots to rotate.
    pub fn target_pattern(&self) -> (r: Option<&str>)
        ensures
            opt_str_view(r) == value_of(self@.unit, TARGET_SECTION@, "MatchPattern"@),
    {
        self.unit.value(TARGET_SECTION, "MatchPattern")
    }

    /// `InstancesMax=`, if the transfer sets one.
    pub fn instances_max(&self) -> (r: Option<u32>)
        ensures
            r == self@.instances_max,
    {
        self.instances_max
    }

    /// `true` when the target is declared read-only.
    pub fn is_read_only(&self) -> (r: bool)
        ensures
            r == read_only(self@),
    {
        let value = self.unit.value(TARGET_SECTION, "ReadOnly");
        is_value(value, "1") || is_value(value, "yes") || is_value(value, "true") || is_value(
            value,
            "on",
        )
    }

    /// Renders the transfer back to its canonical form.
    pub fn render(&self) -> (r: String)
        ensures
            r@ == unit_render(self@.unit),
    {
        self.unit.render()
    }

    /// Requirements this transfer does not meet.
    ///
    /// An absent `InstancesMax=` is a single-slot finding rather than a pass:
    /// systemd's own default keeps the contract implicit, and REQ-P02-04 asks
    /// for it in writing.
    pub fn findings(&self) -> (r: Vec<Finding>)
        ensures
            findings_view(r@) == transfer_findings(self@),
    {
        let mut out: Vec<Finding> = Vec::new();
        let declared = match self.instances_max {
            Some(n) => n,
            None => 0,
        };
        if declared < AB_INSTANCES {
            out.push(Finding::SingleSlotTransfer { instances_max: declared });
        }
        let ghost first = out@;
        if !self.is_read_only() {
            out.push(Finding::WritableTransferTarget);
        }
        out.truncate(MAX_FINDINGS);
        proof {
            let a = if declared < AB_INSTANCES {
                seq![FindingView::SingleSlotTransfer { instances_max: declared as nat }]
            } else {
                Seq::<FindingView>::empty()
            };
            let b = if !read_only(self@) {
                seq![FindingView::WritableTransferTarget]
            } else {
                Seq::<FindingView>::empty()
            };
            assert(findings_view(out@) =~= at_most(a + b, MAX_FINDINGS as nat));
        }
        out
    }
}

proof fn lemma_transfer_vocabulary_declared(u: UnitView, v: UnitView, i: int)
    requires
        declared(u.entries) == declared(v.entries),
    ensures
        transfer_vocabulary_fault(u, i) is None <==> transfer_vocabulary_fault(v, i) is None,
    decreases u.entries.len() - i,
{
    assert(declared(u.entries).len() == u.entries.len());
    assert(declared(v.entries).len() == v.entries.len());
    if 0 <= i < u.entries.len() && i < MAX_ENTRIES {
        assert(declared(u.entries)[i] == declared(v.entries)[i]);
        lemma_transfer_vocabulary_declared(u, v, i + 1);
    }
}

/// A transfer renders back to a form that reads as the same definition.
/// Reading the canonical text of an accepted transfer, under the same name,
/// succeeds with the same `InstancesMax=`, the same findings, and a unit
/// with the same sections and assignments, whose own canonical text is the
/// same; from the second pass on the round trip gives back exactly the
/// definition it started from.
pub proof fn transfer_round_trip(name: Seq<char>, text: Seq<char>)
    ensures
        transfer_parse(name, text) matches Ok(t) ==> {
            &&& transfer_parse(name, unit_render(t.unit)) matches Ok(t2)
            &&& t2.instances_max == t.instances_max
            &&& transfer_findings(t2) == transfer_findings(t)
            &&& t2.unit.sections == t.unit.sections
            &&& declared(t2.unit.entries) == declared(t.unit.entries)
            &&& unit_render(t2.unit) == unit_render(t.unit)
            &&& transfer_parse(name, unit_render(t2.unit)) == Ok::<TransferView, DefinitionFault>(t2)
        },
{
    unit_round_trip(name, text);
    if let Ok(t) = transfer_parse(name, text) {
        let u = t.unit;
        if let Ok(v) = unit_parse(name, unit_render(u)) {
            lemma_transfer_vocabulary_declared(u, v, 0);
            lemma_value_of_declared(u, v, SOURCE_SECTION@, "Type"@);
            lemma_value_of_declared(u, v, SOURCE_SECTION@, "MatchPattern"@);
            lemma_value_of_declared(u, v, TARGET_SECTION@, "Type"@);
            lemma_value_of_declared(u, v, TARGET_SECTION@, "MatchPattern"@);
            lemma_value_of_declared(u, v, TARGET_SECTION@, "InstancesMax"@);
            lemma_value_of_declared(u, v, TARGET_SECTION@, "ReadOnly"@);
        }
    }
}

} // verus!
