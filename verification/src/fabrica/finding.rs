//! Findings: what systemd accepts but the Aegis A/B contract does not.
//!
//! A [`DefinitionError`](crate::fabrica::error::DefinitionError) says the
//! definition is not valid input. A [`Finding`] says the definition is valid
//! input that does not meet a recorded requirement, and names the requirement.

use vstd::prelude::*;
use crate::text::{decimal, push_decimal, push_text};

verus! {

/// Scalar bound on the findings one check may report.
pub const MAX_FINDINGS: usize = 32;

/// What a definition set fails to meet, and which requirement says so.
#[derive(Debug, Clone, PartialEq, Eq)]
pub enum Finding {
    /// The ESP may grow no smaller than 512M (REQ-P01-10).
    EspBelowMinimum { bytes: u64 },
    /// The ESP may grow no larger than 1G (REQ-P01-10).
    EspAboveMaximum { bytes: u64 },
    /// The ESP declares no size bound at all (REQ-P01-10).
    EspUnbounded,
    /// A verity data partition has no hash partition with the same match key.
    MissingVerityHash { match_key: String },
    /// A verity hash partition has no data partition with the same match key.
    MissingVerityData { match_key: String },
    /// The set does not declare two root slots (REQ-P01-04, REQ-P02-04).
    MissingAlternateRootSlot { slots: usize },
    /// The stateful partition is not TPM2-sealed (REQ-P02-03).
    VarNotEncrypted,
    /// The transfer keeps fewer than two instances, so it is not A/B.
    SingleSlotTransfer { instances_max: u32 },
    /// The transfer target is writable, against the read-only root (REQ-P02-04).
    WritableTransferTarget,
}

/// The mathematical content of a [`Finding`].
pub enum FindingView {
    EspBelowMinimum { bytes: nat },
    EspAboveMaximum { bytes: nat },
    EspUnbounded,
    MissingVerityHash { match_key: Seq<char> },
    MissingVerityData { match_key: Seq<char> },
    MissingAlternateRootSlot { slots: nat },
    VarNotEncrypted,
    SingleSlotTransfer { instances_max: nat },
    WritableTransferTarget,
}

impl View for Finding {
    type V = FindingView;

    open spec fn view(&self) -> FindingView {
        match self {
            Finding::EspBelowMinimum { bytes } => FindingView::EspBelowMinimum {
                bytes: *bytes as nat,
            },
            Finding::EspAboveMaximum { bytes } => FindingView::EspAboveMaximum {
                bytes: *bytes as nat,
            },
            Finding::EspUnbounded => FindingView::EspUnbounded,
            Finding::MissingVerityHash { match_key } => FindingView::MissingVerityHash {
                match_key: match_key@,
            },
            Finding::MissingVerityData { match_key } => FindingView::MissingVerityData {
                match_key: match_key@,
            },
            Finding::MissingAlternateRootSlot { slots } => FindingView::MissingAlternateRootSlot {
                slots: *slots as nat,
            },
            Finding::VarNotEncrypted => FindingView::VarNotEncrypted,
            Finding::SingleSlotTransfer { instances_max } => FindingView::SingleSlotTransfer {
                instances_max: *instances_max as nat,
            },
            Finding::WritableTransferTarget => FindingView::WritableTransferTarget,
        }
    }
}

/// The views of a list of findings.
pub open spec fn findings_view(v: Seq<Finding>) -> Seq<FindingView> {
    v.map_values(|f: Finding| f@)
}

/// The text a finding is reported with, naming its requirement first.
pub open spec fn finding_message(f: FindingView) -> Seq<char> {
    match f {
        FindingView::EspBelowMinimum { bytes } => "REQ-P01-10: ESP SizeMinBytes="@ + decimal(bytes)
            + " is below 512M"@,
        FindingView::EspAboveMaximum { bytes } => "REQ-P01-10: ESP SizeMaxBytes="@ + decimal(bytes)
            + " is above 1G"@,
        FindingView::EspUnbounded => "REQ-P01-10: the ESP declares no size bound"@,
        FindingView::MissingVerityHash { match_key } =>
            "REQ-P02-07: verity data partition with VerityMatchKey="@ + match_key
            + " has no hash partner"@,
        FindingView::MissingVerityData { match_key } =>
            "REQ-P02-07: verity hash partition with VerityMatchKey="@ + match_key
            + " has no data partner"@,
        FindingView::MissingAlternateRootSlot { slots } =>
            "REQ-P02-04: the A/B contract needs two root slots, the set declares "@ + decimal(
                slots,
            ),
        FindingView::VarNotEncrypted => "REQ-P02-03: the var partition is not TPM2-sealed"@,
        FindingView::SingleSlotTransfer { instances_max } => "REQ-P02-04: the transfer keeps "@
            + decimal(instances_max) + " instance(s); A/B needs at least 2"@,
        FindingView::WritableTransferTarget =>
            "REQ-P02-04: the transfer target is writable; the root slot is read-only"@,
    }
}

impl Finding {
    /// The text this finding is reported with.
    pub fn message(&self) -> (r: String)
        ensures
            r@ == finding_message(self@),
    {
        let mut out = String::new();
        match self {
            Finding::EspBelowMinimum { bytes } => {
                push_text(&mut out, "REQ-P01-10: ESP SizeMinBytes=");
                push_decimal(&mut out, *bytes);
                push_text(&mut out, " is below 512M");
            },
            Finding::EspAboveMaximum { bytes } => {
                push_text(&mut out, "REQ-P01-10: ESP SizeMaxBytes=");
                push_decimal(&mut out, *bytes);
                push_text(&mut out, " is above 1G");
            },
            Finding::EspUnbounded => {
                push_text(&mut out, "REQ-P01-10: the ESP declares no size bound");
            },
            Finding::MissingVerityHash { match_key } => {
                push_text(&mut out, "REQ-P02-07: verity data partition with VerityMatchKey=");
                push_text(&mut out, match_key.as_str());
                push_text(&mut out, " has no hash partner");
            },
            Finding::MissingVerityData { match_key } => {
                push_text(&mut out, "REQ-P02-07: verity hash partition with VerityMatchKey=");
                push_text(&mut out, match_key.as_str());
                push_text(&mut out, " has no data partner");
            },
            Finding::MissingAlternateRootSlot { slots } => {
                push_text(
                    &mut out,
                    "REQ-P02-04: the A/B contract needs two root slots, the set declares ",
                );
                push_decimal(&mut out, *slots as u64);
            },
            Finding::VarNotEncrypted => {
                push_text(&mut out, "REQ-P02-03: the var partition is not TPM2-sealed");
            },
            Finding::SingleSlotTransfer { instances_max } => {
                push_text(&mut out, "REQ-P02-04: the transfer keeps ");
                push_decimal(&mut out, *instances_max as u64);
                push_text(&mut out, " instance(s); A/B needs at least 2");
            },
            Finding::WritableTransferTarget => {
                push_text(
                    &mut out,
                    "REQ-P02-04: the transfer target is writable; the root slot is read-only",
                );
            },
        }
        assert(out@ =~= finding_message(self@));
        out
    }
}

} // verus!
