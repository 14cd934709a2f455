//! What the geometry slice refuses, and why.

use vstd::prelude::*;
use crate::hephaestus::id::{IdError, step_id_error_message};
use crate::text::{decimal, push_decimal, push_text};

verus! {

/// Reasons a geometry, mesh or solver request is refused.
#[derive(Debug, Clone, Copy, PartialEq, Eq, Structural)]
#[non_exhaustive]
pub enum HephaestusError {
    /// The request named no `STEP` source at all.
    StepSourceMissing,
    /// A mesh was asked for more elements than the recorded bound.
    MeshElementsOutOfRange { elements: usize, max: usize },
    /// A mesh element size range was empty or inverted.
    ElementSizeRangeInvalid { min: u32, max: u32 },
    /// A geometry tolerance was outside the admissible range.
    ToleranceOutOfRange { micrometres: u32, min: u32, max: u32 },
    /// A solver tag named no solver the recorded set holds. The offered tag
    /// is not carried: it is caller-supplied text of unbounded length.
    UnknownSolver,
    /// An identifier was refused by its validating constructor.
    Identifier(IdError),
}

impl From<IdError> for HephaestusError {
    fn from(value: IdError) -> (r: HephaestusError)
        ensures
            r == HephaestusError::Identifier(value),
    {
        HephaestusError::Identifier(value)
    }
}

impl vstd::std_specs::convert::FromSpecImpl<IdError> for HephaestusError {
    open spec fn obeys_from_spec() -> bool {
        true
    }

    open spec fn from_spec(v: IdError) -> HephaestusError {
        HephaestusError::Identifier(v)
    }
}

/// The text a [`HephaestusError`] is reported with.
pub open spec fn hephaestus_error_message(e: HephaestusError) -> Seq<char> {
    match e {
        HephaestusError::StepSourceMissing =>
            "a geometry evaluation was asked for without a STEP source path"@,
        HephaestusError::MeshElementsOutOfRange { elements, max } => "a mesh of "@ + decimal(
            elements as nat,
        ) + " elements exceeds the bound of "@ + decimal(max as nat),
        HephaestusError::ElementSizeRangeInvalid { min, max } => "a mesh element size range of "@
            + decimal(min as nat) + "..="@ + decimal(max as nat)
            + " micrometres is empty or inverted"@,
        HephaestusError::ToleranceOutOfRange { micrometres, min, max } => "a tolerance of "@
            + decimal(micrometres as nat) + " micrometres is outside "@ + decimal(min as nat)
            + "..="@ + decimal(max as nat),
        HephaestusError::UnknownSolver => "no admitted solver is named by the offered tag"@,
        HephaestusError::Identifier(e) => "an identifier was refused: "@ + step_id_error_message(
            e,
        ),
    }
}

impl HephaestusError {
    /// The text this refusal is reported with.
    pub fn message(&self) -> (r: String)
        ensures
            r@ == hephaestus_error_message(*self),
    {
        let mut out = String::new();
        match self {
            HephaestusError::StepSourceMissing => push_text(
                &mut out,
                "a geometry evaluation was asked for without a STEP source path",
            ),
            HephaestusError::MeshElementsOutOfRange { elements, max } => {
                push_text(&mut out, "a mesh of ");
                push_decimal(&mut out, *elements as u64);
                push_text(&mut out, " elements exceeds the bound of ");
                push_decimal(&mut out, *max as u64);
            },
            HephaestusError::ElementSizeRangeInvalid { min, max } => {
                push_text(&mut out, "a mesh element size range of ");
                push_decimal(&mut out, *min as u64);
                push_text(&mut out, "..=");
                push_decimal(&mut out, *max as u64);
                push_text(&mut out, " micrometres is empty or inverted");
            },
            HephaestusError::ToleranceOutOfRange { micrometres, min, max } => {
                push_text(&mut out, "a tolerance of ");
                push_decimal(&mut out, *micrometres as u64);
                push_text(&mut out, " micrometres is outside ");
                push_decimal(&mut out, *min as u64);
                push_text(&mut out, "..=");
                push_decimal(&mut out, *max as u64);
            },
            HephaestusError::UnknownSolver => push_text(
                &mut out,
                "no admitted solver is named by the offered tag",
            ),
            HephaestusError::Identifier(e) => {
                push_text(&mut out, "an identifier was refused: ");
                let m = e.message();
                push_text(&mut out, m.as_str());
            },
        }
        assert(out@ =~= hephaestus_error_message(*self));
        out
    }
}

} // verus!
