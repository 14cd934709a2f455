//! What the registry, client table and mesh refuse, and why. Each refusal
//! is a variant carrying the bound or the value it refused.

use vstd::prelude::*;
use crate::compositor::id::{IdError, id_error_message};
use crate::text::{decimal, push_decimal, push_text};

verus! {

/// Reasons a compositor table, constructor or mesh operation refuses.
#[derive(Debug, Clone, Copy, PartialEq, Eq, Structural)]
#[non_exhaustive]
pub enum CompositorError {
    /// The surface registry is full.
    SurfaceRegistryFull { max: usize },
    /// The registry already holds a surface with that identifier.
    DuplicateSurface { id: u32 },
    /// The registry holds no surface with that identifier.
    UnknownSurface { id: u32 },
    /// The Tier-1 client table is full.
    ClientTableFull { max: usize },
    /// The mesh topic table is full.
    MeshTopicTableFull { max: usize },
    /// A sample does not fit the mesh's retained-sample bound.
    SampleTooLarge { bytes: usize, max: usize },
    /// A subscriber tried to publish: immutable-read controls forbid
    /// back-action on the stream it reads.
    RetroactivityRefused,
    /// The mesh holds no subscription with that identifier.
    UnknownSubscription { id: u32 },
    /// A refresh rate was outside the range a frame period can be taken of.
    RefreshRateOutOfRange { hz: u32, min: u32, max: u32 },
    /// An identifier was refused by its validating constructor.
    Identifier(IdError),
}

impl From<IdError> for CompositorError {
    fn from(value: IdError) -> (r: CompositorError)
        ensures
            r == CompositorError::Identifier(value),
    {
        CompositorError::Identifier(value)
    }
}

impl vstd::std_specs::convert::FromSpecImpl<IdError> for CompositorError {
    open spec fn obeys_from_spec() -> bool {
        true
    }

    open spec fn from_spec(v: IdError) -> CompositorError {
        CompositorError::Identifier(v)
    }
}

/// The text a [`CompositorError`] is reported with.
pub open spec fn compositor_error_message(e: CompositorError) -> Seq<char> {
    match e {
        CompositorError::SurfaceRegistryFull { max } => "the surface registry holds its maximum of "@
            + decimal(max as nat) + " surfaces"@,
        CompositorError::DuplicateSurface { id } => "the surface registry already holds surface "@
            + decimal(id as nat),
        CompositorError::UnknownSurface { id } => "the surface registry holds no surface "@
            + decimal(id as nat),
        CompositorError::ClientTableFull { max } => "the Tier-1 client table holds its maximum of "@
            + decimal(max as nat) + " clients"@,
        CompositorError::MeshTopicTableFull { max } => "the mesh holds its maximum of "@ + decimal(
            max as nat,
        ) + " retained topics"@,
        CompositorError::SampleTooLarge { bytes, max } => "a sample of "@ + decimal(bytes as nat)
            + " bytes exceeds the retained-sample bound of "@ + decimal(max as nat),
        CompositorError::RetroactivityRefused =>
            "a subscriber may not publish: immutable-read controls forbid back-action"@,
        CompositorError::UnknownSubscription { id } => "the mesh holds no subscription "@ + decimal(
            id as nat,
        ),
        CompositorError::RefreshRateOutOfRange { hz, min, max } => "a refresh rate of "@ + decimal(
            hz as nat,
        ) + " Hz is outside "@ + decimal(min as nat) + "..="@ + decimal(max as nat),
        CompositorError::Identifier(e) => "an identifier was refused: "@ + id_error_message(e),
    }
}

impl CompositorError {
    /// The text this refusal is reported with.
    pub fn message(&self) -> (r: String)
        ensures
            r@ == compositor_error_message(*self),
    {
        let mut out = String::new();
        match self {
            CompositorError::SurfaceRegistryFull { max } => {
                push_text(&mut out, "the surface registry holds its maximum of ");
                push_decimal(&mut out, *max as u64);
                push_text(&mut out, " surfaces");
            },
            CompositorError::DuplicateSurface { id } => {
                push_text(&mut out, "the surface registry already holds surface ");
                push_decimal(&mut out, *id as u64);
            },
            CompositorError::UnknownSurface { id } => {
                push_text(&mut out, "the surface registry holds no surface ");
                push_decimal(&mut out, *id as u64);
            },
            CompositorError::ClientTableFull { max } => {
                push_text(&mut out, "the Tier-1 client table holds its maximum of ");
                push_decimal(&mut out, *max as u64);
                push_text(&mut out, " clients");
            },
            CompositorError::MeshTopicTableFull { max } => {
                push_text(&mut out, "the mesh holds its maximum of ");
                push_decimal(&mut out, *max as u64);
                push_text(&mut out, " retained topics");
            },
            CompositorError::SampleTooLarge { bytes, max } => {
                push_text(&mut out, "a sample of ");
                push_decimal(&mut out, *bytes as u64);
                push_text(&mut out, " bytes exceeds the retained-sample bound of ");
                push_decimal(&mut out, *max as u64);
            },
            CompositorError::RetroactivityRefused => {
                push_text(
                    &mut out,
                    "a subscriber may not publish: immutable-read controls forbid back-action",
                );
            },
            CompositorError::UnknownSubscription { id } => {
                push_text(&mut out, "the mesh holds no subscription ");
                push_decimal(&mut out, *id as u64);
            },
            CompositorError::RefreshRateOutOfRange { hz, min, max } => {
                push_text(&mut out, "a refresh rate of ");
                push_decimal(&mut out, *hz as u64);
                push_text(&mut out, " Hz is outside ");
                push_decimal(&mut out, *min as u64);
                push_text(&mut out, "..=");
                push_decimal(&mut out, *max as u64);
            },
            CompositorError::Identifier(e) => {
                push_text(&mut out, "an identifier was refused: ");
                let m = e.message();
                push_text(&mut out, m.as_str());
            },
        }
        assert(out@ =~= compositor_error_message(*self));
        out
    }
}

} // verus!
