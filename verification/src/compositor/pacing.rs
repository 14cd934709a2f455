//! The frame-pacing constant, pinned.
//!
//! Three recorded figures compete: the scaffold's 100 microsecond sleep, the
//! 144 Hz its own comment names, and the 1.5 millisecond render and IPC
//! budget. Only the refresh rate is a pacing period, so the pinned period is
//! 6944 microseconds, and the budget is checked to fit inside it. Nothing
//! here runs a loop or reads a clock: a [`DeclaredPeriodUs`] is declared,
//! never observed.

use vstd::prelude::*;
use crate::compositor::error::CompositorError;
use crate::text::{decimal, push_decimal, push_text};

verus! {

/// The lowest refresh rate a frame period can be taken of.
pub const MIN_REFRESH_HZ: u32 = 1;

/// The highest refresh rate a frame period can be taken of: one frame per
/// microsecond.
pub const MAX_REFRESH_HZ: u32 = 1000000;

/// The period the scaffold's event loop sleeps to, in microseconds.
pub const SCAFFOLD_LOOP_PERIOD_US: u32 = 100;

/// The refresh rate the comment beside that sleep names.
pub const PACING_COMMENT_REFRESH_HZ: u32 = 144;

/// The render-and-IPC work budget per frame, in microseconds.
pub const RENDER_IPC_BUDGET_US: u32 = 1500;

/// The event loop cycles the scaffold runs before it returns.
pub const SCAFFOLD_EVENT_LOOP_CYCLES: u32 = 200;

/// Which recorded reading a period comes from.
#[derive(Debug, Clone, Copy, PartialEq, Eq, Hash, Structural)]
#[non_exhaustive]
pub enum PacingSource {
    /// The literal the scaffold's event loop sleeps to.
    ScaffoldLiteral,
    /// The refresh rate the comment on the same line names.
    RefreshRateComment,
    /// The render-and-IPC budget the subsystem graph records for the node.
    RenderIpcBudget,
}

/// The stable name a reading is recorded under.
pub open spec fn pacing_source_name(s: PacingSource) -> Seq<char> {
    match s {
        PacingSource::ScaffoldLiteral => "scaffold-literal"@,
        PacingSource::RefreshRateComment => "refresh-rate-comment"@,
        PacingSource::RenderIpcBudget => "render-ipc-budget"@,
    }
}

impl PacingSource {
    /// All three readings, in the order the requirement lists them.
    pub const ALL: [PacingSource; 3] = [
        PacingSource::ScaffoldLiteral,
        PacingSource::RefreshRateComment,
        PacingSource::RenderIpcBudget,
    ];

    /// The stable name this reading is recorded under.
    pub fn name(self) -> (r: &'static str)
        ensures
            r@ == pacing_source_name(self),
    {
        match self {
            PacingSource::ScaffoldLiteral => "scaffold-literal",
            PacingSource::RefreshRateComment => "refresh-rate-comment",
            PacingSource::RenderIpcBudget => "render-ipc-budget",
        }
    }

    /// Returns `true` when the reading is an interval between frames rather
    /// than an amount of work inside one; the budget is not.
    pub fn is_a_period(self) -> (r: bool)
        ensures
            r == (self != PacingSource::RenderIpcBudget),
    {
        match self {
            PacingSource::RenderIpcBudget => false,
            _ => true,
        }
    }
}

/// A period in microseconds, recorded as declared by one reading and never
/// as observed.
#[derive(Debug, Clone, Copy, PartialEq, Eq, Hash, Structural)]
pub struct DeclaredPeriodUs {
    micros: u32,
    source: PacingSource,
}

impl DeclaredPeriodUs {
    /// Records `micros` as declared by `source`.
    pub fn new(micros: u32, source: PacingSource) -> (r: Self)
        ensures
            r.micros_spec() == micros,
            r.source_spec() == source,
    {
        DeclaredPeriodUs { micros, source }
    }

    /// The declared period in microseconds.
    pub closed spec fn micros_spec(self) -> u32 {
        self.micros
    }

    /// The reading the period comes from.
    pub closed spec fn source_spec(self) -> PacingSource {
        self.source
    }

    /// The declared period in microseconds.
    pub fn micros(self) -> (r: u32)
        ensures
            r == self.micros_spec(),
    {
        self.micros
    }

    /// Which reading the period comes from.
    pub fn source(self) -> (r: PacingSource)
        ensures
            r == self.source_spec(),
    {
        self.source
    }

    /// The period as text: `6944 us (declared by refresh-rate-comment,
    /// unmeasured)`.
    pub fn text(self) -> (r: String)
        ensures
            r@ == decimal(self.micros_spec() as nat) + " us (declared by "@ + pacing_source_name(
                self.source_spec(),
            ) + ", unmeasured)"@,
    {
        let mut out = String::new();
        push_decimal(&mut out, self.micros as u64);
        push_text(&mut out, " us (declared by ");
        push_text(&mut out, self.source.name());
        push_text(&mut out, ", unmeasured)");
        out
    }
}

/// The frame period, in whole microseconds, of a refresh rate in
/// `1..=1000000` Hz: one second divided by the rate, rounded down.
pub fn frame_period_us(hz: u32) -> (r: Result<u32, CompositorError>)
    ensures
        match r {
            Ok(period) => MIN_REFRESH_HZ <= hz <= MAX_REFRESH_HZ && period == MAX_REFRESH_HZ / hz,
            Err(e) => !(MIN_REFRESH_HZ <= hz <= MAX_REFRESH_HZ) && e
                == CompositorError::RefreshRateOutOfRange {
                hz,
                min: MIN_REFRESH_HZ,
                max: MAX_REFRESH_HZ,
            },
        },
{
    if hz < MIN_REFRESH_HZ || hz > MAX_REFRESH_HZ {
        return Err(
            CompositorError::RefreshRateOutOfRange { hz, min: MIN_REFRESH_HZ, max: MAX_REFRESH_HZ },
        );
    }
    Ok(MAX_REFRESH_HZ / hz)
}

/// The pinned frame period: the one the refresh-rate comment names, 144 Hz,
/// which is 6944 microseconds.
pub fn pinned_frame_period_us() -> (r: DeclaredPeriodUs)
    ensures
        r.micros_spec() == MAX_REFRESH_HZ / PACING_COMMENT_REFRESH_HZ,
        r.micros_spec() == 6944,
        r.source_spec() == PacingSource::RefreshRateComment,
{
    DeclaredPeriodUs::new(6944, PacingSource::RefreshRateComment)
}

/// Returns `true` when the render-and-IPC budget fits strictly inside
/// `period`.
pub fn budget_fits_in_period(period: DeclaredPeriodUs) -> (r: bool)
    ensures
        r == (RENDER_IPC_BUDGET_US < period.micros_spec()),
{
    RENDER_IPC_BUDGET_US < period.micros()
}

} // verus!
