//! The intake of verification requests the code-CAD producer sends. No
//! solver exists in this build, so the only outcome a request can reach is
//! "admitted, pending a solver": nothing here ever reports a script as
//! verified. Decoding is the producer's: its decoder runs first, and the
//! intake counts what that decoder admitted and refused, passing each
//! refusal on unchanged.

use vstd::prelude::*;
use crate::hephaestus::solver::bumped;

verus! {

/// What an admitted request is waiting for. Never a verdict.
#[derive(Debug, Clone, Copy, PartialEq, Eq, Hash, Structural)]
#[non_exhaustive]
pub enum VerificationOutcome {
    /// The request is well formed and waits for a solver this build has
    /// none of.
    AdmittedPendingSolver,
}

impl VerificationOutcome {
    /// The only outcome this build can reach.
    pub const ADMITTED: VerificationOutcome = VerificationOutcome::AdmittedPendingSolver;

    /// The stable name this outcome is recorded under.
    pub fn name(self) -> (r: &'static str)
        ensures
            r@ == "admitted-pending-solver"@,
    {
        match self {
            VerificationOutcome::AdmittedPendingSolver => "admitted-pending-solver",
        }
    }

    /// Returns `false`: no outcome means a script was verified.
    pub fn is_verified(self) -> (r: bool)
        ensures
            !r,
    {
        match self {
            VerificationOutcome::AdmittedPendingSolver => false,
        }
    }
}

/// A request the producer's decoder admitted, and what it waits for.
#[derive(Debug, Clone, Copy, PartialEq, Eq)]
pub struct AdmittedVerification<R> {
    /// The producer's request, decoded through the producer's own type.
    pub request: R,
    /// What the request is waiting for. Never a verdict.
    pub outcome: VerificationOutcome,
}

/// The intake, with saturating counts of the requests admitted and the
/// payloads refused.
#[derive(Debug, Clone, Copy, PartialEq, Eq, Structural)]
pub struct VerificationIntake {
    admitted: u64,
    refused: u64,
}

impl View for VerificationIntake {
    type V = (u64, u64);

    /// How many requests were admitted, and how many payloads refused.
    closed spec fn view(&self) -> (u64, u64) {
        (self.admitted, self.refused)
    }
}

impl VerificationIntake {
    /// An intake that has seen nothing.
    pub fn new() -> (r: Self)
        ensures
            r@ == (0u64, 0u64),
    {
        VerificationIntake { admitted: 0, refused: 0 }
    }

    /// Admits what the producer's decoder made of one payload: a decoded
    /// request is admitted pending a solver, and a refusal is passed on
    /// unchanged. Either way it is counted.
    pub fn accept<R, E>(&mut self, decoded: Result<R, E>) -> (r: Result<AdmittedVerification<R>, E>)
        ensures
            match decoded {
                Ok(request) => r == Ok::<AdmittedVerification<R>, E>(
                    AdmittedVerification { request, outcome: VerificationOutcome::AdmittedPendingSolver },
                ) && final(self)@ == (bumped(old(self)@.0), old(self)@.1),
                Err(refusal) => r == Err::<AdmittedVerification<R>, E>(refusal) && final(self)@
                    == (old(self)@.0, bumped(old(self)@.1)),
            },
    {
        match decoded {
            Ok(request) => {
                self.admitted = self.admitted.saturating_add(1);
                Ok(AdmittedVerification { request, outcome: VerificationOutcome::ADMITTED })
            },
            Err(refusal) => {
                self.refused = self.refused.saturating_add(1);
                Err(refusal)
            },
        }
    }

    /// How many requests were admitted.
    pub fn admitted(&self) -> (r: u64)
        ensures
            r == self@.0,
    {
        self.admitted
    }

    /// How many payloads were refused.
    pub fn refused(&self) -> (r: u64)
        ensures
            r == self@.1,
    {
        self.refused
    }
}

impl Default for VerificationIntake {
    fn default() -> (r: Self)
        ensures
            r@ == (0u64, 0u64),
    {
        VerificationIntake::new()
    }
}

} // verus!
