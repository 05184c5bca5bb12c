//! The ways in which building, reading or verifying parameters can fail.

use vstd::prelude::*;

verus! {

/// A part of the parameters that a contribution must leave as it was.
#[derive(Clone, Copy, Debug, PartialEq, Eq, Structural)]
pub enum InvariantKind {
    DeltaG1,
    CsHash,
    Contributions,
    AlphaG1,
    BetaG1,
    BetaG2,
    GammaG2,
    GammaAbcG1,
    AlphaG1Query,
    BetaG1Query,
    BetaG2Query,
    Transcript,
}

/// A pairing equation that a verifier checks.
#[derive(Clone, Copy, Debug, PartialEq, Eq, Structural)]
pub enum RatioCheck {
    /// The delta in G2 matches the delta in G1 of the last contribution.
    G2Delta,
    /// The H query was scaled by the inverse of the delta ratio.
    HQuery,
    /// The L query was scaled by the inverse of the delta ratio.
    LQuery,
    /// A contributor knows the delta of their contribution.
    SignatureOfKnowledge,
    /// A contribution moved the previous delta in G1 to its own.
    G1Delta,
}

impl RatioCheck {
    /// The text that names the failed equation.
    pub open spec fn spec_message(self) -> Seq<char> {
        match self {
            RatioCheck::G2Delta => "Inconsistent G2 Delta"@,
            RatioCheck::HQuery => "H_query ratio check failed"@,
            RatioCheck::LQuery => "L_query ratio check failed"@,
            RatioCheck::SignatureOfKnowledge => "Incorrect signature of knowledge"@,
            RatioCheck::G1Delta => "Inconsistent G1 Delta"@,
        }
    }

    /// The text that names the failed equation.
    pub fn message(self) -> (text: &'static str)
        ensures
            text@ == self.spec_message(),
    {
        match self {
            RatioCheck::G2Delta => "Inconsistent G2 Delta",
            RatioCheck::HQuery => "H_query ratio check failed",
            RatioCheck::LQuery => "L_query ratio check failed",
            RatioCheck::SignatureOfKnowledge => "Incorrect signature of knowledge",
            RatioCheck::G1Delta => "Inconsistent G1 Delta",
        }
    }
}

/// Why an operation on ceremony parameters failed.
#[derive(Clone, Copy, Debug, PartialEq, Eq, Structural)]
pub enum Phase2Error {
    /// A private variable occurs in no constraint.
    UnconstrainedVariable,
    /// The parameters to verify hold no contribution.
    NoContributions,
    /// Two sequences that must have the same length differ in length, or an
    /// index points outside the sequence it refers to.
    InvalidLength,
    /// A part that must not change has changed.
    BrokenInvariant(InvariantKind),
    /// A pairing equation does not hold.
    PairingCheckFailed(RatioCheck),
    /// The input ended before everything was read.
    Io,
    /// Some bytes are not the encoding of a group element.
    Deserialization,
    /// An element failed the explicit subgroup test.
    SubgroupCheckFailed,
    /// No point was found for a transcript within the tries that hashing to
    /// the curve allows.
    HashToCurve,
    /// The secret of a contribution is zero, which has no inverse.
    ZeroScalar,
}

impl Phase2Error {
    /// The text of the error.
    pub open spec fn spec_message(self) -> Seq<char> {
        match self {
            Phase2Error::UnconstrainedVariable => "Phase 2 Error: An unconstrained variable was found"@,
            Phase2Error::NoContributions => "Phase 2 Error: There were no contributions found"@,
            Phase2Error::InvalidLength => "Phase 2 Error: The number of elements does not match"@,
            Phase2Error::BrokenInvariant(_) => "Phase 2 Error: A parameter that must not change was changed"@,
            Phase2Error::PairingCheckFailed(check) => check.spec_message(),
            Phase2Error::Io => "Phase 2 Error: The input ended too early"@,
            Phase2Error::Deserialization => "Phase 2 Error: An element could not be decoded"@,
            Phase2Error::SubgroupCheckFailed => "Phase 2 Error: An element is outside the subgroup"@,
            Phase2Error::HashToCurve => "Phase 2 Error: No curve point was found for a transcript"@,
            Phase2Error::ZeroScalar => "Phase 2 Error: The contribution's secret is zero"@,
        }
    }

    /// The text of the error.
    pub fn to_string(&self) -> (text: String)
        ensures
            text@ == self.spec_message(),
    {
        match self {
            Phase2Error::UnconstrainedVariable => {
                "Phase 2 Error: An unconstrained variable was found".to_owned()
            },
            Phase2Error::NoContributions => "Phase 2 Error: There were no contributions found".to_owned(),
            Phase2Error::InvalidLength => "Phase 2 Error: The number of elements does not match".to_owned(),
            Phase2Error::BrokenInvariant(_) => {
                "Phase 2 Error: A parameter that must not change was changed".to_owned()
            },
            Phase2Error::PairingCheckFailed(check) => check.message().to_owned(),
            Phase2Error::Io => "Phase 2 Error: The input ended too early".to_owned(),
            Phase2Error::Deserialization => "Phase 2 Error: An element could not be decoded".to_owned(),
            Phase2Error::SubgroupCheckFailed => {
                "Phase 2 Error: An element is outside the subgroup".to_owned()
            },
            Phase2Error::HashToCurve => "Phase 2 Error: No curve point was found for a transcript".to_owned(),
            Phase2Error::ZeroScalar => "Phase 2 Error: The contribution's secret is zero".to_owned(),
        }
    }
}

} // verus!
