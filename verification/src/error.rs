//! The failures that an operation on the ledger can report.

use vstd::prelude::*;

verus! {

/// Why an operation was rejected. A rejected operation changes nothing.
#[derive(Clone, Copy, Debug, PartialEq, Eq, Structural)]
pub enum AgentAlphaError {
    /// The provider's name has more than 64 characters.
    NameTooLong,
    /// The provider's endpoint has more than 256 characters.
    EndpointTooLong,
    /// More than 8 categories were given.
    TooManyCategories,
    /// The token symbol has more than 16 characters.
    TokenTooLong,
    /// The direction is neither 0 (buy) nor 1 (sell).
    InvalidDirection,
    /// The evaluation window is not within 1 to 72 hours.
    InvalidTimeframe,
    /// The confidence is above 100.
    InvalidConfidence,
    /// The outcome is none of 1 (target hit), 2 (stop hit), 3 (expired).
    InvalidOutcome,
    /// The commitment was revealed before.
    AlreadyRevealed,
    /// The commitment has not been revealed yet.
    NotRevealed,
    /// The revealed prediction's digest differs from the committed one.
    HashMismatch,
    /// An outcome was recorded for the commitment before.
    AlreadyResolved,
    /// The owner already has a provider record.
    IdentityAlreadyRegistered,
    /// The provider committed to the same digest before.
    DuplicateCommitment,
    /// The caller is not the record's owner, or not the designated reporter.
    Unauthorized,
    /// The provider has no commitment to the digest.
    UnknownCommitment,
}

impl AgentAlphaError {
    /// The numeric code that stands for this failure.
    pub open spec fn spec_code(self) -> u32 {
        match self {
            AgentAlphaError::NameTooLong => 6000,
            AgentAlphaError::EndpointTooLong => 6001,
            AgentAlphaError::TooManyCategories => 6002,
            AgentAlphaError::TokenTooLong => 6003,
            AgentAlphaError::InvalidDirection => 6004,
            AgentAlphaError::InvalidTimeframe => 6005,
            AgentAlphaError::InvalidConfidence => 6006,
            AgentAlphaError::InvalidOutcome => 6007,
            AgentAlphaError::AlreadyRevealed => 6008,
            AgentAlphaError::NotRevealed => 6009,
            AgentAlphaError::HashMismatch => 6010,
            AgentAlphaError::AlreadyResolved => 6011,
            AgentAlphaError::IdentityAlreadyRegistered => 6012,
            AgentAlphaError::DuplicateCommitment => 6013,
            AgentAlphaError::Unauthorized => 6014,
            AgentAlphaError::UnknownCommitment => 6015,
        }
    }

    /// The stable numeric code of this failure, for clients that branch on
    /// the cause.
    pub fn code(&self) -> (code: u32)
        ensures
            code == self.spec_code(),
    {
        match self {
            AgentAlphaError::NameTooLong => 6000,
            AgentAlphaError::EndpointTooLong => 6001,
            AgentAlphaError::TooManyCategories => 6002,
            AgentAlphaError::TokenTooLong => 6003,
            AgentAlphaError::InvalidDirection => 6004,
            AgentAlphaError::InvalidTimeframe => 6005,
            AgentAlphaError::InvalidConfidence => 6006,
            AgentAlphaError::InvalidOutcome => 6007,
            AgentAlphaError::AlreadyRevealed => 6008,
            AgentAlphaError::NotRevealed => 6009,
            AgentAlphaError::HashMismatch => 6010,
            AgentAlphaError::AlreadyResolved => 6011,
            AgentAlphaError::IdentityAlreadyRegistered => 6012,
            AgentAlphaError::DuplicateCommitment => 6013,
            AgentAlphaError::Unauthorized => 6014,
            AgentAlphaError::UnknownCommitment => 6015,
        }
    }

    /// Distinct failures have distinct codes.
    pub proof fn codes_are_distinct(a: AgentAlphaError, b: AgentAlphaError)
        requires
            a != b,
        ensures
            a.spec_code() != b.spec_code(),
    {
    }
}

} // verus!
