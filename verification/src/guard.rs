//! The access guard: who may change which record.
//!
//! A provider record and its commitments change only at the request of the
//! record's owner; outcomes are recorded only by the designated reporter,
//! who need not be a provider.

use crate::error::AgentAlphaError;
use crate::identity::Pubkey;
use crate::provider::Provider;
use vstd::prelude::*;

verus! {

/// Lets the request pass if `authority` owns `provider`.
pub fn check_owner(provider: &Provider, authority: &Pubkey) -> (pass: Result<(), AgentAlphaError>)
    ensures
        provider@.authority == authority@ ==> pass is Ok,
        provider@.authority != authority@ ==> pass == Err::<(), AgentAlphaError>(
            AgentAlphaError::Unauthorized,
        ),
{
    if provider.authority.same_as(authority) {
        Ok(())
    } else {
        Err(AgentAlphaError::Unauthorized)
    }
}

/// Lets the request pass if `oracle` is the designated `reporter`.
pub fn check_reporter(reporter: &Pubkey, oracle: &Pubkey) -> (pass: Result<(), AgentAlphaError>)
    ensures
        reporter@ == oracle@ ==> pass is Ok,
        reporter@ != oracle@ ==> pass == Err::<(), AgentAlphaError>(AgentAlphaError::Unauthorized),
{
    if reporter.same_as(oracle) {
        Ok(())
    } else {
        Err(AgentAlphaError::Unauthorized)
    }
}

} // verus!
