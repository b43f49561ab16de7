//! Recording an outcome: the last step of a commitment's life, which also
//! feeds the provider's reputation counters.

use crate::commitment::{Outcome, Resolution, SignalCommit};
use crate::error::AgentAlphaError;
use crate::provider::Provider;
use vstd::prelude::*;

verus! {

/// Records the outcome of a revealed prediction on its commitment and counts
/// it on the provider, as one step: either both records change or neither
/// does. Returns whether the prediction counts as correct.
///
/// The checks come in this order: the commitment must be revealed, must have
/// no outcome yet, and `outcome` must be one of the three defined codes.
pub fn record_resolution(
    commit: &mut SignalCommit,
    provider: &mut Provider,
    outcome: u8,
    final_price_cents: u64,
    return_bps: i32,
    now: i64,
) -> (done: Result<bool, AgentAlphaError>)
    requires
        old(commit)@.resolve_error(outcome) is None ==> old(provider)@.has_room(return_bps),
    ensures
        match old(commit)@.resolve_error(outcome) {
            Some(e) => {
                &&& done == Err::<bool, AgentAlphaError>(e)
                &&& *final(commit) == *old(commit)
                &&& *final(provider) == *old(provider)
            },
            None => {
                &&& done == Ok::<bool, AgentAlphaError>(
                    Outcome::spec_from_code(outcome)->Some_0.spec_is_correct(return_bps),
                )
                &&& final(commit)@ == old(commit)@.resolved_with(
                    outcome,
                    final_price_cents,
                    return_bps,
                    now,
                )
                &&& final(provider)@ == old(provider)@.credited(done->Ok_0, return_bps, now)
            },
        },
        old(commit)@.wf() ==> final(commit)@.wf(),
        old(provider)@.wf() ==> final(provider)@.wf(),
{
    let outcome = match commit.resolvable(outcome) {
        Ok(o) => o,
        Err(e) => {
            return Err(e);
        },
    };
    let was_correct = outcome.is_correct(return_bps);
    commit.outcome_recorded = true;
    commit.resolution = Some(
        Resolution { outcome, final_price_cents, was_correct, return_bps, evaluated_at: now },
    );
    provider.credit(was_correct, return_bps, now);
    Ok(was_correct)
}

} // verus!
