//! What holds of the ledger across operations, stated over the values that
//! the operations' contracts speak of, and proved.

use crate::commitment::{payload_error, Outcome, Phase};
use crate::digest::signal_digest;
use crate::encoding::{canonical_encoding, lemma_canonical_encoding_injective};
use crate::error::AgentAlphaError;
use crate::events::{
    correct_logged, lemma_registrations_after_push, lemma_steps_after_push,
    lemma_tallies_after_push, outcomes_logged, returns_logged, times_committed,
    times_registered, times_resolved, times_revealed, EventView,
};
use crate::model::{
    CommitSignal, LedgerView, RecordOutcome, RegisterProvider, RevealSignal, UpdateProvider,
};
use crate::provider::ProviderView;
use vstd::prelude::*;

verus! {

/// Once an owner has registered, any further registration by the same owner
/// fails with `IdentityAlreadyRegistered`, whatever data it brings.
pub proof fn law_second_registration_fails(
    ledger: LedgerView,
    first: RegisterProvider,
    name: Seq<char>,
    endpoint: Seq<char>,
    categories: Seq<u8>,
    price_lamports: u64,
    second: RegisterProvider,
    name2: Seq<char>,
    endpoint2: Seq<char>,
    categories2: Seq<u8>,
)
    requires
        ledger.register_error(first, name, endpoint, categories) is None,
        second.authority@ == first.authority@,
    ensures
        ledger.after_register(first, name, endpoint, categories, price_lamports).register_error(
            second,
            name2,
            endpoint2,
            categories2,
        ) == Some(AgentAlphaError::IdentityAlreadyRegistered),
{
}

/// A provider that has just registered has all counters at zero, and so a
/// hit rate and a mean return of zero.
pub proof fn law_new_provider_starts_at_zero(
    ledger: LedgerView,
    ctx: RegisterProvider,
    name: Seq<char>,
    endpoint: Seq<char>,
    categories: Seq<u8>,
    price_lamports: u64,
)
    requires
        ledger.register_error(ctx, name, endpoint, categories) is None,
    ensures
        ({
            let after = ledger.after_register(ctx, name, endpoint, categories, price_lamports);
            let provider = after.providers[ctx.authority@];
            &&& after.providers.dom().contains(ctx.authority@)
            &&& provider.total_signals == 0
            &&& provider.correct_signals == 0
            &&& provider.total_return_bps == 0
            &&& provider.hit_rate_bps() == 0
            &&& provider.avg_return_bps() == 0
        }),
{
}

/// The owner of a commitment that is not revealed yet succeeds in revealing
/// a prediction that is within bounds and whose digest is the committed one.
pub proof fn law_matching_reveal_succeeds(
    ledger: LedgerView,
    ctx: RevealSignal,
    token: Seq<char>,
    direction: u8,
    entry_cents: u64,
    tp_cents: u64,
    sl_cents: u64,
    timeframe_hours: u8,
    confidence: u8,
)
    requires
        ledger.owner_authorized(ctx.provider@, ctx.authority@),
        ledger.commits.dom().contains((ctx.provider@, ctx.signal_hash@)),
        ledger.commits[(ctx.provider@, ctx.signal_hash@)].phase() == Phase::Committed,
        payload_error(token, direction, timeframe_hours, confidence) is None,
        signal_digest(
            token,
            direction,
            entry_cents,
            tp_cents,
            sl_cents,
            timeframe_hours,
            confidence,
        ) == ledger.commits[(ctx.provider@, ctx.signal_hash@)].signal_hash,
    ensures
        ledger.reveal_error(
            ctx,
            token,
            direction,
            entry_cents,
            tp_cents,
            sl_cents,
            timeframe_hours,
            confidence,
        ) is None,
        ledger.after_reveal(
            ctx,
            token,
            direction,
            entry_cents,
            tp_cents,
            sl_cents,
            timeframe_hours,
            confidence,
        ).commits[(ctx.provider@, ctx.signal_hash@)].phase() == Phase::Revealed,
{
}

/// A reveal succeeds at most once: after a successful reveal, any further
/// reveal of the same commitment by its owner fails with `AlreadyRevealed`,
/// whatever prediction it brings.
pub proof fn law_reveal_happens_once(
    ledger: LedgerView,
    first: RevealSignal,
    token: Seq<char>,
    direction: u8,
    entry_cents: u64,
    tp_cents: u64,
    sl_cents: u64,
    timeframe_hours: u8,
    confidence: u8,
    second: RevealSignal,
    token2: Seq<char>,
    direction2: u8,
    entry_cents2: u64,
    tp_cents2: u64,
    sl_cents2: u64,
    timeframe_hours2: u8,
    confidence2: u8,
)
    requires
        ledger.reveal_error(
            first,
            token,
            direction,
            entry_cents,
            tp_cents,
            sl_cents,
            timeframe_hours,
            confidence,
        ) is None,
        second.provider@ == first.provider@,
        second.signal_hash@ == first.signal_hash@,
        second.authority@ == first.authority@,
    ensures
        ledger.after_reveal(
            first,
            token,
            direction,
            entry_cents,
            tp_cents,
            sl_cents,
            timeframe_hours,
            confidence,
        ).reveal_error(
            second,
            token2,
            direction2,
            entry_cents2,
            tp_cents2,
            sl_cents2,
            timeframe_hours2,
            confidence2,
        ) == Some(AgentAlphaError::AlreadyRevealed),
{
}

/// Two predictions that differ in any field have different canonical
/// encodings.
pub proof fn law_different_predictions_encode_differently(
    token: Seq<char>,
    direction: u8,
    entry_cents: u64,
    tp_cents: u64,
    sl_cents: u64,
    timeframe_hours: u8,
    confidence: u8,
    token2: Seq<char>,
    direction2: u8,
    entry_cents2: u64,
    tp_cents2: u64,
    sl_cents2: u64,
    timeframe_hours2: u8,
    confidence2: u8,
)
    requires
        token2 != token || direction2 != direction || entry_cents2 != entry_cents || tp_cents2
            != tp_cents || sl_cents2 != sl_cents || timeframe_hours2 != timeframe_hours
            || confidence2 != confidence,
    ensures
        canonical_encoding(
            token2,
            direction2,
            entry_cents2,
            tp_cents2,
            sl_cents2,
            timeframe_hours2,
            confidence2,
        ) != canonical_encoding(
            token,
            direction,
            entry_cents,
            tp_cents,
            sl_cents,
            timeframe_hours,
            confidence,
        ),
{
    if canonical_encoding(
        token2,
        direction2,
        entry_cents2,
        tp_cents2,
        sl_cents2,
        timeframe_hours2,
        confidence2,
    ) == canonical_encoding(
        token,
        direction,
        entry_cents,
        tp_cents,
        sl_cents,
        timeframe_hours,
        confidence,
    ) {
        lemma_canonical_encoding_injective(
            token2,
            direction2,
            entry_cents2,
            tp_cents2,
            sl_cents2,
            timeframe_hours2,
            confidence2,
            token,
            direction,
            entry_cents,
            tp_cents,
            sl_cents,
            timeframe_hours,
            confidence,
        );
    }
}

/// Against a commitment that is not revealed yet, its owner's reveal of a
/// prediction that is within bounds but whose digest is not the committed
/// one fails with `HashMismatch`.
pub proof fn law_other_digest_is_a_mismatch(
    ledger: LedgerView,
    ctx: RevealSignal,
    token: Seq<char>,
    direction: u8,
    entry_cents: u64,
    tp_cents: u64,
    sl_cents: u64,
    timeframe_hours: u8,
    confidence: u8,
)
    requires
        ledger.owner_authorized(ctx.provider@, ctx.authority@),
        ledger.commits.dom().contains((ctx.provider@, ctx.signal_hash@)),
        ledger.commits[(ctx.provider@, ctx.signal_hash@)].phase() == Phase::Committed,
        payload_error(token, direction, timeframe_hours, confidence) is None,
        signal_digest(
            token,
            direction,
            entry_cents,
            tp_cents,
            sl_cents,
            timeframe_hours,
            confidence,
        ) != ledger.commits[(ctx.provider@, ctx.signal_hash@)].signal_hash,
    ensures
        ledger.reveal_error(
            ctx,
            token,
            direction,
            entry_cents,
            tp_cents,
            sl_cents,
            timeframe_hours,
            confidence,
        ) == Some(AgentAlphaError::HashMismatch),
{
}

/// Against a commitment to the digest of one prediction, its owner's reveal
/// of a prediction that differs from it in any field, and is within bounds,
/// fails with `HashMismatch`, unless the digest is the same for the two
/// different encodings.
pub proof fn law_changed_prediction_is_a_mismatch(
    ledger: LedgerView,
    ctx: RevealSignal,
    token: Seq<char>,
    direction: u8,
    entry_cents: u64,
    tp_cents: u64,
    sl_cents: u64,
    timeframe_hours: u8,
    confidence: u8,
    token2: Seq<char>,
    direction2: u8,
    entry_cents2: u64,
    tp_cents2: u64,
    sl_cents2: u64,
    timeframe_hours2: u8,
    confidence2: u8,
)
    requires
        ledger.owner_authorized(ctx.provider@, ctx.authority@),
        ledger.commits.dom().contains((ctx.provider@, ctx.signal_hash@)),
        ledger.commits[(ctx.provider@, ctx.signal_hash@)].phase() == Phase::Committed,
        ledger.commits[(ctx.provider@, ctx.signal_hash@)].signal_hash == signal_digest(
            token,
            direction,
            entry_cents,
            tp_cents,
            sl_cents,
            timeframe_hours,
            confidence,
        ),
        token2 != token || direction2 != direction || entry_cents2 != entry_cents || tp_cents2
            != tp_cents || sl_cents2 != sl_cents || timeframe_hours2 != timeframe_hours
            || confidence2 != confidence,
        payload_error(token2, direction2, timeframe_hours2, confidence2) is None,
        signal_digest(
            token2,
            direction2,
            entry_cents2,
            tp_cents2,
            sl_cents2,
            timeframe_hours2,
            confidence2,
        ) == signal_digest(
            token,
            direction,
            entry_cents,
            tp_cents,
            sl_cents,
            timeframe_hours,
            confidence,
        ) ==> canonical_encoding(
            token2,
            direction2,
            entry_cents2,
            tp_cents2,
            sl_cents2,
            timeframe_hours2,
            confidence2,
        ) == canonical_encoding(
            token,
            direction,
            entry_cents,
            tp_cents,
            sl_cents,
            timeframe_hours,
            confidence,
        ),
    ensures
        ledger.reveal_error(
            ctx,
            token2,
            direction2,
            entry_cents2,
            tp_cents2,
            sl_cents2,
            timeframe_hours2,
            confidence2,
        ) == Some(AgentAlphaError::HashMismatch),
{
    law_different_predictions_encode_differently(
        token,
        direction,
        entry_cents,
        tp_cents,
        sl_cents,
        timeframe_hours,
        confidence,
        token2,
        direction2,
        entry_cents2,
        tp_cents2,
        sl_cents2,
        timeframe_hours2,
        confidence2,
    );
}

/// A reveal of a commitment that is already revealed fails with
/// `AlreadyRevealed`, whether or not the prediction it brings is within
/// bounds or matches the committed digest.
pub proof fn law_revealed_stays_revealed(
    ledger: LedgerView,
    ctx: RevealSignal,
    token: Seq<char>,
    direction: u8,
    entry_cents: u64,
    tp_cents: u64,
    sl_cents: u64,
    timeframe_hours: u8,
    confidence: u8,
)
    requires
        ledger.owner_authorized(ctx.provider@, ctx.authority@),
        ledger.commits.dom().contains((ctx.provider@, ctx.signal_hash@)),
        ledger.commits[(ctx.provider@, ctx.signal_hash@)].revealed,
    ensures
        ledger.reveal_error(
            ctx,
            token,
            direction,
            entry_cents,
            tp_cents,
            sl_cents,
            timeframe_hours,
            confidence,
        ) == Some(AgentAlphaError::AlreadyRevealed),
{
}

/// The reporter cannot record an outcome for a commitment that is not
/// revealed yet: the request fails with `NotRevealed`, whatever outcome it
/// brings.
pub proof fn law_outcome_needs_reveal(ledger: LedgerView, ctx: RecordOutcome, outcome: u8)
    requires
        ledger.reporter_authorized(ctx.oracle@),
        ledger.commits.dom().contains((ctx.provider@, ctx.signal_hash@)),
        !ledger.commits[(ctx.provider@, ctx.signal_hash@)].revealed,
    ensures
        ledger.record_outcome_error(ctx, outcome) == Some(AgentAlphaError::NotRevealed),
{
}

/// An outcome is recorded at most once: after a successful recording, any
/// further one for the same commitment fails with `AlreadyResolved`,
/// whatever outcome it brings.
pub proof fn law_outcome_recorded_once(
    ledger: LedgerView,
    first: RecordOutcome,
    outcome: u8,
    final_price_cents: u64,
    return_bps: i32,
    second: RecordOutcome,
    outcome2: u8,
)
    requires
        ledger.record_outcome_error(first, outcome) is None,
        second.provider@ == first.provider@,
        second.signal_hash@ == first.signal_hash@,
        second.oracle@ == first.oracle@,
    ensures
        ledger.after_record_outcome(
            first,
            outcome,
            final_price_cents,
            return_bps,
        ).record_outcome_error(second, outcome2) == Some(AgentAlphaError::AlreadyResolved),
{
}

/// The classification of outcomes is fixed: a hit target is always correct,
/// a hit stop never, and an expired prediction exactly when its return is
/// above zero, so not at a return of zero.
pub proof fn law_classification_is_fixed(return_bps: i32)
    ensures
        Outcome::TargetHit.spec_is_correct(return_bps),
        !Outcome::StopHit.spec_is_correct(return_bps),
        Outcome::Expired.spec_is_correct(return_bps) == (return_bps > 0),
        !Outcome::Expired.spec_is_correct(0),
{
}

/// After an outcome was counted on a consistent provider record with room
/// for it, the record is consistent again: no more signals are correct than
/// were counted, the hit rate is the share of correct signals in basis
/// points rounded down, and the mean return is the total return divided by
/// the number of signals, rounded toward zero.
pub proof fn law_aggregates_after_outcome(
    provider: ProviderView,
    was_correct: bool,
    return_bps: i32,
    now: i64,
)
    requires
        provider.wf(),
        provider.has_room(return_bps),
    ensures
        ({
            let after = provider.credited(was_correct, return_bps, now);
            let total = after.total_signals as int;
            let correct = after.correct_signals as int;
            let sum = after.total_return_bps as int;
            let rate = after.hit_rate_bps() as int;
            let mean = after.avg_return_bps();
            &&& after.wf()
            &&& total == provider.total_signals + 1
            &&& correct == provider.correct_signals + if was_correct { 1int } else { 0int }
            &&& sum == provider.total_return_bps + return_bps
            &&& correct <= total
            &&& rate * total <= correct * 10000 < (rate + 1) * total
            &&& rate <= 10000
            &&& sum >= 0 ==> mean * total <= sum < (mean + 1) * total
            &&& sum < 0 ==> (mean - 1) * total < sum <= mean * total
        }),
{
    let after = provider.credited(was_correct, return_bps, now);
    let total = after.total_signals as int;
    let correct = after.correct_signals as int;
    let sum = after.total_return_bps as int;
    assert(total > 0);
    lemma_floor_division(correct * 10000, total);
    assert((correct * 10000) / total <= 10000) by (nonlinear_arith)
        requires
            0 <= correct <= total,
            total > 0,
    ;
    if sum >= 0 {
        lemma_floor_division(sum, total);
    } else {
        lemma_floor_division(-sum, total);
        let m = (-sum) / total;
        assert((-m - 1) * total == -((m + 1) * total)) by (nonlinear_arith);
        assert((-m) * total == -(m * total)) by (nonlinear_arith);
    }
}

/// Every ledger is a later state of itself.
pub proof fn law_extends_is_reflexive(ledger: LedgerView)
    ensures
        ledger.extends(ledger),
{
}

/// A later state of a later state is a later state.
pub proof fn law_extends_is_transitive(first: LedgerView, second: LedgerView, third: LedgerView)
    requires
        second.extends(first),
        third.extends(second),
    ensures
        third.extends(first),
{
    assert forall|k: Seq<u8>| #[trigger] first.providers.dom().contains(k) implies third.providers.dom().contains(
        k,
    ) && third.providers[k].continues(first.providers[k]) by {
        assert(second.providers.dom().contains(k));
    }
    assert forall|k: (Seq<u8>, Seq<u8>)| #[trigger]
        first.commits.dom().contains(k) implies third.commits.dom().contains(k)
        && third.commits[k].continues(first.commits[k]) by {
        assert(second.commits.dom().contains(k));
    }
}

/// Registering keeps every record and continues the log.
pub proof fn law_register_extends(
    ledger: LedgerView,
    ctx: RegisterProvider,
    name: Seq<char>,
    endpoint: Seq<char>,
    categories: Seq<u8>,
    price_lamports: u64,
)
    requires
        ledger.register_error(ctx, name, endpoint, categories) is None,
    ensures
        ledger.after_register(ctx, name, endpoint, categories, price_lamports).extends(ledger),
{
}

/// Updating a provider keeps every record, the provider's owner and
/// counters among them, and leaves the log as it is.
pub proof fn law_update_extends(
    ledger: LedgerView,
    ctx: UpdateProvider,
    name: Option<Seq<char>>,
    endpoint: Option<Seq<char>>,
    price_lamports: Option<u64>,
)
    requires
        ledger.update_provider_error(ctx, name, endpoint) is None,
    ensures
        ledger.after_update(ctx, name, endpoint, price_lamports).extends(ledger),
        ledger.after_update(ctx, name, endpoint, price_lamports).events == ledger.events,
{
}

/// Committing keeps every record and continues the log.
pub proof fn law_commit_extends(ledger: LedgerView, ctx: CommitSignal, signal_hash: Seq<u8>)
    requires
        ledger.commit_error(ctx, signal_hash) is None,
    ensures
        ledger.after_commit(ctx, signal_hash).extends(ledger),
{
}

/// Revealing keeps every record and continues the log.
pub proof fn law_reveal_extends(
    ledger: LedgerView,
    ctx: RevealSignal,
    token: Seq<char>,
    direction: u8,
    entry_cents: u64,
    tp_cents: u64,
    sl_cents: u64,
    timeframe_hours: u8,
    confidence: u8,
)
    requires
        ledger.reveal_error(
            ctx,
            token,
            direction,
            entry_cents,
            tp_cents,
            sl_cents,
            timeframe_hours,
            confidence,
        ) is None,
    ensures
        ledger.after_reveal(
            ctx,
            token,
            direction,
            entry_cents,
            tp_cents,
            sl_cents,
            timeframe_hours,
            confidence,
        ).extends(ledger),
{
}

/// Recording an outcome keeps every record and continues the log.
pub proof fn law_record_outcome_extends(
    ledger: LedgerView,
    ctx: RecordOutcome,
    outcome: u8,
    final_price_cents: u64,
    return_bps: i32,
)
    requires
        ledger.wf(),
        ledger.record_outcome_error(ctx, outcome) is None,
        ledger.providers[ctx.provider@].has_room(return_bps),
    ensures
        ledger.after_record_outcome(ctx, outcome, final_price_cents, return_bps).extends(ledger),
{
}

/// Registering leaves a consistent ledger consistent.
pub proof fn law_register_keeps_consistency(
    ledger: LedgerView,
    ctx: RegisterProvider,
    name: Seq<char>,
    endpoint: Seq<char>,
    categories: Seq<u8>,
    price_lamports: u64,
)
    requires
        ledger.wf(),
        ledger.register_error(ctx, name, endpoint, categories) is None,
    ensures
        ledger.after_register(ctx, name, endpoint, categories, price_lamports).wf(),
{
    let after = ledger.after_register(ctx, name, endpoint, categories, price_lamports);
    assert forall|k: Seq<u8>| #[trigger] after.providers.dom().contains(k) implies after.providers[k].wf()
        && after.providers[k].authority == k by {
        if k != ctx.authority@ {
            assert(ledger.providers.dom().contains(k));
        }
    }
    assert forall|k: (Seq<u8>, Seq<u8>)| #[trigger] after.commits.dom().contains(k) implies {
        &&& after.commits[k].wf()
        &&& after.commits[k].provider == k.0
        &&& after.commits[k].signal_hash == k.1
        &&& after.providers.dom().contains(k.0)
    } by {
        assert(ledger.commits.dom().contains(k));
    }
    let entry = after.events.last();
    lemma_log_agrees_after_entry(ledger, after, entry);
    lemma_steps_after_entry(ledger.events, after.events.last());
}

/// Updating a provider leaves a consistent ledger consistent.
pub proof fn law_update_keeps_consistency(
    ledger: LedgerView,
    ctx: UpdateProvider,
    name: Option<Seq<char>>,
    endpoint: Option<Seq<char>>,
    price_lamports: Option<u64>,
)
    requires
        ledger.wf(),
        ledger.update_provider_error(ctx, name, endpoint) is None,
    ensures
        ledger.after_update(ctx, name, endpoint, price_lamports).wf(),
{
}

/// Committing leaves a consistent ledger consistent.
pub proof fn law_commit_keeps_consistency(
    ledger: LedgerView,
    ctx: CommitSignal,
    signal_hash: Seq<u8>,
)
    requires
        ledger.wf(),
        signal_hash.len() == 32,
        ledger.commit_error(ctx, signal_hash) is None,
    ensures
        ledger.after_commit(ctx, signal_hash).wf(),
{
    let after = ledger.after_commit(ctx, signal_hash);
    assert forall|k: (Seq<u8>, Seq<u8>)| #[trigger] after.commits.dom().contains(k) implies {
        &&& after.commits[k].wf()
        &&& after.commits[k].provider == k.0
        &&& after.commits[k].signal_hash == k.1
        &&& after.providers.dom().contains(k.0)
    } by {
        if k != (ctx.provider@, signal_hash) {
            assert(ledger.commits.dom().contains(k));
        }
    }
    lemma_log_agrees_after_entry(ledger, after, after.events.last());
    lemma_steps_after_entry(ledger.events, after.events.last());
}

/// Revealing leaves a consistent ledger consistent: in particular, the
/// prediction that a revealed commitment holds has the committed digest.
pub proof fn law_reveal_keeps_consistency(
    ledger: LedgerView,
    ctx: RevealSignal,
    token: Seq<char>,
    direction: u8,
    entry_cents: u64,
    tp_cents: u64,
    sl_cents: u64,
    timeframe_hours: u8,
    confidence: u8,
)
    requires
        ledger.wf(),
        ledger.reveal_error(
            ctx,
            token,
            direction,
            entry_cents,
            tp_cents,
            sl_cents,
            timeframe_hours,
            confidence,
        ) is None,
    ensures
        ledger.after_reveal(
            ctx,
            token,
            direction,
            entry_cents,
            tp_cents,
            sl_cents,
            timeframe_hours,
            confidence,
        ).wf(),
{
    let after = ledger.after_reveal(
        ctx,
        token,
        direction,
        entry_cents,
        tp_cents,
        sl_cents,
        timeframe_hours,
        confidence,
    );
    assert forall|k: (Seq<u8>, Seq<u8>)| #[trigger] after.commits.dom().contains(k) implies {
        &&& after.commits[k].wf()
        &&& after.commits[k].provider == k.0
        &&& after.commits[k].signal_hash == k.1
        &&& after.providers.dom().contains(k.0)
    } by {
        assert(ledger.commits.dom().contains(k));
    }
    lemma_log_agrees_after_entry(ledger, after, after.events.last());
    lemma_steps_after_entry(ledger.events, after.events.last());
}

/// Recording an outcome leaves a consistent ledger consistent.
pub proof fn law_record_outcome_keeps_consistency(
    ledger: LedgerView,
    ctx: RecordOutcome,
    outcome: u8,
    final_price_cents: u64,
    return_bps: i32,
)
    requires
        ledger.wf(),
        ledger.record_outcome_error(ctx, outcome) is None,
        ledger.providers[ctx.provider@].has_room(return_bps),
    ensures
        ledger.after_record_outcome(ctx, outcome, final_price_cents, return_bps).wf(),
{
    let after = ledger.after_record_outcome(ctx, outcome, final_price_cents, return_bps);
    let entry = after.events.last();
    assert(ledger.providers.dom().contains(ctx.provider@));
    assert forall|k: Seq<u8>| #[trigger] after.providers.dom().contains(k) implies after.providers[k].wf()
        && after.providers[k].authority == k by {
        assert(ledger.providers.dom().contains(k));
    }
    assert forall|k: (Seq<u8>, Seq<u8>)| #[trigger] after.commits.dom().contains(k) implies {
        &&& after.commits[k].wf()
        &&& after.commits[k].provider == k.0
        &&& after.commits[k].signal_hash == k.1
        &&& after.providers.dom().contains(k.0)
    } by {
        assert(ledger.commits.dom().contains(k));
    }
    assert forall|k: Seq<u8>|
        #![trigger after.providers.dom().contains(k)]
        #![trigger outcomes_logged(after.events, k)]
        if after.providers.dom().contains(k) {
            &&& after.providers[k].total_signals == outcomes_logged(after.events, k)
            &&& after.providers[k].correct_signals == correct_logged(after.events, k)
            &&& after.providers[k].total_return_bps == returns_logged(after.events, k)
            &&& outcomes_logged(after.events, k) < after.events.len()
        } else {
            &&& outcomes_logged(after.events, k) == 0
            &&& correct_logged(after.events, k) == 0
            &&& returns_logged(after.events, k) == 0
        } by {
        lemma_tallies_after_push(ledger.events, entry, k);
        assert(ledger.providers.dom().contains(k) == after.providers.dom().contains(k));
    }
    lemma_steps_after_entry(ledger.events, after.events.last());
}

/// What one more entry adds to the count of each step of each record.
proof fn lemma_steps_after_entry(log: Seq<EventView>, entry: EventView)
    ensures
        forall|k: Seq<u8>| #[trigger]
            times_registered(log.push(entry), k) == times_registered(log, k) + if entry.registers(
                k,
            ) {
                1nat
            } else {
                0nat
            },
        forall|p: Seq<u8>, h: Seq<u8>| #[trigger]
            times_committed(log.push(entry), p, h) == times_committed(log, p, h)
                + if entry.commits(p, h) {
                1nat
            } else {
                0nat
            },
        forall|p: Seq<u8>, h: Seq<u8>| #[trigger]
            times_revealed(log.push(entry), p, h) == times_revealed(log, p, h)
                + if entry.reveals(p, h) {
                1nat
            } else {
                0nat
            },
        forall|p: Seq<u8>, h: Seq<u8>| #[trigger]
            times_resolved(log.push(entry), p, h) == times_resolved(log, p, h)
                + if entry.resolves(p, h) {
                1nat
            } else {
                0nat
            },
{
    assert forall|k: Seq<u8>| #[trigger]
        times_registered(log.push(entry), k) == times_registered(log, k) + if entry.registers(k) {
            1nat
        } else {
            0nat
        } by {
        lemma_registrations_after_push(log, entry, k);
    }
    assert forall|p: Seq<u8>, h: Seq<u8>| #[trigger]
        times_committed(log.push(entry), p, h) == times_committed(log, p, h) + if entry.commits(p, h) {
            1nat
        } else {
            0nat
        } by {
        lemma_steps_after_push(log, entry, p, h);
    }
    assert forall|p: Seq<u8>, h: Seq<u8>| #[trigger]
        times_revealed(log.push(entry), p, h) == times_revealed(log, p, h) + if entry.reveals(p, h) {
            1nat
        } else {
            0nat
        } by {
        lemma_steps_after_push(log, entry, p, h);
    }
    assert forall|p: Seq<u8>, h: Seq<u8>| #[trigger]
        times_resolved(log.push(entry), p, h) == times_resolved(log, p, h) + if entry.resolves(p, h) {
            1nat
        } else {
            0nat
        } by {
        lemma_steps_after_push(log, entry, p, h);
    }
}

/// The log still agrees with the counters after one more entry that tells
/// of no outcome, whatever records were added, as long as no counter
/// changed and every new provider starts at zero.
proof fn lemma_log_agrees_after_entry(before: LedgerView, after: LedgerView, entry: EventView)
    requires
        before.log_agrees(),
        after.events == before.events.push(entry),
        !(entry is OutcomeRecorded),
        forall|k: Seq<u8>| #[trigger]
            before.providers.dom().contains(k) ==> after.providers.dom().contains(k) && {
                &&& after.providers[k].total_signals == before.providers[k].total_signals
                &&& after.providers[k].correct_signals == before.providers[k].correct_signals
                &&& after.providers[k].total_return_bps == before.providers[k].total_return_bps
            },
        forall|k: Seq<u8>| #[trigger]
            after.providers.dom().contains(k) && !before.providers.dom().contains(k) ==> {
                &&& after.providers[k].total_signals == 0
                &&& after.providers[k].correct_signals == 0
                &&& after.providers[k].total_return_bps == 0
            },
    ensures
        after.log_agrees(),
{
    assert forall|k: Seq<u8>|
        #![trigger after.providers.dom().contains(k)]
        #![trigger outcomes_logged(after.events, k)]
        if after.providers.dom().contains(k) {
            &&& after.providers[k].total_signals == outcomes_logged(after.events, k)
            &&& after.providers[k].correct_signals == correct_logged(after.events, k)
            &&& after.providers[k].total_return_bps == returns_logged(after.events, k)
            &&& outcomes_logged(after.events, k) < after.events.len()
        } else {
            &&& outcomes_logged(after.events, k) == 0
            &&& correct_logged(after.events, k) == 0
            &&& returns_logged(after.events, k) == 0
        } by {
        lemma_tallies_after_push(before.events, entry, k);
        if before.providers.dom().contains(k) {
            assert(after.providers.dom().contains(k));
        }
    }
}

/// Division of a number that is not negative by a positive one rounds down.
pub proof fn lemma_floor_division(a: int, b: int)
    requires
        0 <= a,
        0 < b,
    ensures
        0 <= a / b,
        (a / b) * b <= a < (a / b + 1) * b,
{
    vstd::arithmetic::div_mod::lemma_fundamental_div_mod(a, b);
    vstd::arithmetic::div_mod::lemma_mod_bound(a, b);
    vstd::arithmetic::div_mod::lemma_div_pos_is_pos(a, b);
    assert((a / b) * b == b * (a / b)) by (nonlinear_arith);
    assert((a / b + 1) * b == b * (a / b) + b) by (nonlinear_arith);
}

} // verus!
