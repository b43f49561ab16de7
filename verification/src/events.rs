//! The notifications that successful operations leave in the ledger's log,
//! each with enough data for an outside observer to follow the ledger's
//! state without reading it.

use crate::identity::Pubkey;
use vstd::prelude::*;

verus! {

/// A provider registered.
#[derive(Debug)]
pub struct ProviderRegistered {
    pub provider: Pubkey,
    pub authority: Pubkey,
    pub name: String,
    pub endpoint: String,
}

/// A provider committed to a digest.
#[derive(Clone, Copy, Debug)]
pub struct SignalCommitted {
    pub provider: Pubkey,
    pub signal_hash: [u8; 32],
    pub committed_at: i64,
}

/// A provider revealed the prediction behind a commitment.
#[derive(Debug)]
pub struct SignalRevealed {
    pub provider: Pubkey,
    pub signal_hash: [u8; 32],
    pub token: String,
    /// 0 for buy, 1 for sell.
    pub direction: u8,
    pub entry_cents: u64,
    pub tp_cents: u64,
    pub sl_cents: u64,
    pub timeframe_hours: u8,
    pub confidence: u8,
}

/// The reporter recorded the outcome of a prediction. The two counters are
/// the provider's after the outcome was counted.
#[derive(Clone, Copy, Debug)]
pub struct OutcomeRecorded {
    pub provider: Pubkey,
    pub signal_hash: [u8; 32],
    /// 1 for target hit, 2 for stop hit, 3 for expired.
    pub outcome: u8,
    pub was_correct: bool,
    pub return_bps: i32,
    pub total_signals: u64,
    pub correct_signals: u64,
}

/// One entry of the ledger's log.
#[derive(Debug)]
pub enum Event {
    ProviderRegistered(ProviderRegistered),
    SignalCommitted(SignalCommitted),
    SignalRevealed(SignalRevealed),
    OutcomeRecorded(OutcomeRecorded),
}

/// What a log entry holds, as mathematical values.
pub enum EventView {
    ProviderRegistered { provider: Seq<u8>, authority: Seq<u8>, name: Seq<char>, endpoint: Seq<char> },
    SignalCommitted { provider: Seq<u8>, signal_hash: Seq<u8>, committed_at: i64 },
    SignalRevealed {
        provider: Seq<u8>,
        signal_hash: Seq<u8>,
        token: Seq<char>,
        direction: u8,
        entry_cents: u64,
        tp_cents: u64,
        sl_cents: u64,
        timeframe_hours: u8,
        confidence: u8,
    },
    OutcomeRecorded {
        provider: Seq<u8>,
        signal_hash: Seq<u8>,
        outcome: u8,
        was_correct: bool,
        return_bps: i32,
        total_signals: u64,
        correct_signals: u64,
    },
}

impl View for Event {
    type V = EventView;

    open spec fn view(&self) -> EventView {
        match *self {
            Event::ProviderRegistered(e) => EventView::ProviderRegistered {
                provider: e.provider@,
                authority: e.authority@,
                name: e.name@,
                endpoint: e.endpoint@,
            },
            Event::SignalCommitted(e) => EventView::SignalCommitted {
                provider: e.provider@,
                signal_hash: e.signal_hash@,
                committed_at: e.committed_at,
            },
            Event::SignalRevealed(e) => EventView::SignalRevealed {
                provider: e.provider@,
                signal_hash: e.signal_hash@,
                token: e.token@,
                direction: e.direction,
                entry_cents: e.entry_cents,
                tp_cents: e.tp_cents,
                sl_cents: e.sl_cents,
                timeframe_hours: e.timeframe_hours,
                confidence: e.confidence,
            },
            Event::OutcomeRecorded(e) => EventView::OutcomeRecorded {
                provider: e.provider@,
                signal_hash: e.signal_hash@,
                outcome: e.outcome,
                was_correct: e.was_correct,
                return_bps: e.return_bps,
                total_signals: e.total_signals,
                correct_signals: e.correct_signals,
            },
        }
    }
}

/// What a log holds, entry by entry.
pub open spec fn log_view(log: Seq<Event>) -> Seq<EventView> {
    Seq::new(log.len(), |i: int| log[i]@)
}

impl EventView {
    /// Whether this entry tells of an outcome recorded for `provider`.
    pub open spec fn is_outcome_of(self, provider: Seq<u8>) -> bool {
        self is OutcomeRecorded && self->OutcomeRecorded_provider == provider
    }

    /// Whether this entry tells that `owner` registered.
    pub open spec fn registers(self, owner: Seq<u8>) -> bool {
        self is ProviderRegistered && self->ProviderRegistered_authority == owner
    }

    /// Whether this entry tells that `provider` committed to `signal_hash`.
    pub open spec fn commits(self, provider: Seq<u8>, signal_hash: Seq<u8>) -> bool {
        &&& self is SignalCommitted
        &&& self->SignalCommitted_provider == provider
        &&& self->SignalCommitted_signal_hash == signal_hash
    }

    /// Whether this entry tells that the commitment of `provider` to
    /// `signal_hash` was revealed.
    pub open spec fn reveals(self, provider: Seq<u8>, signal_hash: Seq<u8>) -> bool {
        &&& self is SignalRevealed
        &&& self->SignalRevealed_provider == provider
        &&& self->SignalRevealed_signal_hash == signal_hash
    }

    /// Whether this entry tells that an outcome was recorded for the
    /// commitment of `provider` to `signal_hash`.
    pub open spec fn resolves(self, provider: Seq<u8>, signal_hash: Seq<u8>) -> bool {
        &&& self is OutcomeRecorded
        &&& self->OutcomeRecorded_provider == provider
        &&& self->OutcomeRecorded_signal_hash == signal_hash
    }
}

/// How often the log tells that `owner` registered.
pub open spec fn times_registered(log: Seq<EventView>, owner: Seq<u8>) -> nat
    decreases log.len(),
{
    if log.len() == 0 {
        0
    } else {
        times_registered(log.drop_last(), owner) + if log.last().registers(owner) {
            1nat
        } else {
            0nat
        }
    }
}

/// How often the log tells that `provider` committed to `signal_hash`.
pub open spec fn times_committed(
    log: Seq<EventView>,
    provider: Seq<u8>,
    signal_hash: Seq<u8>,
) -> nat
    decreases log.len(),
{
    if log.len() == 0 {
        0
    } else {
        times_committed(log.drop_last(), provider, signal_hash) + if log.last().commits(
            provider,
            signal_hash,
        ) {
            1nat
        } else {
            0nat
        }
    }
}

/// How often the log tells that the commitment of `provider` to
/// `signal_hash` was revealed.
pub open spec fn times_revealed(
    log: Seq<EventView>,
    provider: Seq<u8>,
    signal_hash: Seq<u8>,
) -> nat
    decreases log.len(),
{
    if log.len() == 0 {
        0
    } else {
        times_revealed(log.drop_last(), provider, signal_hash) + if log.last().reveals(
            provider,
            signal_hash,
        ) {
            1nat
        } else {
            0nat
        }
    }
}

/// How often the log tells that an outcome was recorded for the commitment
/// of `provider` to `signal_hash`.
pub open spec fn times_resolved(
    log: Seq<EventView>,
    provider: Seq<u8>,
    signal_hash: Seq<u8>,
) -> nat
    decreases log.len(),
{
    if log.len() == 0 {
        0
    } else {
        times_resolved(log.drop_last(), provider, signal_hash) + if log.last().resolves(
            provider,
            signal_hash,
        ) {
            1nat
        } else {
            0nat
        }
    }
}

/// What one more entry adds to the count of an owner's registrations.
pub proof fn lemma_registrations_after_push(log: Seq<EventView>, entry: EventView, owner: Seq<u8>)
    ensures
        times_registered(log.push(entry), owner) == times_registered(log, owner)
            + if entry.registers(owner) {
            1nat
        } else {
            0nat
        },
{
    assert(log.push(entry).drop_last() =~= log);
}

/// What one more entry adds to the counts of the three steps of a
/// commitment.
pub proof fn lemma_steps_after_push(
    log: Seq<EventView>,
    entry: EventView,
    provider: Seq<u8>,
    signal_hash: Seq<u8>,
)
    ensures
        times_committed(log.push(entry), provider, signal_hash) == times_committed(
            log,
            provider,
            signal_hash,
        ) + if entry.commits(provider, signal_hash) {
            1nat
        } else {
            0nat
        },
        times_revealed(log.push(entry), provider, signal_hash) == times_revealed(
            log,
            provider,
            signal_hash,
        ) + if entry.reveals(provider, signal_hash) {
            1nat
        } else {
            0nat
        },
        times_resolved(log.push(entry), provider, signal_hash) == times_resolved(
            log,
            provider,
            signal_hash,
        ) + if entry.resolves(provider, signal_hash) {
            1nat
        } else {
            0nat
        },
{
    assert(log.push(entry).drop_last() =~= log);
}

/// How many outcomes the log tells of for `provider`.
pub open spec fn outcomes_logged(log: Seq<EventView>, provider: Seq<u8>) -> nat
    decreases log.len(),
{
    if log.len() == 0 {
        0
    } else {
        outcomes_logged(log.drop_last(), provider) + if log.last().is_outcome_of(provider) {
            1nat
        } else {
            0nat
        }
    }
}

/// How many of the outcomes that the log tells of for `provider` were
/// correct.
pub open spec fn correct_logged(log: Seq<EventView>, provider: Seq<u8>) -> nat
    decreases log.len(),
{
    if log.len() == 0 {
        0
    } else {
        correct_logged(log.drop_last(), provider) + if log.last().is_outcome_of(provider)
            && log.last()->OutcomeRecorded_was_correct {
            1nat
        } else {
            0nat
        }
    }
}

/// The sum of the returns of the outcomes that the log tells of for
/// `provider`.
pub open spec fn returns_logged(log: Seq<EventView>, provider: Seq<u8>) -> int
    decreases log.len(),
{
    if log.len() == 0 {
        0
    } else {
        returns_logged(log.drop_last(), provider) + if log.last().is_outcome_of(provider) {
            log.last()->OutcomeRecorded_return_bps as int
        } else {
            0int
        }
    }
}

/// What one more entry adds to the three tallies of a provider.
pub proof fn lemma_tallies_after_push(log: Seq<EventView>, entry: EventView, provider: Seq<u8>)
    ensures
        outcomes_logged(log.push(entry), provider) == outcomes_logged(log, provider) + if entry.is_outcome_of(
            provider,
        ) {
            1nat
        } else {
            0nat
        },
        correct_logged(log.push(entry), provider) == correct_logged(log, provider) + if entry.is_outcome_of(
            provider,
        ) && entry->OutcomeRecorded_was_correct {
            1nat
        } else {
            0nat
        },
        returns_logged(log.push(entry), provider) == returns_logged(log, provider) + if entry.is_outcome_of(
            provider,
        ) {
            entry->OutcomeRecorded_return_bps as int
        } else {
            0int
        },
{
    assert(log.push(entry).drop_last() =~= log);
}

} // verus!
