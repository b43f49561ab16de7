//! The ledger as a mathematical value, and what each operation makes of it.
//!
//! An operation is described by two functions of the ledger before it and
//! the request: the failure that the request meets, if any, and the ledger
//! after the request succeeded. A request names the records it touches and
//! the principal that signs it, and carries the time at which it is made.

use crate::commitment::{Outcome, SignalCommitView};
use crate::digest::signal_digest;
use crate::error::AgentAlphaError;
use crate::events::{
    correct_logged, outcomes_logged, returns_logged, times_committed, times_registered,
    times_resolved, times_revealed, EventView,
};
use crate::identity::Pubkey;
use crate::provider::{listing_error, update_error, ProviderView};
use vstd::prelude::*;

verus! {

/// The key of a commitment: its provider and the digest committed to.
pub type CommitKey = (Seq<u8>, Seq<u8>);

/// Who asks to register a provider, and when.
#[derive(Clone, Copy, Debug)]
pub struct RegisterProvider {
    /// The principal that signs the request and will own the record.
    pub authority: Pubkey,
    /// The time of the request.
    pub now: i64,
}

/// Who asks to update which provider record, and when.
#[derive(Clone, Copy, Debug)]
pub struct UpdateProvider {
    /// The key of the record to update.
    pub provider: Pubkey,
    /// The principal that signs the request.
    pub authority: Pubkey,
    /// The time of the request.
    pub now: i64,
}

/// Who asks to commit for which provider, and when.
#[derive(Clone, Copy, Debug)]
pub struct CommitSignal {
    /// The key of the provider record that commits.
    pub provider: Pubkey,
    /// The principal that signs the request.
    pub authority: Pubkey,
    /// The time of the request.
    pub now: i64,
}

/// Who asks to reveal which commitment, and when.
#[derive(Clone, Copy, Debug)]
pub struct RevealSignal {
    /// The key of the provider record that committed.
    pub provider: Pubkey,
    /// The digest committed to.
    pub signal_hash: [u8; 32],
    /// The principal that signs the request.
    pub authority: Pubkey,
    /// The time of the request.
    pub now: i64,
}

/// Who asks to record the outcome of which commitment, and when.
#[derive(Clone, Copy, Debug)]
pub struct RecordOutcome {
    /// The key of the provider record that committed.
    pub provider: Pubkey,
    /// The digest committed to.
    pub signal_hash: [u8; 32],
    /// The principal that signs the request.
    pub oracle: Pubkey,
    /// The time of the request.
    pub now: i64,
}

/// What a ledger holds, as mathematical values.
pub struct LedgerView {
    /// The one identity that may record outcomes.
    pub reporter: Seq<u8>,
    /// The provider records, each under its owner's identity.
    pub providers: Map<Seq<u8>, ProviderView>,
    /// The commitment records, each under its provider and digest.
    pub commits: Map<CommitKey, SignalCommitView>,
    /// The log, oldest entry first.
    pub events: Seq<EventView>,
}

impl LedgerView {
    /// Every record is consistent and is kept under its own key, every
    /// commitment belongs to a registered provider, and the log agrees with
    /// the records.
    pub open spec fn wf(self) -> bool {
        &&& self.reporter.len() == 32
        &&& forall|k: Seq<u8>| #[trigger]
            self.providers.dom().contains(k) ==> self.providers[k].wf()
                && self.providers[k].authority == k
        &&& forall|k: CommitKey| #[trigger]
            self.commits.dom().contains(k) ==> {
                &&& self.commits[k].wf()
                &&& self.commits[k].provider == k.0
                &&& self.commits[k].signal_hash == k.1
                &&& self.providers.dom().contains(k.0)
            }
        &&& self.log_agrees()
        &&& self.log_mirrors_records()
    }

    /// The log tells of every step of every record exactly once: of a
    /// registration for each provider record, of a commit for each
    /// commitment, of a reveal for each revealed one and of an outcome for
    /// each resolved one; and of no step that the records do not show.
    pub open spec fn log_mirrors_records(self) -> bool {
        &&& forall|k: Seq<u8>|
            #![trigger self.providers.dom().contains(k)]
            #![trigger times_registered(self.events, k)]
            times_registered(self.events, k) == if self.providers.dom().contains(k) {
                1nat
            } else {
                0nat
            }
        &&& forall|p: Seq<u8>, h: Seq<u8>|
            #![trigger self.commits.dom().contains((p, h))]
            #![trigger times_committed(self.events, p, h)]
            #![trigger times_revealed(self.events, p, h)]
            #![trigger times_resolved(self.events, p, h)]
            {
                let there = self.commits.dom().contains((p, h));
                &&& times_committed(self.events, p, h) == if there {
                    1nat
                } else {
                    0nat
                }
                &&& times_revealed(self.events, p, h) == if there && self.commits[(p, h)].revealed {
                    1nat
                } else {
                    0nat
                }
                &&& times_resolved(self.events, p, h) == if there && self.commits[(
                    p,
                    h,
                )].outcome_recorded {
                    1nat
                } else {
                    0nat
                }
            }
    }

    /// The counters of every provider are the tallies of the log: as many
    /// signals as outcomes were logged for it, as many correct ones as were
    /// logged correct, and the sum of the logged returns. For an identity
    /// without a record the log tells of no outcome.
    pub open spec fn log_agrees(self) -> bool {
        forall|k: Seq<u8>|
            #![trigger self.providers.dom().contains(k)]
            #![trigger outcomes_logged(self.events, k)]
            if self.providers.dom().contains(k) {
                &&& self.providers[k].total_signals == outcomes_logged(self.events, k)
                &&& self.providers[k].correct_signals == correct_logged(self.events, k)
                &&& self.providers[k].total_return_bps == returns_logged(self.events, k)
                &&& outcomes_logged(self.events, k) < self.events.len()
            } else {
                &&& outcomes_logged(self.events, k) == 0
                &&& correct_logged(self.events, k) == 0
                &&& returns_logged(self.events, k) == 0
            }
    }

    /// Whether this ledger can be a later state of `earlier`: the same
    /// reporter; every record of `earlier` still there, under the same key,
    /// as a later state of itself; and the log of `earlier` continued.
    pub open spec fn extends(self, earlier: LedgerView) -> bool {
        &&& self.reporter == earlier.reporter
        &&& forall|k: Seq<u8>| #[trigger]
            earlier.providers.dom().contains(k) ==> self.providers.dom().contains(k)
                && self.providers[k].continues(earlier.providers[k])
        &&& forall|k: CommitKey| #[trigger]
            earlier.commits.dom().contains(k) ==> self.commits.dom().contains(k)
                && self.commits[k].continues(earlier.commits[k])
        &&& earlier.events.is_prefix_of(self.events)
    }

    /// Whether `authority` owns the provider record kept under `provider`.
    pub open spec fn owner_authorized(self, provider: Seq<u8>, authority: Seq<u8>) -> bool {
        self.providers.dom().contains(provider) && self.providers[provider].authority == authority
    }

    /// The failure, if any, of registering a provider.
    pub open spec fn register_error(
        self,
        ctx: RegisterProvider,
        name: Seq<char>,
        endpoint: Seq<char>,
        categories: Seq<u8>,
    ) -> Option<AgentAlphaError> {
        if self.providers.dom().contains(ctx.authority@) {
            Some(AgentAlphaError::IdentityAlreadyRegistered)
        } else {
            listing_error(name, endpoint, categories)
        }
    }

    /// The ledger after a provider registered.
    pub open spec fn after_register(
        self,
        ctx: RegisterProvider,
        name: Seq<char>,
        endpoint: Seq<char>,
        categories: Seq<u8>,
        price_lamports: u64,
    ) -> LedgerView {
        LedgerView {
            providers: self.providers.insert(
                ctx.authority@,
                ProviderView::fresh(
                    ctx.authority@,
                    name,
                    endpoint,
                    categories,
                    price_lamports,
                    ctx.now,
                ),
            ),
            events: self.events.push(
                EventView::ProviderRegistered {
                    provider: ctx.authority@,
                    authority: ctx.authority@,
                    name,
                    endpoint,
                },
            ),
            ..self
        }
    }

    /// The failure, if any, of updating a provider record.
    pub open spec fn update_provider_error(
        self,
        ctx: UpdateProvider,
        name: Option<Seq<char>>,
        endpoint: Option<Seq<char>>,
    ) -> Option<AgentAlphaError> {
        if !self.owner_authorized(ctx.provider@, ctx.authority@) {
            Some(AgentAlphaError::Unauthorized)
        } else {
            update_error(name, endpoint)
        }
    }

    /// The ledger after a provider record was updated.
    pub open spec fn after_update(
        self,
        ctx: UpdateProvider,
        name: Option<Seq<char>>,
        endpoint: Option<Seq<char>>,
        price_lamports: Option<u64>,
    ) -> LedgerView {
        LedgerView {
            providers: self.providers.insert(
                ctx.provider@,
                self.providers[ctx.provider@].updated(name, endpoint, price_lamports, ctx.now),
            ),
            ..self
        }
    }

    /// The failure, if any, of committing to a digest.
    pub open spec fn commit_error(self, ctx: CommitSignal, signal_hash: Seq<u8>) -> Option<
        AgentAlphaError,
    > {
        if !self.owner_authorized(ctx.provider@, ctx.authority@) {
            Some(AgentAlphaError::Unauthorized)
        } else if self.commits.dom().contains((ctx.provider@, signal_hash)) {
            Some(AgentAlphaError::DuplicateCommitment)
        } else {
            None
        }
    }

    /// The ledger after a provider committed to a digest.
    pub open spec fn after_commit(self, ctx: CommitSignal, signal_hash: Seq<u8>) -> LedgerView {
        LedgerView {
            commits: self.commits.insert(
                (ctx.provider@, signal_hash),
                SignalCommitView::fresh(ctx.provider@, signal_hash, ctx.now),
            ),
            events: self.events.push(
                EventView::SignalCommitted {
                    provider: ctx.provider@,
                    signal_hash,
                    committed_at: ctx.now,
                },
            ),
            ..self
        }
    }

    /// The failure, if any, of revealing a prediction.
    pub open spec fn reveal_error(
        self,
        ctx: RevealSignal,
        token: Seq<char>,
        direction: u8,
        entry_cents: u64,
        tp_cents: u64,
        sl_cents: u64,
        timeframe_hours: u8,
        confidence: u8,
    ) -> Option<AgentAlphaError> {
        if !self.owner_authorized(ctx.provider@, ctx.authority@) {
            Some(AgentAlphaError::Unauthorized)
        } else if !self.commits.dom().contains((ctx.provider@, ctx.signal_hash@)) {
            Some(AgentAlphaError::UnknownCommitment)
        } else {
            self.commits[(ctx.provider@, ctx.signal_hash@)].reveal_error(
                token,
                direction,
                timeframe_hours,
                confidence,
                signal_digest(
                    token,
                    direction,
                    entry_cents,
                    tp_cents,
                    sl_cents,
                    timeframe_hours,
                    confidence,
                ),
            )
        }
    }

    /// The ledger after a prediction was revealed.
    pub open spec fn after_reveal(
        self,
        ctx: RevealSignal,
        token: Seq<char>,
        direction: u8,
        entry_cents: u64,
        tp_cents: u64,
        sl_cents: u64,
        timeframe_hours: u8,
        confidence: u8,
    ) -> LedgerView {
        let key = (ctx.provider@, ctx.signal_hash@);
        LedgerView {
            commits: self.commits.insert(
                key,
                self.commits[key].revealed_with(
                    token,
                    direction,
                    entry_cents,
                    tp_cents,
                    sl_cents,
                    timeframe_hours,
                    confidence,
                    ctx.now,
                ),
            ),
            events: self.events.push(
                EventView::SignalRevealed {
                    provider: ctx.provider@,
                    signal_hash: ctx.signal_hash@,
                    token,
                    direction,
                    entry_cents,
                    tp_cents,
                    sl_cents,
                    timeframe_hours,
                    confidence,
                },
            ),
            ..self
        }
    }

    /// The failure, if any, of recording an outcome.
    pub open spec fn record_outcome_error(self, ctx: RecordOutcome, outcome: u8) -> Option<
        AgentAlphaError,
    > {
        if !self.reporter_authorized(ctx.oracle@) {
            Some(AgentAlphaError::Unauthorized)
        } else if !self.commits.dom().contains((ctx.provider@, ctx.signal_hash@)) {
            Some(AgentAlphaError::UnknownCommitment)
        } else {
            self.commits[(ctx.provider@, ctx.signal_hash@)].resolve_error(outcome)
        }
    }

    /// The ledger after an outcome was recorded: the commitment holds it, the
    /// provider's counters include it, and the log tells of both.
    pub open spec fn after_record_outcome(
        self,
        ctx: RecordOutcome,
        outcome: u8,
        final_price_cents: u64,
        return_bps: i32,
    ) -> LedgerView {
        let key = (ctx.provider@, ctx.signal_hash@);
        let was_correct = Outcome::spec_from_code(outcome)->Some_0.spec_is_correct(return_bps);
        let provider = self.providers[ctx.provider@].credited(was_correct, return_bps, ctx.now);
        LedgerView {
            commits: self.commits.insert(
                key,
                self.commits[key].resolved_with(outcome, final_price_cents, return_bps, ctx.now),
            ),
            providers: self.providers.insert(ctx.provider@, provider),
            events: self.events.push(
                EventView::OutcomeRecorded {
                    provider: ctx.provider@,
                    signal_hash: ctx.signal_hash@,
                    outcome,
                    was_correct,
                    return_bps,
                    total_signals: provider.total_signals,
                    correct_signals: provider.correct_signals,
                },
            ),
            ..self
        }
    }

    /// Whether `oracle` is the designated reporter.
    pub open spec fn reporter_authorized(self, oracle: Seq<u8>) -> bool {
        oracle == self.reporter
    }
}

} // verus!
