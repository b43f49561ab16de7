//! Commitment records and the first two steps of their life: commit and
//! reveal.
//!
//! A commitment is born `Committed`, becomes `Revealed` when its owner shows
//! a prediction whose digest is the committed one, and becomes `Resolved`
//! when an outcome is recorded. Each step happens at most once, and a
//! rejected step leaves the record as it was.

use crate::digest::{compute_signal_hash, signal_digest};
use crate::error::AgentAlphaError;
use crate::identity::{bytes32_eq, Pubkey};
use vstd::prelude::*;

verus! {

/// The most characters a token symbol may have.
pub const MAX_TOKEN_LEN: usize = 16;

/// The longest evaluation window, in hours.
pub const MAX_TIMEFRAME_HOURS: u8 = 72;

/// The highest confidence.
pub const MAX_CONFIDENCE: u8 = 100;

/// Which way a prediction points.
#[derive(Clone, Copy, Debug, PartialEq, Eq, Structural)]
pub enum Direction {
    Buy,
    Sell,
}

impl Direction {
    /// The number that stands for this direction in requests and in the
    /// canonical encoding.
    pub open spec fn spec_code(self) -> u8 {
        match self {
            Direction::Buy => 0,
            Direction::Sell => 1,
        }
    }

    /// The direction that `code` stands for, if any.
    pub open spec fn spec_from_code(code: u8) -> Option<Direction> {
        if code == 0 {
            Some(Direction::Buy)
        } else if code == 1 {
            Some(Direction::Sell)
        } else {
            None
        }
    }

    pub fn code(&self) -> (code: u8)
        ensures
            code == self.spec_code(),
    {
        match self {
            Direction::Buy => 0,
            Direction::Sell => 1,
        }
    }

    pub fn from_code(code: u8) -> (direction: Option<Direction>)
        ensures
            direction == Direction::spec_from_code(code),
    {
        if code == 0 {
            Some(Direction::Buy)
        } else if code == 1 {
            Some(Direction::Sell)
        } else {
            None
        }
    }
}

/// How a prediction turned out.
#[derive(Clone, Copy, Debug, PartialEq, Eq, Structural)]
pub enum Outcome {
    /// The take-profit price was reached.
    TargetHit,
    /// The stop-loss price was reached.
    StopHit,
    /// The evaluation window ended with neither price reached.
    Expired,
}

impl Outcome {
    /// The number that stands for this outcome in requests.
    pub open spec fn spec_code(self) -> u8 {
        match self {
            Outcome::TargetHit => 1,
            Outcome::StopHit => 2,
            Outcome::Expired => 3,
        }
    }

    /// The outcome that `code` stands for, if any.
    pub open spec fn spec_from_code(code: u8) -> Option<Outcome> {
        if code == 1 {
            Some(Outcome::TargetHit)
        } else if code == 2 {
            Some(Outcome::StopHit)
        } else if code == 3 {
            Some(Outcome::Expired)
        } else {
            None
        }
    }

    /// Whether a prediction with this outcome and this return counts as
    /// correct: a hit target always does, a hit stop never does, and an
    /// expired one does when it made a profit.
    pub open spec fn spec_is_correct(self, return_bps: i32) -> bool {
        match self {
            Outcome::TargetHit => true,
            Outcome::StopHit => false,
            Outcome::Expired => return_bps > 0,
        }
    }

    pub fn code(&self) -> (code: u8)
        ensures
            code == self.spec_code(),
    {
        match self {
            Outcome::TargetHit => 1,
            Outcome::StopHit => 2,
            Outcome::Expired => 3,
        }
    }

    pub fn from_code(code: u8) -> (outcome: Option<Outcome>)
        ensures
            outcome == Outcome::spec_from_code(code),
    {
        if code == 1 {
            Some(Outcome::TargetHit)
        } else if code == 2 {
            Some(Outcome::StopHit)
        } else if code == 3 {
            Some(Outcome::Expired)
        } else {
            None
        }
    }

    /// Classifies a prediction with this outcome and this return.
    pub fn is_correct(&self, return_bps: i32) -> (correct: bool)
        ensures
            correct == self.spec_is_correct(return_bps),
    {
        match self {
            Outcome::TargetHit => true,
            Outcome::StopHit => false,
            Outcome::Expired => return_bps > 0,
        }
    }
}

/// Where a commitment stands in its life.
#[derive(Clone, Copy, Debug, PartialEq, Eq, Structural)]
pub enum Phase {
    Committed,
    Revealed,
    Resolved,
}

/// A prediction as its provider revealed it.
#[derive(Debug)]
pub struct RevealedSignal {
    pub token: String,
    pub direction: Direction,
    pub entry_cents: u64,
    pub tp_cents: u64,
    pub sl_cents: u64,
    pub timeframe_hours: u8,
    pub confidence: u8,
    pub revealed_at: i64,
}

/// What a revealed prediction holds, as mathematical values.
pub struct RevealedSignalView {
    pub token: Seq<char>,
    pub direction: Direction,
    pub entry_cents: u64,
    pub tp_cents: u64,
    pub sl_cents: u64,
    pub timeframe_hours: u8,
    pub confidence: u8,
    pub revealed_at: i64,
}

impl RevealedSignalView {
    /// The prediction is within the bounds that a reveal enforces.
    pub open spec fn wf(self) -> bool {
        &&& self.token.len() <= MAX_TOKEN_LEN
        &&& 1 <= self.timeframe_hours <= MAX_TIMEFRAME_HOURS
        &&& self.confidence <= MAX_CONFIDENCE
    }

    /// The digest that commits to this prediction.
    pub open spec fn digest(self) -> Seq<u8> {
        signal_digest(
            self.token,
            self.direction.spec_code(),
            self.entry_cents,
            self.tp_cents,
            self.sl_cents,
            self.timeframe_hours,
            self.confidence,
        )
    }
}

impl View for RevealedSignal {
    type V = RevealedSignalView;

    open spec fn view(&self) -> RevealedSignalView {
        RevealedSignalView {
            token: self.token@,
            direction: self.direction,
            entry_cents: self.entry_cents,
            tp_cents: self.tp_cents,
            sl_cents: self.sl_cents,
            timeframe_hours: self.timeframe_hours,
            confidence: self.confidence,
            revealed_at: self.revealed_at,
        }
    }
}

/// The recorded outcome of a prediction.
#[derive(Clone, Copy, Debug, PartialEq, Eq, Structural)]
pub struct Resolution {
    pub outcome: Outcome,
    pub final_price_cents: u64,
    pub was_correct: bool,
    pub return_bps: i32,
    pub evaluated_at: i64,
}

/// The failure, if any, that the bounds of a revealed prediction meet.
pub open spec fn payload_error(
    token: Seq<char>,
    direction: u8,
    timeframe_hours: u8,
    confidence: u8,
) -> Option<AgentAlphaError> {
    if token.len() > MAX_TOKEN_LEN {
        Some(AgentAlphaError::TokenTooLong)
    } else if direction > 1 {
        Some(AgentAlphaError::InvalidDirection)
    } else if !(1 <= timeframe_hours <= MAX_TIMEFRAME_HOURS) {
        Some(AgentAlphaError::InvalidTimeframe)
    } else if confidence > MAX_CONFIDENCE {
        Some(AgentAlphaError::InvalidConfidence)
    } else {
        None
    }
}

/// A provider's commitment to one prediction.
#[derive(Debug)]
pub struct SignalCommit {
    /// The provider that committed.
    pub provider: Pubkey,
    /// The digest committed to.
    pub signal_hash: [u8; 32],
    pub committed_at: i64,
    pub revealed: bool,
    pub outcome_recorded: bool,
    /// The prediction, once revealed.
    pub signal: Option<RevealedSignal>,
    /// The outcome, once recorded.
    pub resolution: Option<Resolution>,
}

/// What a commitment holds, as mathematical values.
pub struct SignalCommitView {
    pub provider: Seq<u8>,
    pub signal_hash: Seq<u8>,
    pub committed_at: i64,
    pub revealed: bool,
    pub outcome_recorded: bool,
    pub signal: Option<RevealedSignalView>,
    pub resolution: Option<Resolution>,
}

/// What an optional revealed prediction holds.
pub open spec fn signal_of(signal: Option<RevealedSignal>) -> Option<RevealedSignalView> {
    match signal {
        Some(s) => Some(s@),
        None => None,
    }
}

impl View for SignalCommit {
    type V = SignalCommitView;

    open spec fn view(&self) -> SignalCommitView {
        SignalCommitView {
            provider: self.provider@,
            signal_hash: self.signal_hash@,
            committed_at: self.committed_at,
            revealed: self.revealed,
            outcome_recorded: self.outcome_recorded,
            signal: signal_of(self.signal),
            resolution: self.resolution,
        }
    }
}

impl SignalCommitView {
    /// The record is consistent: the prediction is present exactly when the
    /// commitment is revealed, within bounds, and its digest is the one
    /// committed to; the outcome is present exactly when recorded, only after
    /// a reveal, and classified by the fixed policy.
    pub open spec fn wf(self) -> bool {
        &&& self.provider.len() == 32
        &&& self.signal_hash.len() == 32
        &&& self.revealed == (self.signal is Some)
        &&& self.outcome_recorded == (self.resolution is Some)
        &&& self.outcome_recorded ==> self.revealed
        &&& self.signal is Some ==> {
            &&& self.signal->Some_0.wf()
            &&& self.signal->Some_0.digest() == self.signal_hash
        }
        &&& self.resolution is Some ==> {
            let r = self.resolution->Some_0;
            r.was_correct == r.outcome.spec_is_correct(r.return_bps)
        }
    }

    /// Where the commitment stands in its life.
    pub open spec fn phase(self) -> Phase {
        if self.outcome_recorded {
            Phase::Resolved
        } else if self.revealed {
            Phase::Revealed
        } else {
            Phase::Committed
        }
    }

    /// Whether this record can be a later state of `earlier`: the same
    /// provider, digest and commit time; a prediction, once revealed, and an
    /// outcome, once recorded, stay as they are.
    pub open spec fn continues(self, earlier: SignalCommitView) -> bool {
        &&& self.provider == earlier.provider
        &&& self.signal_hash == earlier.signal_hash
        &&& self.committed_at == earlier.committed_at
        &&& earlier.revealed ==> self.revealed && self.signal == earlier.signal
        &&& earlier.outcome_recorded ==> self.outcome_recorded && self.resolution
            == earlier.resolution
    }

    /// The record of a commitment just made at time `now`.
    pub open spec fn fresh(provider: Seq<u8>, signal_hash: Seq<u8>, now: i64) -> SignalCommitView {
        SignalCommitView {
            provider,
            signal_hash,
            committed_at: now,
            revealed: false,
            outcome_recorded: false,
            signal: None,
            resolution: None,
        }
    }

    /// The failure, if any, of revealing the given prediction, where
    /// `computed` is the digest of the prediction's canonical encoding.
    pub open spec fn reveal_error(
        self,
        token: Seq<char>,
        direction: u8,
        timeframe_hours: u8,
        confidence: u8,
        computed: Seq<u8>,
    ) -> Option<AgentAlphaError> {
        if self.revealed {
            Some(AgentAlphaError::AlreadyRevealed)
        } else if payload_error(token, direction, timeframe_hours, confidence) is Some {
            payload_error(token, direction, timeframe_hours, confidence)
        } else if computed != self.signal_hash {
            Some(AgentAlphaError::HashMismatch)
        } else {
            None
        }
    }

    /// The record after the given prediction was revealed at time `now`.
    pub open spec fn revealed_with(
        self,
        token: Seq<char>,
        direction: u8,
        entry_cents: u64,
        tp_cents: u64,
        sl_cents: u64,
        timeframe_hours: u8,
        confidence: u8,
        now: i64,
    ) -> SignalCommitView
        recommends
            direction <= 1,
    {
        SignalCommitView {
            revealed: true,
            signal: Some(
                RevealedSignalView {
                    token,
                    direction: Direction::spec_from_code(direction)->Some_0,
                    entry_cents,
                    tp_cents,
                    sl_cents,
                    timeframe_hours,
                    confidence,
                    revealed_at: now,
                },
            ),
            ..self
        }
    }

    /// The failure, if any, of recording an outcome.
    pub open spec fn resolve_error(self, outcome: u8) -> Option<AgentAlphaError> {
        if !self.revealed {
            Some(AgentAlphaError::NotRevealed)
        } else if self.outcome_recorded {
            Some(AgentAlphaError::AlreadyResolved)
        } else if Outcome::spec_from_code(outcome) is None {
            Some(AgentAlphaError::InvalidOutcome)
        } else {
            None
        }
    }

    /// The record after the given outcome was recorded at time `now`.
    pub open spec fn resolved_with(
        self,
        outcome: u8,
        final_price_cents: u64,
        return_bps: i32,
        now: i64,
    ) -> SignalCommitView
        recommends
            1 <= outcome <= 3,
    {
        let outcome = Outcome::spec_from_code(outcome)->Some_0;
        SignalCommitView {
            outcome_recorded: true,
            resolution: Some(
                Resolution {
                    outcome,
                    final_price_cents,
                    was_correct: outcome.spec_is_correct(return_bps),
                    return_bps,
                    evaluated_at: now,
                },
            ),
            ..self
        }
    }
}

impl SignalCommit {
    /// Makes the record of a commitment of `provider` to `signal_hash`.
    pub fn open(provider: Pubkey, signal_hash: [u8; 32], now: i64) -> (commit: SignalCommit)
        ensures
            commit@ == SignalCommitView::fresh(provider@, signal_hash@, now),
            commit@.wf(),
    {
        SignalCommit {
            provider,
            signal_hash,
            committed_at: now,
            revealed: false,
            outcome_recorded: false,
            signal: None,
            resolution: None,
        }
    }

    /// Where the commitment stands in its life.
    pub fn phase(&self) -> (phase: Phase)
        ensures
            phase == self@.phase(),
    {
        if self.outcome_recorded {
            Phase::Resolved
        } else if self.revealed {
            Phase::Revealed
        } else {
            Phase::Committed
        }
    }

    /// Decides whether an outcome with this code can be recorded now, and
    /// which outcome the code stands for.
    pub fn resolvable(&self, outcome: u8) -> (decided: Result<Outcome, AgentAlphaError>)
        ensures
            match self@.resolve_error(outcome) {
                Some(e) => decided == Err::<Outcome, AgentAlphaError>(e),
                None => decided == Ok::<Outcome, AgentAlphaError>(
                    Outcome::spec_from_code(outcome)->Some_0,
                ),
            },
    {
        if !self.revealed {
            return Err(AgentAlphaError::NotRevealed);
        }
        if self.outcome_recorded {
            return Err(AgentAlphaError::AlreadyResolved);
        }
        match Outcome::from_code(outcome) {
            Some(o) => Ok(o),
            None => Err(AgentAlphaError::InvalidOutcome),
        }
    }

    /// Reveals the given prediction, whose digest the caller has computed as
    /// `computed`: checks that the commitment is not revealed yet, that the
    /// prediction is within bounds and that `computed` is the committed
    /// digest, in this order, and then stores the prediction. A failed check
    /// changes nothing.
    pub fn reveal_with_digest(
        &mut self,
        token: String,
        direction: u8,
        entry_cents: u64,
        tp_cents: u64,
        sl_cents: u64,
        timeframe_hours: u8,
        confidence: u8,
        computed: &[u8; 32],
        now: i64,
    ) -> (done: Result<(), AgentAlphaError>)
        ensures
            match old(self)@.reveal_error(
                token@,
                direction,
                timeframe_hours,
                confidence,
                computed@,
            ) {
                Some(e) => done == Err::<(), AgentAlphaError>(e) && *final(self) == *old(self),
                None => done is Ok && final(self)@ == old(self)@.revealed_with(
                    token@,
                    direction,
                    entry_cents,
                    tp_cents,
                    sl_cents,
                    timeframe_hours,
                    confidence,
                    now,
                ),
            },
            old(self)@.wf() && computed@ == signal_digest(
                token@,
                direction,
                entry_cents,
                tp_cents,
                sl_cents,
                timeframe_hours,
                confidence,
            ) ==> final(self)@.wf(),
    {
        if self.revealed {
            return Err(AgentAlphaError::AlreadyRevealed);
        }
        if token.as_str().unicode_len() > MAX_TOKEN_LEN {
            return Err(AgentAlphaError::TokenTooLong);
        }
        let direction = match Direction::from_code(direction) {
            Some(d) => d,
            None => {
                return Err(AgentAlphaError::InvalidDirection);
            },
        };
        if timeframe_hours < 1 || timeframe_hours > MAX_TIMEFRAME_HOURS {
            return Err(AgentAlphaError::InvalidTimeframe);
        }
        if confidence > MAX_CONFIDENCE {
            return Err(AgentAlphaError::InvalidConfidence);
        }
        if !bytes32_eq(computed, &self.signal_hash) {
            return Err(AgentAlphaError::HashMismatch);
        }
        self.revealed = true;
        self.signal = Some(
            RevealedSignal {
                token,
                direction,
                entry_cents,
                tp_cents,
                sl_cents,
                timeframe_hours,
                confidence,
                revealed_at: now,
            },
        );
        Ok(())
    }

    /// Reveals the given prediction: computes the digest of its canonical
    /// encoding and proceeds as [`SignalCommit::reveal_with_digest`] does.
    pub fn reveal_prediction(
        &mut self,
        token: String,
        direction: u8,
        entry_cents: u64,
        tp_cents: u64,
        sl_cents: u64,
        timeframe_hours: u8,
        confidence: u8,
        now: i64,
    ) -> (done: Result<(), AgentAlphaError>)
        ensures
            match old(self)@.reveal_error(
                token@,
                direction,
                timeframe_hours,
                confidence,
                signal_digest(
                    token@,
                    direction,
                    entry_cents,
                    tp_cents,
                    sl_cents,
                    timeframe_hours,
                    confidence,
                ),
            ) {
                Some(e) => done == Err::<(), AgentAlphaError>(e) && *final(self) == *old(self),
                None => done is Ok && final(self)@ == old(self)@.revealed_with(
                    token@,
                    direction,
                    entry_cents,
                    tp_cents,
                    sl_cents,
                    timeframe_hours,
                    confidence,
                    now,
                ),
            },
            old(self)@.wf() ==> final(self)@.wf(),
    {
        let computed = compute_signal_hash(
            token.as_str(),
            direction,
            entry_cents,
            tp_cents,
            sl_cents,
            timeframe_hours,
            confidence,
        );
        self.reveal_with_digest(
            token,
            direction,
            entry_cents,
            tp_cents,
            sl_cents,
            timeframe_hours,
            confidence,
            &computed,
            now,
        )
    }
}

} // verus!
