//! A provider-reputation ledger for predictive signals.
//!
//! A provider first publishes the digest of a prediction, later reveals the
//! prediction itself, and a trusted reporter finally records how it turned
//! out. The ledger binds each reveal to its commitment by digest equality,
//! moves every commitment through its phases exactly once, and accumulates
//! per-provider performance counters.
//!
//! The records and their steps stand in [`provider`], [`commitment`] and
//! [`reputation`]; [`ledger`] keeps them in a keyed store with a log and
//! offers the five operations; [`model`] says what each operation makes of
//! the ledger as a mathematical value, and [`laws`] what holds across
//! operations. [`encoding`] and [`digest`] fix the bytes and the digest that
//! a provider commits to; [`guard`] decides who may change what.

pub mod commitment;
pub mod digest;
pub mod encoding;
pub mod error;
pub mod events;
pub mod guard;
pub mod identity;
pub mod laws;
pub mod ledger;
pub mod model;
pub mod provider;
pub mod reputation;

pub use commitment::{Direction, Outcome, Phase, Resolution, RevealedSignal, SignalCommit};
pub use digest::compute_signal_hash;
pub use encoding::encode_signal;
pub use error::AgentAlphaError;
pub use events::{Event, OutcomeRecorded, ProviderRegistered, SignalCommitted, SignalRevealed};
pub use identity::{bytes32_eq, Pubkey};
pub use ledger::{
    commit_signal, record_outcome, register_provider, reveal_signal, update_provider, Ledger,
};
pub use model::{CommitSignal, RecordOutcome, RegisterProvider, RevealSignal, UpdateProvider};
pub use provider::Provider;
pub use reputation::record_resolution;
