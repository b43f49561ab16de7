//! The one-way digest that binds a commitment to its later reveal.

use crate::encoding::{canonical_encoding, encode_signal};
use sha2::{Digest, Sha256};
use vstd::prelude::*;

verus! {

/// The SHA-256 digest of `message`, as the `sha2` crate computes it.
pub uninterp spec fn sha256(message: Seq<u8>) -> Seq<u8>;

/// Calls `sha2::Sha256::digest`, the one-shot form of the hasher.
///
/// Trusted: the 32 bytes returned are taken to be the SHA-256 digest of
/// `message`, a function of the message's bytes alone.
#[verifier::external_body]
fn sha256_bytes(message: &[u8]) -> (digest: [u8; 32])
    ensures
        digest@ == sha256(message@),
{
    Sha256::digest(message).into()
}

/// The digest that commits to a prediction: SHA-256 of its canonical encoding.
pub open spec fn signal_digest(
    token: Seq<char>,
    direction: u8,
    entry_cents: u64,
    tp_cents: u64,
    sl_cents: u64,
    timeframe_hours: u8,
    confidence: u8,
) -> Seq<u8> {
    sha256(
        canonical_encoding(
            token,
            direction,
            entry_cents,
            tp_cents,
            sl_cents,
            timeframe_hours,
            confidence,
        ),
    )
}

/// Computes the digest that commits to a prediction, so that a provider can
/// prepare a commitment before revealing anything.
pub fn compute_signal_hash(
    token: &str,
    direction: u8,
    entry_cents: u64,
    tp_cents: u64,
    sl_cents: u64,
    timeframe_hours: u8,
    confidence: u8,
) -> (hash: [u8; 32])
    ensures
        hash@ == signal_digest(
            token@,
            direction,
            entry_cents,
            tp_cents,
            sl_cents,
            timeframe_hours,
            confidence,
        ),
{
    let bytes = encode_signal(
        token,
        direction,
        entry_cents,
        tp_cents,
        sl_cents,
        timeframe_hours,
        confidence,
    );
    sha256_bytes(bytes.as_slice())
}

} // verus!
