//! The canonical encoding of a prediction: the byte string that a provider
//! hashes before committing and that a reveal is checked against.
//!
//! The encoding is the token's UTF-8 bytes followed by six decimal numbers,
//! each introduced by a colon: direction, entry price, take-profit price,
//! stop-loss price, evaluation window in hours, and confidence.

use vstd::prelude::*;
use vstd::utf8::{decode_utf8, encode_utf8, encode_utf8_decode_utf8};

verus! {

/// The byte that separates the fields of an encoding.
pub const SEPARATOR: u8 = 58;

/// The decimal digits of `n`, most significant first, without leading zeros.
pub open spec fn decimal(n: nat) -> Seq<u8>
    decreases n,
{
    if n < 10 {
        seq![(48 + n) as u8]
    } else {
        decimal(n / 10).push((48 + n % 10) as u8)
    }
}

/// `prefix` followed by a separator and the decimal digits of `n`.
pub open spec fn with_field(prefix: Seq<u8>, n: nat) -> Seq<u8> {
    prefix.push(SEPARATOR) + decimal(n)
}

/// The canonical encoding of a prediction.
pub open spec fn canonical_encoding(
    token: Seq<char>,
    direction: u8,
    entry_cents: u64,
    tp_cents: u64,
    sl_cents: u64,
    timeframe_hours: u8,
    confidence: u8,
) -> Seq<u8> {
    with_field(
        with_field(
            with_field(
                with_field(
                    with_field(
                        with_field(encode_utf8(token), direction as nat),
                        entry_cents as nat,
                    ),
                    tp_cents as nat,
                ),
                sl_cents as nat,
            ),
            timeframe_hours as nat,
        ),
        confidence as nat,
    )
}

/// Appends the decimal digits of `n` to `out`.
pub fn push_decimal(out: &mut Vec<u8>, n: u64)
    ensures
        final(out)@ == old(out)@ + decimal(n as nat),
    decreases n,
{
    if n >= 10 {
        push_decimal(out, n / 10);
    }
    let digit: u8 = 48 + (n % 10) as u8;
    out.push(digit);
    assert(out@ =~= old(out)@ + decimal(n as nat));
}

/// Appends a separator and the decimal digits of `n` to `out`.
pub fn push_field(out: &mut Vec<u8>, n: u64)
    ensures
        final(out)@ == with_field(old(out)@, n as nat),
{
    out.push(SEPARATOR);
    push_decimal(out, n);
}

/// Encodes a prediction canonically.
pub fn encode_signal(
    token: &str,
    direction: u8,
    entry_cents: u64,
    tp_cents: u64,
    sl_cents: u64,
    timeframe_hours: u8,
    confidence: u8,
) -> (bytes: Vec<u8>)
    ensures
        bytes@ == canonical_encoding(
            token@,
            direction,
            entry_cents,
            tp_cents,
            sl_cents,
            timeframe_hours,
            confidence,
        ),
{
    let mut out: Vec<u8> = Vec::new();
    out.extend_from_slice(token.as_bytes());
    assert(out@ =~= encode_utf8(token@));
    push_field(&mut out, direction as u64);
    push_field(&mut out, entry_cents);
    push_field(&mut out, tp_cents);
    push_field(&mut out, sl_cents);
    push_field(&mut out, timeframe_hours as u64);
    push_field(&mut out, confidence as u64);
    out
}

/// The number that a string of decimal digits stands for.
pub open spec fn digits_value(digits: Seq<u8>) -> nat
    decreases digits.len(),
{
    if digits.len() == 0 {
        0
    } else {
        digits_value(digits.drop_last()) * 10 + (digits.last() - 48) as nat
    }
}

/// The decimal digits of a number are at least one, all of them digits, and
/// stand for that number.
pub proof fn lemma_decimal_digits(n: nat)
    ensures
        decimal(n).len() >= 1,
        forall|i: int| 0 <= i < decimal(n).len() ==> 48 <= #[trigger] decimal(n)[i] <= 57,
        digits_value(decimal(n)) == n,
    decreases n,
{
    if n < 10 {
        assert(decimal(n).drop_last() =~= Seq::<u8>::empty());
        assert(digits_value(decimal(n).drop_last()) == 0);
    } else {
        lemma_decimal_digits(n / 10);
        assert(decimal(n).drop_last() =~= decimal(n / 10));
    }
}

/// Two numbers with the same decimal digits are the same number.
pub proof fn lemma_decimal_injective(a: nat, b: nat)
    requires
        decimal(a) == decimal(b),
    ensures
        a == b,
{
    lemma_decimal_digits(a);
    lemma_decimal_digits(b);
}

/// A prefix and a number can be read back from the bytes that
/// [`with_field`] makes of them: the number's digits hold no separator, so
/// the last separator marks where the prefix ends.
pub proof fn lemma_with_field_injective(p: Seq<u8>, a: nat, q: Seq<u8>, b: nat)
    requires
        with_field(p, a) == with_field(q, b),
    ensures
        p == q,
        a == b,
{
    let s = with_field(p, a);
    let t = with_field(q, b);
    let da = decimal(a);
    let db = decimal(b);
    lemma_decimal_digits(a);
    lemma_decimal_digits(b);
    assert(s.len() == p.len() + 1 + da.len());
    assert(t.len() == q.len() + 1 + db.len());
    assert(s[p.len() as int] == SEPARATOR);
    assert(t[q.len() as int] == SEPARATOR);
    // Were one number's digits fewer, the other's separator would stand
    // among them.
    assert(da.len() >= db.len()) by {
        if da.len() < db.len() {
            assert(t[p.len() as int] == db[p.len() - q.len() - 1]);
        }
    }
    assert(db.len() >= da.len()) by {
        if db.len() < da.len() {
            assert(s[q.len() as int] == da[q.len() - p.len() - 1]);
        }
    }
    assert forall|i: int| 0 <= i < p.len() implies p[i] == q[i] by {
        assert(s[i] == p[i]);
        assert(t[i] == q[i]);
    }
    assert(p =~= q);
    assert forall|i: int| 0 <= i < da.len() implies da[i] == db[i] by {
        assert(s[p.len() + 1 + i] == da[i]);
        assert(t[q.len() + 1 + i] == db[i]);
    }
    assert(da =~= db);
    lemma_decimal_injective(a, b);
}

/// The canonical encoding loses nothing: two predictions with the same
/// encoding agree in every field.
pub proof fn lemma_canonical_encoding_injective(
    token1: Seq<char>,
    direction1: u8,
    entry_cents1: u64,
    tp_cents1: u64,
    sl_cents1: u64,
    timeframe_hours1: u8,
    confidence1: u8,
    token2: Seq<char>,
    direction2: u8,
    entry_cents2: u64,
    tp_cents2: u64,
    sl_cents2: u64,
    timeframe_hours2: u8,
    confidence2: u8,
)
    requires
        canonical_encoding(
            token1,
            direction1,
            entry_cents1,
            tp_cents1,
            sl_cents1,
            timeframe_hours1,
            confidence1,
        ) == canonical_encoding(
            token2,
            direction2,
            entry_cents2,
            tp_cents2,
            sl_cents2,
            timeframe_hours2,
            confidence2,
        ),
    ensures
        token1 == token2,
        direction1 == direction2,
        entry_cents1 == entry_cents2,
        tp_cents1 == tp_cents2,
        sl_cents1 == sl_cents2,
        timeframe_hours1 == timeframe_hours2,
        confidence1 == confidence2,
{
    let a0 = encode_utf8(token1);
    let a1 = with_field(a0, direction1 as nat);
    let a2 = with_field(a1, entry_cents1 as nat);
    let a3 = with_field(a2, tp_cents1 as nat);
    let a4 = with_field(a3, sl_cents1 as nat);
    let a5 = with_field(a4, timeframe_hours1 as nat);
    let b0 = encode_utf8(token2);
    let b1 = with_field(b0, direction2 as nat);
    let b2 = with_field(b1, entry_cents2 as nat);
    let b3 = with_field(b2, tp_cents2 as nat);
    let b4 = with_field(b3, sl_cents2 as nat);
    let b5 = with_field(b4, timeframe_hours2 as nat);
    lemma_with_field_injective(a5, confidence1 as nat, b5, confidence2 as nat);
    lemma_with_field_injective(a4, timeframe_hours1 as nat, b4, timeframe_hours2 as nat);
    lemma_with_field_injective(a3, sl_cents1 as nat, b3, sl_cents2 as nat);
    lemma_with_field_injective(a2, tp_cents1 as nat, b2, tp_cents2 as nat);
    lemma_with_field_injective(a1, entry_cents1 as nat, b1, entry_cents2 as nat);
    lemma_with_field_injective(a0, direction1 as nat, b0, direction2 as nat);
    encode_utf8_decode_utf8(token1);
    encode_utf8_decode_utf8(token2);
    assert(decode_utf8(a0) == token1);
    assert(decode_utf8(b0) == token2);
}

} // verus!
