use agentalpha::encoding::{push_decimal, push_field};
use agentalpha::guard::{check_owner, check_reporter};
use agentalpha::{compute_signal_hash, encode_signal, AgentAlphaError, Provider, Pubkey};
use sha2::{Digest, Sha256};

fn encoding_digits(n: u64) -> Vec<u8> {
    let mut out = Vec::new();
    push_decimal(&mut out, n);
    out
}

#[test]
fn decimal_digits_of_small_and_large_numbers() {
    assert_eq!(encoding_digits(0), b"0".to_vec());
    assert_eq!(encoding_digits(9), b"9".to_vec());
    assert_eq!(encoding_digits(10), b"10".to_vec());
    assert_eq!(encoding_digits(100), b"100".to_vec());
    assert_eq!(encoding_digits(6_500_000), b"6500000".to_vec());
    assert_eq!(encoding_digits(u64::MAX), b"18446744073709551615".to_vec());
}

#[test]
fn decimal_digits_are_appended() {
    let mut out = b"ab".to_vec();
    push_decimal(&mut out, 407);
    assert_eq!(out, b"ab407".to_vec());
    push_field(&mut out, 0);
    assert_eq!(out, b"ab407:0".to_vec());
    push_field(&mut out, 12);
    assert_eq!(out, b"ab407:0:12".to_vec());
}

#[test]
fn encoding_joins_the_fields_with_colons() {
    assert_eq!(
        encode_signal("BTC", 0, 6_500_000, 6_700_000, 6_400_000, 24, 80),
        b"BTC:0:6500000:6700000:6400000:24:80".to_vec()
    );
    assert_eq!(encode_signal("", 0, 0, 0, 0, 0, 0), b":0:0:0:0:0:0".to_vec());
    assert_eq!(
        encode_signal("ETH", 1, u64::MAX, 0, 10, 72, 100),
        b"ETH:1:18446744073709551615:0:10:72:100".to_vec()
    );
    assert_eq!(encode_signal("A:B", 255, 1, 2, 3, 255, 255), b"A:B:255:1:2:3:255:255".to_vec());
}

#[test]
fn encoding_takes_the_token_as_utf8() {
    assert_eq!(
        encode_signal("\u{20ac}", 1, 2, 3, 4, 5, 6),
        vec![0xE2, 0x82, 0xAC, b':', b'1', b':', b'2', b':', b'3', b':', b'4', b':', b'5', b':', b'6']
    );
}

#[test]
fn digest_is_sha256_of_the_encoding() {
    let expected: [u8; 32] = [
        169, 20, 222, 228, 62, 187, 211, 157, 66, 150, 129, 138, 124, 65, 20, 125, 254, 39, 83, 90,
        143, 246, 213, 103, 19, 3, 169, 152, 145, 173, 127, 236,
    ];
    assert_eq!(compute_signal_hash("BTC", 1, 6_500_000, 6_700_000, 6_400_000, 24, 80), expected);
    let expected: [u8; 32] = [
        129, 250, 152, 167, 22, 111, 248, 111, 126, 195, 246, 136, 77, 47, 209, 6, 73, 104, 200,
        163, 239, 166, 30, 153, 105, 53, 241, 148, 154, 117, 25, 22,
    ];
    assert_eq!(compute_signal_hash("ETH", 1, u64::MAX, 0, 10, 72, 100), expected);
}

#[test]
fn digest_agrees_with_the_hasher_used_step_by_step() {
    let mut hasher = Sha256::new();
    hasher.update("DOGE:0:12:15:9:6:33".as_bytes());
    let expected: [u8; 32] = hasher.finalize().into();
    assert_eq!(compute_signal_hash("DOGE", 0, 12, 15, 9, 6, 33), expected);
}

#[test]
fn digest_is_the_same_every_time() {
    let first = compute_signal_hash("BTC", 0, 6_500_000, 6_700_000, 6_400_000, 24, 80);
    let second = compute_signal_hash("BTC", 0, 6_500_000, 6_700_000, 6_400_000, 24, 80);
    assert_eq!(first, second);
    assert_ne!(first, compute_signal_hash("BTC", 0, 6_500_000, 6_700_000, 6_400_000, 24, 81));
}

#[test]
fn guard_lets_only_the_owner_and_the_reporter_pass() {
    let owner = Pubkey::new([1; 32]);
    let other = Pubkey::new([2; 32]);
    let provider =
        Provider::create(owner, String::new(), String::new(), vec![], 0, 0).expect("valid");
    assert_eq!(check_owner(&provider, &owner), Ok(()));
    assert_eq!(check_owner(&provider, &other), Err(AgentAlphaError::Unauthorized));
    assert_eq!(check_reporter(&other, &other), Ok(()));
    assert_eq!(check_reporter(&other, &owner), Err(AgentAlphaError::Unauthorized));
}
