//! The verification-code state machine: attempts, expiry and escalation.

use sign_in_with_email::api::Delegation;
use sign_in_with_email::verification_codes::{
    CheckVerificationCodeError, VerificationCodes,
};

const MINUTE: u64 = 60_000;

fn delegation() -> Delegation {
    Delegation {
        pubkey: vec![1, 2, 3],
        expiration: 1_000_000,
    }
}

fn wrong(
    store: &mut VerificationCodes,
    seed: [u8; 32],
    now: u64,
) -> sign_in_with_email::api::IncorrectCode {
    match store.check(seed, "000000", now) {
        Err(CheckVerificationCodeError::Incorrect(ic)) => ic,
        _ => panic!("expected an incorrect-code outcome"),
    }
}

#[test]
fn three_wrong_guesses_block() {
    let mut store = VerificationCodes::new();
    let seed = [7; 32];
    assert!(store.push(seed, "123456".to_string(), delegation(), 100).is_ok());

    let first = wrong(&mut store, seed, 100);
    assert_eq!(first.attempts_remaining, 2);
    assert!(first.blocked_duration.is_none());

    let second = wrong(&mut store, seed, 101);
    assert_eq!(second.attempts_remaining, 1);
    assert!(second.blocked_duration.is_none());

    let third = wrong(&mut store, seed, 102);
    assert_eq!(third.attempts_remaining, 0);
    assert_eq!(third.blocked_duration, Some(MINUTE));

    // The challenge is destroyed: a fourth guess finds nothing.
    assert!(matches!(
        store.check(seed, "123456", 103),
        Err(CheckVerificationCodeError::NotFound)
    ));

    // Re-requesting immediately is blocked for exactly the reported window.
    assert_eq!(
        store.push(seed, "654321".to_string(), delegation(), 102),
        Err(MINUTE)
    );
}

#[test]
fn correct_code_consumes_and_clears() {
    let mut store = VerificationCodes::new();
    let seed = [9; 32];
    assert!(store.push(seed, "424242".to_string(), delegation(), 0).is_ok());
    let _ = wrong(&mut store, seed, 1);
    let got = store.check(seed, "424242", 2).unwrap();
    assert_eq!(got.pubkey, vec![1, 2, 3]);
    assert_eq!(got.expiration, 1_000_000);
    // Consumed: it cannot be redeemed twice.
    assert!(matches!(
        store.check(seed, "424242", 3),
        Err(CheckVerificationCodeError::NotFound)
    ));
    // The penalty was cleared: a new challenge is issued at once.
    assert!(store.push(seed, "111111".to_string(), delegation(), 4).is_ok());
}

#[test]
fn escalation_is_monotonic() {
    let mut store = VerificationCodes::new();
    let seed = [3; 32];
    let mut now: u64 = 0;
    let mut durations: Vec<u64> = Vec::new();
    for _cycle in 0..4 {
        assert!(store.push(seed, "123456".to_string(), delegation(), now).is_ok());
        let mut last = None;
        for _guess in 0..3 {
            last = wrong(&mut store, seed, now).blocked_duration;
        }
        let blocked = last.unwrap();
        durations.push(blocked);
        // Wait out the full window before the next cycle.
        now += blocked + 1;
    }
    assert_eq!(durations, vec![MINUTE, 2 * MINUTE, 5 * MINUTE, 15 * MINUTE]);
    for pair in durations.windows(2) {
        assert!(pair[0] <= pair[1]);
    }
}

#[test]
fn expiry_boundaries() {
    let ttl = 5 * MINUTE;

    let mut store = VerificationCodes::new();
    let seed = [4; 32];
    assert!(store.push(seed, "222222".to_string(), delegation(), 1_000).is_ok());
    // One instant before the deadline the correct code still works.
    assert!(store.check(seed, "222222", 1_000 + ttl - 1).is_ok());

    let mut store = VerificationCodes::new();
    assert!(store.push(seed, "222222".to_string(), delegation(), 1_000).is_ok());
    // One instant past the deadline the challenge is gone.
    assert!(matches!(
        store.check(seed, "222222", 1_000 + ttl + 1),
        Err(CheckVerificationCodeError::NotFound)
    ));
}

#[test]
fn overwriting_after_a_wrong_guess_escalates() {
    let mut store = VerificationCodes::new();
    let seed = [5; 32];
    assert!(store.push(seed, "333333".to_string(), delegation(), 0).is_ok());
    let _ = wrong(&mut store, seed, 1);
    // Re-requesting drops the guessed challenge and counts the abandonment:
    // the key is immediately blocked for the first ladder step.
    assert_eq!(
        store.push(seed, "444444".to_string(), delegation(), 2),
        Err(MINUTE)
    );
}

#[test]
fn abandoned_challenge_escalates_at_expiry() {
    let ttl = 5 * MINUTE;
    let mut store = VerificationCodes::new();
    let seed = [6; 32];
    assert!(store.push(seed, "555555".to_string(), delegation(), 0).is_ok());
    let _ = wrong(&mut store, seed, 1);
    // The challenge expires at ttl; pruning escalates at that moment, so at
    // ttl + 10_000 the key is still blocked for the remaining 50 seconds.
    assert_eq!(
        store.push(seed, "666666".to_string(), delegation(), ttl + 10_000),
        Err(MINUTE - 10_000)
    );
    // Once the window has passed, issuing works again.
    let mut store = VerificationCodes::new();
    assert!(store.push(seed, "555555".to_string(), delegation(), 0).is_ok());
    let _ = wrong(&mut store, seed, 1);
    assert!(store.push(seed, "666666".to_string(), delegation(), ttl + MINUTE + 1).is_ok());
}

#[test]
fn codes_match_by_exact_bytes() {
    let mut store = VerificationCodes::new();
    let seed = [8; 32];
    assert!(store.push(seed, "AbCdEf".to_string(), delegation(), 0).is_ok());
    let ic = match store.check(seed, "abcdef", 1) {
        Err(CheckVerificationCodeError::Incorrect(ic)) => ic,
        _ => panic!("case-insensitive match must not be accepted"),
    };
    assert_eq!(ic.attempts_remaining, 2);
    assert!(store.check(seed, "AbCdEf", 2).is_ok());
}

#[test]
fn distinct_keys_do_not_interfere() {
    let mut store = VerificationCodes::new();
    let a = [1; 32];
    let b = [2; 32];
    assert!(store.push(a, "111111".to_string(), delegation(), 0).is_ok());
    assert!(store.push(b, "222222".to_string(), delegation(), 0).is_ok());
    for _ in 0..3 {
        let _ = wrong(&mut store, a, 1);
    }
    // Key `a` is blocked; key `b` is untouched.
    assert!(store.push(a, "333333".to_string(), delegation(), 2).is_err());
    assert!(store.check(b, "222222", 2).is_ok());
}
