//! Email validation, seed derivation and the delegation message hash.

use sha2::Digest;

use sign_in_with_email::api::Delegation;
use sign_in_with_email::email::ValidatedEmail;
use sign_in_with_email::hashing::{calculate_seed, delegation_signature_msg_hash};
use sign_in_with_email::hexfmt::{hex_decode, hex_encode};
use sign_in_with_email::rng::{generate_verification_code, rng_from_seed, seed_with_entropy};

#[test]
fn parse_normalizes_and_is_idempotent() {
    let parsed = ValidatedEmail::try_parse("  User@Example.COM ").unwrap();
    assert_eq!(parsed.as_str(), "user@example.com");

    let reparsed = ValidatedEmail::try_parse(&parsed.to_string()).unwrap();
    assert_eq!(reparsed.as_str(), parsed.as_str());
}

#[test]
fn parse_rejects_bad_syntax() {
    assert!(ValidatedEmail::try_parse("not-an-email").is_err());
    assert!(ValidatedEmail::try_parse("").is_err());
    assert!(ValidatedEmail::try_parse("a@").is_err());
    let long_local = format!("{}@example.com", "a".repeat(250));
    assert!(ValidatedEmail::try_parse(&long_local).is_err());
}

#[test]
fn seed_is_deterministic_and_email_sensitive() {
    let salt = [1u8; 32];
    let alice = ValidatedEmail::try_parse("alice@example.com").unwrap();
    let bob = ValidatedEmail::try_parse("bob@example.com").unwrap();
    assert_eq!(calculate_seed(salt, &alice), calculate_seed(salt, &alice));
    assert_ne!(calculate_seed(salt, &alice), calculate_seed(salt, &bob));
    assert_ne!(calculate_seed([2u8; 32], &alice), calculate_seed(salt, &alice));
}

#[test]
fn seed_matches_the_length_prefixed_digest() {
    let salt = [7u8; 32];
    let email = ValidatedEmail::try_parse("user@example.com").unwrap();
    let mut preimage: Vec<u8> = Vec::new();
    preimage.push(32);
    preimage.extend_from_slice(&salt);
    preimage.push(email.as_str().len() as u8);
    preimage.extend_from_slice(email.as_str().as_bytes());
    let expected: [u8; 32] = sha2::Sha256::digest(&preimage).into();
    assert_eq!(calculate_seed(salt, &email), expected);
}

#[test]
fn delegation_msg_hash_matches_the_reference_encoding() {
    let delegation = Delegation {
        pubkey: vec![1, 2, 3, 4, 5],
        expiration: 123_456_789_000,
    };
    let ours = delegation_signature_msg_hash(&delegation);
    let msg = ic_canister_sig_creation::delegation_signature_msg(
        &delegation.pubkey,
        delegation.expiration,
        None,
    );
    let expected = ic_canister_sig_creation::hash_with_domain(
        ic_canister_sig_creation::DELEGATION_SIG_DOMAIN,
        &msg,
    );
    assert_eq!(ours, expected);
}

#[test]
fn hex_round_trips_and_rejects_garbage() {
    let data = vec![0u8, 1, 15, 16, 127, 128, 255];
    let text = hex_encode(&data);
    assert_eq!(text, "00010f107f80ff");
    assert_eq!(hex_decode(&text).unwrap(), data);
    assert_eq!(hex_decode("AbCd").unwrap(), vec![0xAB, 0xCD]);
    assert!(hex_decode("abc").is_none());
    assert!(hex_decode("zz").is_none());
    assert_eq!(hex_decode("").unwrap(), Vec::<u8>::new());
}

#[test]
fn verification_codes_are_six_uniform_digits() {
    let mut rng = rng_from_seed([9u8; 32]);
    let code = generate_verification_code(&mut rng);
    assert_eq!(code.len(), 6);
    assert!(code.chars().all(|c| c.is_ascii_digit()));

    let mut rng_again = rng_from_seed([9u8; 32]);
    assert_eq!(generate_verification_code(&mut rng_again), code);

    let mut other = rng_from_seed([10u8; 32]);
    let second = generate_verification_code(&mut other);
    assert_eq!(second.len(), 6);
}

#[test]
fn rng_seed_mixes_entropy_into_the_salt() {
    let salt = [3u8; 32];
    assert_eq!(seed_with_entropy(salt, 0), salt);
    let mixed = seed_with_entropy(salt, 0x0102_0304_0506_0708);
    assert_eq!(&mixed[..8], &[1, 2, 3, 4, 5, 6, 7, 8]);
    assert_eq!(&mixed[8..], &salt[8..]);
}
