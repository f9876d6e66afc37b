//! End-to-end flows through the aggregate state.

use rand::SeedableRng;
use rsa::pkcs8::{EncodePrivateKey, EncodePublicKey};

use sign_in_with_email::api::{
    Delegation, GetDelegationResponse, SubmitVerificationCodeResponse,
};
use sign_in_with_email::codec::SignedMagicLink;
use sign_in_with_email::email::ValidatedEmail;
use sign_in_with_email::generate_magic_link;
use sign_in_with_email::state::{AuthResult, State};

fn private_key_der(bits: usize, seed: u8) -> Vec<u8> {
    let mut rng = rand::rngs::StdRng::from_seed([seed; 32]);
    let sk = rsa::RsaPrivateKey::new(&mut rng, bits).unwrap();
    sk.to_pkcs8_der().unwrap().as_bytes().to_vec()
}

fn public_key_der(private_der: &[u8]) -> Vec<u8> {
    let sk =
        <rsa::RsaPrivateKey as rsa::pkcs8::DecodePrivateKey>::from_pkcs8_der(private_der).unwrap();
    rsa::RsaPublicKey::from(&sk)
        .to_public_key_der()
        .unwrap()
        .as_bytes()
        .to_vec()
}

fn ready_state(sender_seed: u8, provider_seed: u8) -> (State, Vec<u8>, Vec<u8>) {
    let sender_sk = private_key_der(512, sender_seed);
    let sender_pk = public_key_der(&sender_sk);
    let mut state = State::new(sender_pk, true);
    assert!(!state.is_ready());
    state.set_salt([1; 32]);
    assert!(state.is_ready());
    let provider_sk = private_key_der(512, provider_seed);
    state.set_rsa_private_key(provider_sk.clone());
    (state, sender_sk, provider_sk)
}

const CANISTER_ID: &[u8] = &[0, 0, 0, 0, 0, 0, 0, 1, 1, 1];

#[test]
fn verification_code_flow_succeeds() {
    let (mut state, _sender_sk, _provider_sk) = ready_state(51, 52);
    let email = ValidatedEmail::try_parse("user@example.com").unwrap();
    let session_key = vec![2u8; 32];

    let (_seed, issued) = state.store_verification_code(
        &email,
        "123456".to_string(),
        session_key.clone(),
        None,
        1_000,
    );
    assert!(issued.is_ok());

    let response =
        state.submit_verification_code(&email, "123456", &CANISTER_ID.to_vec(), 1_001);
    let success = match response {
        SubmitVerificationCodeResponse::Success(s) => s,
        _ => panic!("expected success"),
    };
    assert!(!success.user_key.is_empty());
    // 1_000 ms in nanoseconds plus the default 30-day session.
    assert_eq!(
        success.expiration,
        1_000 * 1_000_000 + 30 * 24 * 60 * 60 * 1_000_000_000u64
    );

    let lookup = state.get_delegation(
        &email,
        Delegation {
            pubkey: session_key,
            expiration: success.expiration,
        },
        1_002,
        Some(vec![0xDE, 0xAD]),
    );
    match lookup {
        GetDelegationResponse::Success(sd) => {
            assert_eq!(sd.signature, vec![0xDE, 0xAD]);
        },
        _ => panic!("expected a signed delegation"),
    }
}

#[test]
fn wrong_codes_block_and_generation_reports_the_same_window() {
    let (mut state, _s, _p) = ready_state(53, 54);
    let email = ValidatedEmail::try_parse("user@example.com").unwrap();
    let session_key = vec![2u8; 32];

    let (_seed, issued) = state.store_verification_code(
        &email,
        "123456".to_string(),
        session_key.clone(),
        None,
        2_000,
    );
    assert!(issued.is_ok());

    let mut last_blocked = None;
    for i in 0..3u64 {
        match state.submit_verification_code(&email, "999999", &CANISTER_ID.to_vec(), 2_000 + i) {
            SubmitVerificationCodeResponse::IncorrectCode(ic) => {
                assert_eq!(ic.attempts_remaining, 2 - i as u32);
                last_blocked = ic.blocked_duration;
            },
            _ => panic!("expected an incorrect code"),
        }
    }
    let blocked = last_blocked.expect("third failure must carry a block window");
    assert!(blocked > 0);

    // Asking for a new code immediately reports the very same window.
    let (_seed, reissued) = state.store_verification_code(
        &email,
        "777777".to_string(),
        session_key,
        None,
        2_002,
    );
    assert_eq!(reissued, Err(blocked));
}

#[test]
fn end_to_end() {
    let (mut state, sender_sk, _provider_sk) = ready_state(55, 56);
    let email = ValidatedEmail::try_parse("blah@blah.com").unwrap();
    let session_key = vec![2u8; 32];
    let now = 10_000;

    let link = generate_magic_link(
        ValidatedEmail::try_parse("blah@blah.com").unwrap(),
        session_key.clone(),
        None,
        [1; 32],
        now,
    );
    let seed = link.seed();
    let expiration = link.delegation().expiration;
    let delegation_copy = link.delegation().clone();
    state.record_magic_link_sent(seed, &delegation_copy, now);

    // Before certification the delegation shows as pending.
    match state.get_delegation(
        &email,
        Delegation {
            pubkey: session_key.clone(),
            expiration,
        },
        now,
        None,
    ) {
        GetDelegationResponse::Active(_) => {},
        _ => panic!("expected a pending delegation"),
    }

    let mut rng = rand::rngs::StdRng::from_seed([6; 32]);
    let encrypted = link.encrypt(&state.rsa_public_key().unwrap(), &mut rng).unwrap();
    let signed = encrypted.sign(&sender_sk).unwrap();

    // The envelope travels as hex query parameters and is rebuilt.
    let rebuilt = SignedMagicLink::from_hex_strings(
        &signed.ciphertext_string(),
        &signed.encrypted_key_string(),
        &signed.nonce_string(),
        &signed.signature_string(),
    );

    // A read-only call cannot certify yet and asks for the update path.
    let first = state.process_auth_request(rebuilt, None, false, now + 1);
    assert!(matches!(first, AuthResult::RequiresUpgrade));

    let again = SignedMagicLink::from_hex_strings(
        &signed.ciphertext_string(),
        &signed.encrypted_key_string(),
        &signed.nonce_string(),
        &signed.signature_string(),
    );
    let second = state.process_auth_request(again, None, true, now + 2);
    assert!(matches!(second, AuthResult::Success));

    match state.get_delegation(
        &email,
        Delegation {
            pubkey: session_key,
            expiration,
        },
        now + 3,
        Some(vec![0xAA]),
    ) {
        GetDelegationResponse::Success(sd) => assert_eq!(sd.signature, vec![0xAA]),
        _ => panic!("expected a signed delegation"),
    }
}

#[test]
fn tests_end_to_end() {
    // The same flow with a short code bound into the link.
    let (mut state, sender_sk, _provider_sk) = ready_state(57, 58);
    let session_key = vec![3u8; 32];
    let now = 20_000;

    let link = generate_magic_link(
        ValidatedEmail::try_parse("blah@blah.com").unwrap(),
        session_key,
        None,
        [1; 32],
        now,
    )
    .with_code(vec![b'4', b'2', b'0']);

    let mut rng = rand::rngs::StdRng::from_seed([7; 32]);
    let encrypted = link.encrypt(&state.rsa_public_key().unwrap(), &mut rng).unwrap();
    let signed = encrypted.sign(&sender_sk).unwrap();

    let wrong_code = SignedMagicLink {
        ciphertext: signed.ciphertext.clone(),
        encrypted_key: signed.encrypted_key.clone(),
        nonce: signed.nonce.clone(),
        signature: signed.signature.clone(),
    };
    let rejected = state.process_auth_request(wrong_code, Some(vec![b'0']), true, now + 1);
    assert!(matches!(rejected, AuthResult::CodeIncorrect));

    let missing_code = SignedMagicLink {
        ciphertext: signed.ciphertext.clone(),
        encrypted_key: signed.encrypted_key.clone(),
        nonce: signed.nonce.clone(),
        signature: signed.signature.clone(),
    };
    let rejected = state.process_auth_request(missing_code, None, true, now + 1);
    assert!(matches!(rejected, AuthResult::CodeIncorrect));

    let accepted = state.process_auth_request(signed, Some(vec![b'4', b'2', b'0']), true, now + 2);
    assert!(matches!(accepted, AuthResult::Success));
}

#[test]
fn expired_links_are_rejected() {
    let (mut state, sender_sk, _provider_sk) = ready_state(59, 60);
    let now = 1_000;
    let link = generate_magic_link(
        ValidatedEmail::try_parse("blah@blah.com").unwrap(),
        vec![1u8],
        None,
        [1; 32],
        now,
    );
    let mut rng = rand::rngs::StdRng::from_seed([8; 32]);
    let encrypted = link.encrypt(&state.rsa_public_key().unwrap(), &mut rng).unwrap();
    let signed = encrypted.sign(&sender_sk).unwrap();

    // Five minutes and one millisecond later the link is stale.
    let late = now + 5 * 60 * 1_000 + 1;
    let result = state.process_auth_request(signed, None, true, late);
    assert!(matches!(result, AuthResult::LinkExpired));
}

#[test]
fn tampered_envelopes_never_reach_decryption() {
    let (mut state, sender_sk, _provider_sk) = ready_state(61, 62);
    let link = generate_magic_link(
        ValidatedEmail::try_parse("blah@blah.com").unwrap(),
        vec![1u8],
        None,
        [1; 32],
        500,
    );
    let mut rng = rand::rngs::StdRng::from_seed([9; 32]);
    let encrypted = link.encrypt(&state.rsa_public_key().unwrap(), &mut rng).unwrap();
    let mut signed = encrypted.sign(&sender_sk).unwrap();
    let last = signed.signature.len() - 1;
    signed.signature[last] ^= 0x80;

    let result = state.process_auth_request(signed, None, true, 501);
    match result {
        AuthResult::LinkInvalid(reason) => assert_eq!(reason, "Invalid signature"),
        _ => panic!("a tampered envelope must be invalid"),
    }
}

#[test]
fn snapshot_round_trip_preserves_pending_challenges() {
    let (mut state, _s, _p) = ready_state(65, 66);
    let email = ValidatedEmail::try_parse("user@example.com").unwrap();
    let session_key = vec![2u8; 32];
    let (_seed, issued) = state.store_verification_code(
        &email,
        "123456".to_string(),
        session_key,
        None,
        1_000,
    );
    assert!(issued.is_ok());
    state.record_email_sent([9; 32], 1_001);

    let snapshot = state.to_snapshot();
    let mut restored = State::from_snapshot(snapshot);

    assert!(restored.is_ready());
    assert_eq!(restored.test_mode(), state.test_mode());
    assert_eq!(restored.salt(), state.salt());
    // The pending challenge survives the upgrade and can still be redeemed.
    let response =
        restored.submit_verification_code(&email, "123456", &CANISTER_ID.to_vec(), 1_002);
    assert!(matches!(response, SubmitVerificationCodeResponse::Success(_)));
}

#[test]
fn stale_process_magic_link_is_refused() {
    let (mut state, _s, _p) = ready_state(63, 64);
    let link = generate_magic_link(
        ValidatedEmail::try_parse("blah@blah.com").unwrap(),
        vec![1u8],
        None,
        [1; 32],
        1_000,
    );
    let fresh = generate_magic_link(
        ValidatedEmail::try_parse("blah@blah.com").unwrap(),
        vec![1u8],
        None,
        [1; 32],
        1_000,
    );
    assert!(state.process_magic_link(fresh, 2_000));
    assert!(!state.process_magic_link(link, 1_000 + 5 * 60 * 1_000 + 1));
}
