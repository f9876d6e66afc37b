//! The auxiliary stores: statistics, the in-flight index, the signature
//! store, and configuration decryption.

use base64::Engine;
use rand::SeedableRng;
use rsa::pkcs8::EncodePrivateKey;

use sign_in_with_email::api::{EncryptedAwsEmailSenderConfig, EncryptedEmailSenderConfig};
use sign_in_with_email::config::EmailSenderConfig;
use sign_in_with_email::email_stats::EmailStatsMap;
use sign_in_with_email::magic_links::MagicLinks;
use sign_in_with_email::signatures::SignatureStore;

#[test]
fn email_stats_count_idempotently_forward() {
    let mut stats = EmailStatsMap::new();
    let seed = [1u8; 32];
    assert!(stats.get(seed).is_none());
    stats.record_email_sent(seed, 100);
    stats.record_email_sent(seed, 250);
    let s = stats.get(seed).unwrap();
    assert_eq!(s.first_seen, 100);
    assert_eq!(s.emails_sent, 2);
    assert_eq!(s.latest_email_sent, 250);
    assert_eq!(s.successful_links, 0);
    assert!(s.latest_successful_link.is_none());
}

#[test]
fn in_flight_links_lapse() {
    let mut links = MagicLinks::new();
    let seed = [2u8; 32];
    let msg = [3u8; 32];
    links.push(seed, msg, 5_000, 1_000);
    assert_eq!(links.get(seed, msg, 1_500), Some(5_000));
    assert_eq!(links.get(seed, msg, 5_000), None);
    // A mutating access prunes the lapsed entry for good.
    links.push([9u8; 32], msg, 9_000, 6_000);
    assert_eq!(links.get(seed, msg, 1_500), None);
}

#[test]
fn committed_signatures_are_pruned_after_their_window() {
    let mut sigs = SignatureStore::new();
    let seed = [4u8; 32];
    let msg = [5u8; 32];
    sigs.add(seed, msg, 0);
    assert!(sigs.contains(seed, msg));
    // A later commit prunes everything whose minute has passed.
    sigs.add([6u8; 32], msg, 60_001);
    assert!(!sigs.contains(seed, msg));
    assert!(sigs.contains([6u8; 32], msg));
}

#[test]
fn sender_config_decrypts_exactly_with_the_right_key() {
    let mut rng = rand::rngs::StdRng::from_seed([77u8; 32]);
    let sk = rsa::RsaPrivateKey::new(&mut rng, 512).unwrap();
    let pk = sk.to_public_key();
    let sk_der = sk.to_pkcs8_der().unwrap().as_bytes().to_vec();

    let mut encrypt = |value: &str| {
        let ct = pk
            .encrypt(&mut rng, rsa::Pkcs1v15Encrypt, value.as_bytes())
            .unwrap();
        base64::engine::general_purpose::STANDARD.encode(ct)
    };

    let encrypted = EncryptedEmailSenderConfig::Aws(EncryptedAwsEmailSenderConfig {
        region: "eu-west-1".to_string(),
        target_arn: "arn:aws:sns:eu-west-1:1:topic".to_string(),
        access_key_encrypted: encrypt("SECRET-REDACTED"),
        secret_key_encrypted: encrypt("SECRET-REDACTED"),
    });

    let decrypted = EmailSenderConfig::from_encrypted(encrypted, &sk_der).unwrap();
    let EmailSenderConfig::Aws(aws) = decrypted;
    assert_eq!(aws.region, "eu-west-1");
    assert_eq!(aws.target_arn, "arn:aws:sns:eu-west-1:1:topic");
    assert_eq!(aws.access_key, "SECRET-REDACTED");
    assert_eq!(aws.secret_key, "SECRET-REDACTED");
}

#[test]
fn sender_config_rejects_the_wrong_key() {
    let mut rng = rand::rngs::StdRng::from_seed([78u8; 32]);
    let sk = rsa::RsaPrivateKey::new(&mut rng, 512).unwrap();
    let pk = sk.to_public_key();
    let other = rsa::RsaPrivateKey::new(&mut rng, 512).unwrap();
    let other_der = other.to_pkcs8_der().unwrap().as_bytes().to_vec();

    let ct = pk
        .encrypt(&mut rng, rsa::Pkcs1v15Encrypt, b"SECRET-REDACTED")
        .unwrap();
    let encoded = base64::engine::general_purpose::STANDARD.encode(ct);

    let encrypted = EncryptedEmailSenderConfig::Aws(EncryptedAwsEmailSenderConfig {
        region: "r".to_string(),
        target_arn: "t".to_string(),
        access_key_encrypted: encoded.clone(),
        secret_key_encrypted: encoded,
    });
    assert!(EmailSenderConfig::from_encrypted(encrypted, &other_der).is_none());

    let not_base64 = EncryptedEmailSenderConfig::Aws(EncryptedAwsEmailSenderConfig {
        region: "r".to_string(),
        target_arn: "t".to_string(),
        access_key_encrypted: "!!!not base64!!!".to_string(),
        secret_key_encrypted: "!!!not base64!!!".to_string(),
    });
    let other_der2 = {
        let mut rng = rand::rngs::StdRng::from_seed([79u8; 32]);
        rsa::RsaPrivateKey::new(&mut rng, 512)
            .unwrap()
            .to_pkcs8_der()
            .unwrap()
            .as_bytes()
            .to_vec()
    };
    assert!(EmailSenderConfig::from_encrypted(not_base64, &other_der2).is_none());
}

#[test]
fn install_arguments_split_by_variant() {
    let args = sign_in_with_email::api::default_init_args();
    let init = args.to_init_args();
    assert!(init.test_mode);
    assert_eq!(init.salt, Some([1u8; 32]));

    let upgrade = sign_in_with_email::api::InitOrUpgradeArgs::Upgrade(
        sign_in_with_email::api::UpgradeArgs {
            email_sender_config: None,
        },
    );
    let upgrade_args = upgrade.to_upgrade_args();
    assert!(upgrade_args.email_sender_config.is_none());
}

#[test]
fn public_key_export_is_pem() {
    let mut rng = rand::rngs::StdRng::from_seed([80u8; 32]);
    let sk_der = rsa::RsaPrivateKey::new(&mut rng, 512)
        .unwrap()
        .to_pkcs8_der()
        .unwrap()
        .as_bytes()
        .to_vec();
    let pk_der = sign_in_with_email::crypto::rsa_public_key_der(&sk_der).unwrap();
    let pem = sign_in_with_email::crypto::rsa_public_key_pem(&pk_der).unwrap();
    assert!(pem.starts_with("-----BEGIN PUBLIC KEY-----"));
}

#[test]
fn principal_matches_the_reference_derivation() {
    let mut state = sign_in_with_email::state::State::new(vec![1], true);
    state.set_salt([1u8; 32]);
    let email = sign_in_with_email::email::ValidatedEmail::try_parse("user@example.com").unwrap();
    let canister_id = vec![0u8, 0, 0, 0, 0, 0, 0, 1, 1, 1];

    let principal = state.get_principal(&email, &canister_id);

    let seed = state.calculate_seed(&email);
    let der = state.der_encode_canister_sig_key(&canister_id, &seed);
    let expected = candid::Principal::self_authenticating(&der);
    assert_eq!(principal, expected.as_slice().to_vec());
    assert_ne!(principal, der);
}

#[test]
fn seeded_rng_is_reproducible() {
    let mut a = sign_in_with_email::rng::seeded_rng([5u8; 32], 7);
    let mut b = sign_in_with_email::rng::seeded_rng([5u8; 32], 7);
    assert_eq!(
        sign_in_with_email::rng::random_bytes(&mut a),
        sign_in_with_email::rng::random_bytes(&mut b)
    );
    let mut c = sign_in_with_email::rng::seeded_rng([5u8; 32], 8);
    let _ = sign_in_with_email::rng::random_bytes(&mut c);
}

#[test]
fn canister_sig_key_der_embeds_canister_and_seed() {
    let state = sign_in_with_email::state::State::new(vec![1], false);
    let canister_id = vec![0u8, 0, 0, 0, 0, 0, 0, 1, 1, 1];
    let seed = [6u8; 32];
    let der = state.der_encode_canister_sig_key(&canister_id, &seed);
    assert_eq!(der[0], 0x30);
    // The raw key is a one-byte canister id length, the id, then the seed.
    let raw_len = 1 + canister_id.len() + 32;
    let raw = &der[der.len() - raw_len..];
    assert_eq!(raw[0] as usize, canister_id.len());
    assert_eq!(&raw[1..1 + canister_id.len()], canister_id.as_slice());
    assert_eq!(&raw[1 + canister_id.len()..], &seed);
}
