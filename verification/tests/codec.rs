//! Envelope round trips and tampering.

use rand::SeedableRng;
use rsa::pkcs8::{EncodePrivateKey, EncodePublicKey};

use sign_in_with_email::api::Delegation;
use sign_in_with_email::codec::{decode_link, encode_link, MagicLink, SignedMagicLink};

fn private_key_der(bits: usize, seed: u8) -> Vec<u8> {
    let mut rng = rand::rngs::StdRng::from_seed([seed; 32]);
    let sk = rsa::RsaPrivateKey::new(&mut rng, bits).unwrap();
    sk.to_pkcs8_der().unwrap().as_bytes().to_vec()
}

fn public_key_der(private_der: &[u8]) -> Vec<u8> {
    let sk =
        <rsa::RsaPrivateKey as rsa::pkcs8::DecodePrivateKey>::from_pkcs8_der(private_der).unwrap();
    rsa::RsaPublicKey::from(&sk)
        .to_public_key_der()
        .unwrap()
        .as_bytes()
        .to_vec()
}

#[test]
fn round_trip() {
    let input = MagicLink::new(
        [1; 32],
        Delegation {
            pubkey: vec![2; 32],
            expiration: 1000000000,
        },
        1000,
    );

    let mut rng = rand::rngs::StdRng::from_seed(rand::Rng::gen(&mut rand::thread_rng()));
    let private_key1 = private_key_der(2048, 11);
    let public_key1 = public_key_der(&private_key1);

    let private_key2 = private_key_der(2048, 12);
    let public_key2 = public_key_der(&private_key2);

    let encrypted = input.encrypt(&public_key1, &mut rng).unwrap();
    let signed = encrypted.sign(&private_key2).unwrap();

    let output = signed.unwrap(&public_key2, &private_key1).unwrap();

    assert_eq!(output.created(), input.created());
    assert_eq!(output.seed(), input.seed());
    assert_eq!(output.delegation().pubkey, input.delegation().pubkey);
    assert_eq!(output.delegation().expiration, input.delegation().expiration);
}

#[test]
fn round_trip_with_code() {
    let input = MagicLink::new(
        [9; 32],
        Delegation {
            pubkey: vec![4, 5, 6],
            expiration: 777,
        },
        500,
    )
    .with_code(vec![b'1', b'2', b'3']);

    let mut rng = rand::rngs::StdRng::from_seed([3; 32]);
    let private_key1 = private_key_der(512, 21);
    let public_key1 = public_key_der(&private_key1);
    let private_key2 = private_key_der(512, 22);
    let public_key2 = public_key_der(&private_key2);

    let encrypted = input.encrypt(&public_key1, &mut rng).unwrap();
    let signed = encrypted.sign(&private_key2).unwrap();
    let output = signed.unwrap(&public_key2, &private_key1).unwrap();

    assert_eq!(output.created(), 500);
    assert_eq!(output.code().as_ref().unwrap(), &vec![b'1', b'2', b'3']);
    assert_eq!(output.delegation().expiration, 777);
}

#[test]
fn tampered_signature_is_rejected_without_decryption() {
    let input = MagicLink::new(
        [1; 32],
        Delegation {
            pubkey: vec![2; 32],
            expiration: 1000000000,
        },
        1000,
    );

    let mut rng = rand::rngs::StdRng::from_seed([4; 32]);
    let private_key1 = private_key_der(512, 31);
    let public_key1 = public_key_der(&private_key1);
    let private_key2 = private_key_der(512, 32);
    let public_key2 = public_key_der(&private_key2);

    let encrypted = input.encrypt(&public_key1, &mut rng).unwrap();
    let mut signed = encrypted.sign(&private_key2).unwrap();

    assert!(signed.verify(&public_key2));
    signed.signature[0] ^= 0x01;
    assert!(!signed.verify(&public_key2));

    let err = signed.unwrap(&public_key2, &private_key1).unwrap_err();
    assert_eq!(err, "Invalid signature");
}

#[test]
fn wrong_decryption_key_fails() {
    let input = MagicLink::new(
        [8; 32],
        Delegation {
            pubkey: vec![1],
            expiration: 10,
        },
        7,
    );

    let mut rng = rand::rngs::StdRng::from_seed([5; 32]);
    let private_key1 = private_key_der(512, 41);
    let public_key1 = public_key_der(&private_key1);
    let private_key2 = private_key_der(512, 42);
    let public_key2 = public_key_der(&private_key2);
    let other_key = private_key_der(512, 43);

    let encrypted = input.encrypt(&public_key1, &mut rng).unwrap();
    let signed = encrypted.sign(&private_key2).unwrap();
    let err = signed.unwrap(&public_key2, &other_key).unwrap_err();
    assert_eq!(err, "Decryption failed");
}

#[test]
fn tampered_ciphertext_fails_decryption() {
    let input = MagicLink::new(
        [3; 32],
        Delegation {
            pubkey: vec![7],
            expiration: 11,
        },
        9,
    );

    let mut rng = rand::rngs::StdRng::from_seed([6; 32]);
    let private_key1 = private_key_der(512, 44);
    let public_key1 = public_key_der(&private_key1);
    let private_key2 = private_key_der(512, 45);
    let public_key2 = public_key_der(&private_key2);

    let encrypted = input.encrypt(&public_key1, &mut rng).unwrap();
    let mut signed = encrypted.sign(&private_key2).unwrap();
    // The signature covers only the encrypted key, so it still verifies;
    // the AEAD check must reject the altered sealed bytes.
    signed.ciphertext[0] ^= 0x01;
    assert!(signed.verify(&public_key2));
    let err = signed.unwrap(&public_key2, &private_key1).unwrap_err();
    assert_eq!(err, "Decryption failed");
}

#[test]
fn payload_codec_round_trips() {
    let link = MagicLink::new(
        [0xAB; 32],
        Delegation {
            pubkey: vec![9, 8, 7, 6],
            expiration: u64::MAX,
        },
        123456789,
    );
    let bytes = encode_link(&link);
    let back = decode_link(&bytes).unwrap();
    assert_eq!(back.created(), 123456789);
    assert_eq!(back.seed(), [0xAB; 32]);
    assert_eq!(back.delegation().pubkey, vec![9, 8, 7, 6]);
    assert_eq!(back.delegation().expiration, u64::MAX);
    assert!(back.code().is_none());
}

#[test]
fn malformed_payload_is_rejected() {
    assert!(decode_link(&[]).is_none());
    assert!(decode_link(&[0; 52]).is_none());
    let link = MagicLink::new(
        [1; 32],
        Delegation {
            pubkey: vec![1, 2],
            expiration: 5,
        },
        5,
    );
    let mut bytes = encode_link(&link);
    bytes.push(0);
    assert!(decode_link(&bytes).is_none());
}

#[test]
fn hex_strings_round_trip() {
    let signed = SignedMagicLink {
        ciphertext: vec![0x00, 0xFF, 0x10],
        encrypted_key: vec![0xAB],
        nonce: vec![0x01, 0x02],
        signature: vec![0xCD, 0xEF],
    };
    assert_eq!(signed.ciphertext_string(), "00ff10");
    assert_eq!(signed.encrypted_key_string(), "ab");
    assert_eq!(signed.nonce_string(), "0102");
    assert_eq!(signed.signature_string(), "cdef");

    let back = SignedMagicLink::from_hex_strings("00ff10", "ab", "0102", "cdef");
    assert_eq!(back.ciphertext, vec![0x00, 0xFF, 0x10]);
    assert_eq!(back.encrypted_key, vec![0xAB]);
    assert_eq!(back.nonce, vec![0x01, 0x02]);
    assert_eq!(back.signature, vec![0xCD, 0xEF]);

    assert!(SignedMagicLink::try_from_hex_strings("0g", "ab", "01", "cd").is_none());
    assert!(SignedMagicLink::try_from_hex_strings("0", "ab", "01", "cd").is_none());
    assert!(SignedMagicLink::try_from_hex_strings("AB", "ab", "01", "cd").is_some());
}

#[test]
fn expiry_is_independent_of_decryption() {
    let link = MagicLink::new(
        [2; 32],
        Delegation {
            pubkey: vec![3],
            expiration: 1,
        },
        1_000,
    );
    assert!(!link.expired(1_000));
    assert!(!link.expired(301_000));
    assert!(link.expired(301_001));
}
