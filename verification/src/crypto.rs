//! Trusted wrappers around the RSA and AES-GCM primitives.
//!
//! Keys travel as DER byte vectors so that contracts can speak of them as
//! plain values. Each deterministic primitive result is given a name; the
//! randomized RSA encryption is instead specified by what every outcome
//! satisfies: the matching private key recovers the message.

use vstd::prelude::*;

verus! {

/// The DER encoding of the public key belonging to a PKCS#8 DER private key.
pub uninterp spec fn rsa_public_der_of(private_der: Seq<u8>) -> Seq<u8>;

/// What `rsa::RsaPrivateKey::decrypt` with PKCS#1 v1.5 padding returns for a
/// private key given in PKCS#8 DER form: the recovered plaintext, or `None`
/// when the key fails to parse or the ciphertext is rejected.
pub uninterp spec fn rsa_decrypt_of(private_der: Seq<u8>, ciphertext: Seq<u8>) -> Option<Seq<u8>>;

/// What `rsa::pkcs1v15::SigningKey::<Sha256>::sign` returns: PKCS#1 v1.5
/// signing with SHA-256 is deterministic in the key and message.
pub uninterp spec fn rsa_sign_of(private_der: Seq<u8>, msg: Seq<u8>) -> Seq<u8>;

/// What `rsa::pkcs1v15::VerifyingKey::<Sha256>::verify` returns, with a key
/// or signature that fails to parse counted as rejection.
pub uninterp spec fn rsa_verify_ok(public_der: Seq<u8>, msg: Seq<u8>, sig: Seq<u8>) -> bool;

/// What `aes_gcm::Aes128Gcm::encrypt` returns: AES-128-GCM is deterministic
/// in key, nonce and plaintext.
pub uninterp spec fn aes_ct_of(key: Seq<u8>, nonce: Seq<u8>, plaintext: Seq<u8>) -> Seq<u8>;

/// What `aes_gcm::Aes128Gcm::decrypt` returns: deterministic in key, nonce
/// and ciphertext; `None` on inauthentic input.
pub uninterp spec fn aes_pt_of(key: Seq<u8>, nonce: Seq<u8>, ciphertext: Seq<u8>) -> Option<
    Seq<u8>,
>;

/// Whether a private-key DER denotes a sound RSA keypair as the `rsa` crate
/// handles it: the PKCS#8 bytes parse, the public key derives and encodes,
/// and decryption under it inverts encryption under that public key. The
/// crate's parser also admits degenerate key material for which the last
/// point fails; honest generation never produces such keys.
pub uninterp spec fn rsa_wf_keypair(private_der: Seq<u8>) -> bool;

/// Whether `rsa::pkcs1v15::SigningKey::<Sha256>::sign` succeeds for a
/// private-key DER: the digest length is fixed, so signability depends on
/// the key bytes alone (the key must parse and the modulus leave room for
/// the padded digest).
pub uninterp spec fn rsa_can_sign(private_der: Seq<u8>) -> bool;

/// An RSA-encapsulated secret: every sound private key whose public key DER
/// is `public_der` decrypts `encrypted_key` to `key`.
pub open spec fn rsa_encapsulates(public_der: Seq<u8>, encrypted_key: Seq<u8>, key: Seq<u8>) -> bool {
    forall|sk: Seq<u8>| rsa_wf_keypair(sk) && rsa_public_der_of(sk) == public_der
        ==> #[trigger] rsa_decrypt_of(sk, encrypted_key) == Some(key)
}

/// Relies on `rsa::RsaPublicKey::from` and `pkcs8` encoding: the public key
/// DER derived from a private key DER, `None` when the input fails to
/// parse; a sound keypair always derives one.
#[verifier::external_body]
pub fn rsa_public_key_der(private_der: &Vec<u8>) -> (r: Option<Vec<u8>>)
    ensures
        r matches Some(pk) ==> pk@ == rsa_public_der_of(private_der@),
        rsa_wf_keypair(private_der@) ==> r is Some,
{
    let sk = <rsa::RsaPrivateKey as rsa::pkcs8::DecodePrivateKey>::from_pkcs8_der(
        private_der.as_slice(),
    ).ok()?;
    let pk = rsa::RsaPublicKey::from(&sk);
    let doc = rsa::pkcs8::EncodePublicKey::to_public_key_der(&pk).ok()?;
    Some(doc.as_bytes().to_vec())
}

/// Relies on `rsa::RsaPublicKey::encrypt` with PKCS#1 v1.5 padding: on
/// success, any private key matching the given public key decrypts the
/// result back to the message.
#[verifier::external_body]
pub fn rsa_encrypt(
    public_der: &Vec<u8>,
    msg: &[u8],
    rng: &mut rand::rngs::StdRng,
) -> (r: Option<Vec<u8>>)
    ensures
        r matches Some(ct) ==> rsa_encapsulates(public_der@, ct@, msg@),
{
    let pk = <rsa::RsaPublicKey as rsa::pkcs8::DecodePublicKey>::from_public_key_der(
        public_der.as_slice(),
    ).ok()?;
    pk.encrypt(rng, rsa::Pkcs1v15Encrypt, msg).ok()
}

/// Relies on `rsa::RsaPrivateKey::decrypt` with PKCS#1 v1.5 padding: the
/// result is exactly the named decryption of the ciphertext under the key.
#[verifier::external_body]
pub fn rsa_decrypt(private_der: &Vec<u8>, ciphertext: &[u8]) -> (r: Option<Vec<u8>>)
    ensures
        match r {
            Some(v) => rsa_decrypt_of(private_der@, ciphertext@) == Some(v@),
            None => rsa_decrypt_of(private_der@, ciphertext@) is None,
        },
{
    let sk = <rsa::RsaPrivateKey as rsa::pkcs8::DecodePrivateKey>::from_pkcs8_der(
        private_der.as_slice(),
    ).ok()?;
    sk.decrypt(rsa::Pkcs1v15Encrypt, ciphertext).ok()
}

/// Relies on `rsa::pkcs1v15::SigningKey::<Sha256>::try_sign`: it succeeds
/// exactly for keys that parse and fit the padded digest, deterministically,
/// and the produced signature verifies under the matching public key.
#[verifier::external_body]
pub fn rsa_sign(private_der: &Vec<u8>, msg: &[u8]) -> (r: Option<Vec<u8>>)
    ensures
        r is Some <==> rsa_can_sign(private_der@),
        r matches Some(sig) ==> {
            &&& sig@ == rsa_sign_of(private_der@, msg@)
            &&& rsa_verify_ok(rsa_public_der_of(private_der@), msg@, sig@)
        },
{
    let sk = <rsa::RsaPrivateKey as rsa::pkcs8::DecodePrivateKey>::from_pkcs8_der(
        private_der.as_slice(),
    ).ok()?;
    let signing_key: rsa::pkcs1v15::SigningKey<sha2::Sha256> =
        rsa::pkcs1v15::SigningKey::new(sk);
    let sig = rsa::signature::Signer::try_sign(&signing_key, msg).ok()?;
    Some(rsa::signature::SignatureEncoding::to_vec(&sig))
}

/// Relies on `rsa::pkcs1v15::VerifyingKey::<Sha256>::verify`: deterministic
/// in public key, message and signature.
#[verifier::external_body]
pub fn rsa_verify(public_der: &Vec<u8>, msg: &[u8], sig: &[u8]) -> (r: bool)
    ensures
        r == rsa_verify_ok(public_der@, msg@, sig@),
{
    let Ok(pk) = <rsa::RsaPublicKey as rsa::pkcs8::DecodePublicKey>::from_public_key_der(
        public_der.as_slice(),
    ) else {
        return false;
    };
    let Ok(signature) = rsa::pkcs1v15::Signature::try_from(sig) else {
        return false;
    };
    let verifying_key: rsa::pkcs1v15::VerifyingKey<sha2::Sha256> =
        rsa::pkcs1v15::VerifyingKey::new(pk);
    rsa::signature::Verifier::verify(&verifying_key, msg, &signature).is_ok()
}

/// Relies on `rsa::pkcs8::EncodePublicKey::to_public_key_pem`: the PEM text
/// of a public key DER, a function of the bytes alone.
pub uninterp spec fn rsa_public_pem_of(public_der: Seq<u8>) -> Seq<char>;

/// Relies on `rsa::pkcs8` PEM encoding of a public key DER.
#[verifier::external_body]
pub fn rsa_public_key_pem(public_der: &Vec<u8>) -> (r: Option<String>)
    ensures
        r matches Some(pem) ==> pem@ == rsa_public_pem_of(public_der@),
{
    let pk = <rsa::RsaPublicKey as rsa::pkcs8::DecodePublicKey>::from_public_key_der(
        public_der.as_slice(),
    ).ok()?;
    rsa::pkcs8::EncodePublicKey::to_public_key_pem(&pk, rsa::pkcs8::LineEnding::LF).ok()
}

/// Relies on `rsa::RsaPrivateKey::new`: generates a fresh, validated
/// keypair from the RNG and returns its PKCS#8 DER encoding. A generated
/// key is sound, and at the sizes this library requests (2048 bits) it
/// leaves room for the padded digest, so it can sign.
#[verifier::external_body]
pub fn rsa_generate_private_key_der(rng: &mut rand::rngs::StdRng, bits: usize) -> (r: Option<
    Vec<u8>,
>)
    requires
        bits >= 2048,
    ensures
        r matches Some(der) ==> rsa_wf_keypair(der@) && rsa_can_sign(der@),
{
    let sk = rsa::RsaPrivateKey::new(rng, bits).ok()?;
    let doc = rsa::pkcs8::EncodePrivateKey::to_pkcs8_der(&sk).ok()?;
    Some(doc.as_bytes().to_vec())
}

/// Relies on `aes_gcm::Aes128Gcm::encrypt`: on success the result is the
/// named ciphertext of the plaintext under key and nonce.
#[verifier::external_body]
pub fn aes128_gcm_encrypt(key: &[u8; 16], nonce: &[u8; 12], plaintext: &[u8]) -> (r: Option<
    Vec<u8>,
>)
    ensures
        r matches Some(ct) ==> ct@ == aes_ct_of(key@, nonce@, plaintext@),
{
    let cipher = <aes_gcm::Aes128Gcm as aes_gcm::KeyInit>::new_from_slice(key).ok()?;
    let nonce = aes_gcm::aead::generic_array::GenericArray::from_slice(nonce);
    aes_gcm::aead::Aead::encrypt(&cipher, nonce, plaintext).ok()
}

/// Relies on `aes_gcm::Aes128Gcm::decrypt`: the result is exactly the named
/// decryption, and an authentic ciphertext of some plaintext under this key
/// and nonce decrypts to that plaintext.
#[verifier::external_body]
pub fn aes128_gcm_decrypt(key: &[u8; 16], nonce: &[u8; 12], ciphertext: &[u8]) -> (r: Option<
    Vec<u8>,
>)
    ensures
        r is Some <==> aes_pt_of(key@, nonce@, ciphertext@) is Some,
        r matches Some(v) ==> aes_pt_of(key@, nonce@, ciphertext@) == Some(v@),
        r is Some <== exists|p: Seq<u8>| ciphertext@ == #[trigger] aes_ct_of(key@, nonce@, p),
        r matches Some(v) ==> forall|p: Seq<u8>|
            ciphertext@ == #[trigger] aes_ct_of(key@, nonce@, p) ==> v@ == p,
{
    let cipher = <aes_gcm::Aes128Gcm as aes_gcm::KeyInit>::new_from_slice(key).ok()?;
    let nonce = aes_gcm::aead::generic_array::GenericArray::from_slice(nonce);
    aes_gcm::aead::Aead::decrypt(&cipher, nonce, ciphertext).ok()
}

} // verus!
