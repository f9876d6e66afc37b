//! The magic-link challenge and its encrypt-then-sign envelope.
//!
//! A [`MagicLink`] carries the seed, the delegation and an optional short
//! code. For transport it is serialized by a verified byte format, sealed
//! with AES-128-GCM under a fresh key, the key RSA-encrypted for the
//! recipient (envelope encryption), and the encrypted key signed. Receiving
//! reverses the steps: an envelope whose signature fails is rejected before
//! any decryption is attempted.

use vstd::prelude::*;

verus! {

use vstd::string::StringSliceAdditionalSpecFns;

use crate::TimestampMillis;
use crate::api::{Delegation, DelegationView};
use crate::bytesutil::{
    bytes32_from_slice, le_bytes_of, le_value_of, lemma_le_bytes_len, lemma_le_round_trip,
    lemma_le_value_bound, lemma_pow256_8, push_uint_le, read_uint_le,
};
use crate::Hash32;

/// How long a magic link stays valid, in milliseconds: the same five-minute
/// window as a verification code.
pub const MAGIC_LINK_EXPIRATION: u64 = 5 * 60 * 1000;

/// The mathematical value of a [`MagicLink`].
#[verifier::ext_equal]
pub struct MagicLinkView {
    pub created: TimestampMillis,
    pub seed: Seq<u8>,
    pub delegation: DelegationView,
    pub code: Option<Seq<u8>>,
}

/// The bounds under which a magic link can be serialized: the session key
/// length fits four bytes and the code length one byte.
pub open spec fn link_wf(m: MagicLinkView) -> bool {
    &&& m.seed.len() == 32
    &&& m.delegation.pubkey.len() < 0x1_0000_0000
    &&& match m.code {
        Some(c) => c.len() < 256,
        None => true,
    }
}

/// The challenge bundle a magic link transports.
#[derive(Debug)]
pub struct MagicLink {
    created: TimestampMillis,
    seed: Hash32,
    delegation: Delegation,
    code: Option<Vec<u8>>,
}

impl View for MagicLink {
    type V = MagicLinkView;

    closed spec fn view(&self) -> MagicLinkView {
        MagicLinkView {
            created: self.created,
            seed: self.seed@,
            delegation: self.delegation@,
            code: match self.code {
                Some(ref c) => Some(c@),
                None => None,
            },
        }
    }
}

impl MagicLink {
    /// Every constructed link can be serialized.
    #[verifier::type_invariant]
    pub open spec fn wf(&self) -> bool {
        link_wf(self@)
    }

    /// Bundle a seed and delegation into a link created now, without a code.
    pub fn new(seed: Hash32, delegation: Delegation, now: TimestampMillis) -> (r: MagicLink)
        requires
            delegation@.pubkey.len() < 0x1_0000_0000,
        ensures
            r@ == (MagicLinkView {
                created: now,
                seed: seed@,
                delegation: delegation@,
                code: None,
            }),
    {
        MagicLink { created: now, seed, delegation, code: None }
    }

    /// The same link with a short code attached.
    pub fn with_code(self, code: Vec<u8>) -> (r: MagicLink)
        requires
            code@.len() < 256,
        ensures
            r@ == (MagicLinkView { code: Some(code@), ..self@ }),
    {
        proof {
            use_type_invariant(&self);
        }
        MagicLink { code: Some(code), ..self }
    }

    /// When the link was issued.
    pub fn created(&self) -> (r: TimestampMillis)
        ensures
            r == self@.created,
    {
        self.created
    }

    /// The seed the link authenticates.
    pub fn seed(&self) -> (r: Hash32)
        ensures
            r@ == self@.seed,
    {
        proof {
            use_type_invariant(self);
        }
        self.seed
    }

    /// The delegation the link asks to certify.
    pub fn delegation(&self) -> (r: &Delegation)
        ensures
            r@ == self@.delegation,
    {
        &self.delegation
    }

    /// The short code attached to the link, if any.
    pub fn code(&self) -> (r: &Option<Vec<u8>>)
        ensures
            match r {
                Some(c) => self@.code == Some(c@),
                None => self@.code is None,
            },
    {
        &self.code
    }

    /// Whether the link is stale at `now`: more than the expiration period
    /// after its creation.
    pub fn expired(&self, now: TimestampMillis) -> (r: bool)
        ensures
            r == link_expired(self@, now),
    {
        now > MAGIC_LINK_EXPIRATION && self.created < now - MAGIC_LINK_EXPIRATION
    }
}

/// Whether a link is stale at `now`.
pub open spec fn link_expired(m: MagicLinkView, now: TimestampMillis) -> bool {
    m.created + MAGIC_LINK_EXPIRATION < now
}

/// The serialized form of the optional code: a presence tag, then the
/// length-prefixed bytes.
pub open spec fn code_bytes_of(code: Option<Seq<u8>>) -> Seq<u8> {
    match code {
        None => seq![0u8],
        Some(c) => seq![1u8, c.len() as u8] + c,
    }
}

/// The payload byte format: creation time, seed, expiration, the
/// length-prefixed session key, then the optional code.
pub open spec fn encode_of(m: MagicLinkView) -> Seq<u8> {
    le_bytes_of(m.created as nat, 8) + m.seed + le_bytes_of(m.delegation.expiration as nat, 8)
        + le_bytes_of(m.delegation.pubkey.len(), 4) + m.delegation.pubkey + code_bytes_of(m.code)
}

/// The value a payload byte string denotes, if well formed.
pub open spec fn decode_of(s: Seq<u8>) -> Option<MagicLinkView> {
    if s.len() < 53 {
        None
    } else {
        let created = le_value_of(s.subrange(0, 8)) as u64;
        let seed = s.subrange(8, 40);
        let expiration = le_value_of(s.subrange(40, 48)) as u64;
        let klen = le_value_of(s.subrange(48, 52)) as int;
        if s.len() < 53 + klen {
            None
        } else {
            let pubkey = s.subrange(52, 52 + klen);
            let delegation = DelegationView { pubkey, expiration };
            let tag = s[52 + klen];
            if tag == 0 {
                if s.len() == 53 + klen {
                    Some(MagicLinkView { created, seed, delegation, code: None })
                } else {
                    None
                }
            } else if tag == 1 {
                if s.len() >= 54 + klen {
                    let clen = s[53 + klen] as int;
                    if s.len() == 54 + klen + clen {
                        Some(MagicLinkView {
                            created,
                            seed,
                            delegation,
                            code: Some(s.subrange(54 + klen, 54 + klen + clen)),
                        })
                    } else {
                        None
                    }
                } else {
                    None
                }
            } else {
                None
            }
        }
    }
}

/// Decoding inverts encoding: the byte format loses nothing.
pub proof fn lemma_codec_round_trip(m: MagicLinkView)
    requires
        link_wf(m),
    ensures
        decode_of(encode_of(m)) == Some(m),
{
    lemma_pow256_8();
    let s = encode_of(m);
    let klen = m.delegation.pubkey.len() as int;
    lemma_le_bytes_len(m.created as nat, 8);
    lemma_le_bytes_len(m.delegation.expiration as nat, 8);
    lemma_le_bytes_len(m.delegation.pubkey.len(), 4);
    assert(s.len() == 52 + klen + code_bytes_of(m.code).len());
    assert(code_bytes_of(m.code).len() >= 1);

    assert(s.subrange(0, 8) =~= le_bytes_of(m.created as nat, 8));
    assert(s.subrange(8, 40) =~= m.seed);
    assert(s.subrange(40, 48) =~= le_bytes_of(m.delegation.expiration as nat, 8));
    assert(s.subrange(48, 52) =~= le_bytes_of(m.delegation.pubkey.len(), 4));
    assert(s.subrange(52, 52 + klen) =~= m.delegation.pubkey);

    lemma_le_round_trip(m.created as nat, 8);
    lemma_le_round_trip(m.delegation.expiration as nat, 8);
    lemma_le_round_trip(m.delegation.pubkey.len(), 4);

    match m.code {
        None => {
            assert(s[52 + klen] == 0);
            assert(s.len() == 53 + klen);
            assert(decode_of(s) == Some(m));
        },
        Some(c) => {
            assert(s[52 + klen] == 1);
            assert(s[53 + klen] == c.len() as u8);
            assert(s.len() == 54 + klen + c.len());
            assert(s.subrange(54 + klen, 54 + klen + c.len() as int) =~= c);
            assert(decode_of(s) == Some(m));
        },
    }
}

/// Serialize a link into the payload byte format.
pub fn encode_link(m: &MagicLink) -> (r: Vec<u8>)
    ensures
        r@ == encode_of(m@),
{
    proof {
        use_type_invariant(m);
    }
    let mut out: Vec<u8> = Vec::new();
    push_uint_le(&mut out, m.created, 8);
    crate::hashing::extend_bytes(&mut out, m.seed.as_slice());
    push_uint_le(&mut out, m.delegation.expiration, 8);
    push_uint_le(&mut out, m.delegation.pubkey.len() as u64, 4);
    crate::hashing::extend_bytes(&mut out, m.delegation.pubkey.as_slice());
    match &m.code {
        None => {
            out.push(0u8);
        },
        Some(c) => {
            out.push(1u8);
            out.push(c.len() as u8);
            crate::hashing::extend_bytes(&mut out, c.as_slice());
        },
    }
    proof {
        assert(out@ =~= encode_of(m@));
    }
    out
}

/// Parse a payload byte string; `None` exactly when it is malformed.
pub fn decode_link(data: &[u8]) -> (r: Option<MagicLink>)
    ensures
        match r {
            Some(link) => decode_of(data@) == Some(link@),
            None => decode_of(data@) is None,
        },
{
    proof {
        lemma_pow256_8();
    }
    let total = data.len();
    if total < 53 {
        return None;
    }
    let created = read_uint_le(data, 0, 8);
    let seed = bytes32_from_slice(vstd::slice::slice_subrange(data, 8, 40));
    let expiration = read_uint_le(data, 40, 8);
    let klen64 = read_uint_le(data, 48, 4);
    proof {
        lemma_le_value_bound(data@.subrange(48, 52));
        assert(data@.subrange(48, 52).len() == 4);
        lemma_le_value_bound(data@.subrange(0, 8));
        assert(data@.subrange(0, 8).len() == 8);
        lemma_le_value_bound(data@.subrange(40, 48));
        assert(data@.subrange(40, 48).len() == 8);
    }
    let klen = klen64 as usize;
    if total - 53 < klen {
        proof {
            assert(decode_of(data@) is None);
        }
        return None;
    }
    let pubkey = crate::text::bytes_to_vec(vstd::slice::slice_subrange(data, 52, 52 + klen));
    let delegation = Delegation { pubkey, expiration };
    let tag = data[52 + klen];
    if tag == 0 {
        if total == 53 + klen {
            Some(MagicLink { created, seed, delegation, code: None })
        } else {
            None
        }
    } else if tag == 1 {
        let rest = total - 53 - klen;
        if rest == 0 {
            return None;
        }
        let clen = data[53 + klen] as usize;
        if rest - 1 == clen {
            let code = crate::text::bytes_to_vec(
                vstd::slice::slice_subrange(data, 54 + klen, 54 + klen + clen),
            );
            Some(MagicLink { created, seed, delegation, code: Some(code) })
        } else {
            None
        }
    } else {
        None
    }
}

/// The mathematical value of an [`EncryptedMagicLink`].
#[verifier::ext_equal]
pub struct EncryptedMagicLinkView {
    pub ciphertext: Seq<u8>,
    pub encrypted_key: Seq<u8>,
    pub nonce: Seq<u8>,
}

/// A magic link sealed by envelope encryption: the AES-GCM ciphertext of the
/// payload, the RSA-encrypted AES key, and the nonce.
pub struct EncryptedMagicLink {
    pub ciphertext: Vec<u8>,
    pub encrypted_key: Vec<u8>,
    pub nonce: Vec<u8>,
}

impl View for EncryptedMagicLink {
    type V = EncryptedMagicLinkView;

    open spec fn view(&self) -> EncryptedMagicLinkView {
        EncryptedMagicLinkView {
            ciphertext: self.ciphertext@,
            encrypted_key: self.encrypted_key@,
            nonce: self.nonce@,
        }
    }
}

/// Whether an envelope seals payload `m` for the holder of the private key
/// matching `public_der`: some 16-byte AES key is RSA-encapsulated in
/// `encrypted_key`, and the ciphertext is the AES-GCM sealing of the encoded
/// payload under that key and the envelope's nonce.
pub open spec fn is_envelope_of(
    env: EncryptedMagicLinkView,
    public_der: Seq<u8>,
    m: MagicLinkView,
) -> bool {
    &&& link_wf(m)
    &&& exists|k: Seq<u8>| {
        &&& crate::crypto::rsa_encapsulates(public_der, env.encrypted_key, k)
        &&& k.len() == 16
        &&& env.nonce.len() == 12
        &&& env.ciphertext == #[trigger] crate::crypto::aes_ct_of(k, env.nonce, encode_of(m))
    }
}

impl MagicLink {
    /// Seal the link for the holder of the private key matching
    /// `public_key_der`: serialize it, encrypt the bytes under a fresh AES
    /// key and nonce, and RSA-encrypt that key.
    ///
    /// On success the envelope seals exactly this link.
    pub fn encrypt(&self, public_key_der: &Vec<u8>, rng: &mut rand::rngs::StdRng) -> (r: Option<
        EncryptedMagicLink,
    >)
        ensures
            r matches Some(env) ==> is_envelope_of(env@, public_key_der@, self@),
    {
        proof {
            use_type_invariant(self);
        }
        let bytes = encode_link(self);
        let key = crate::rng::random_bytes16(rng);
        let nonce = crate::rng::random_bytes12(rng);
        let ciphertext = match crate::crypto::aes128_gcm_encrypt(&key, &nonce, bytes.as_slice()) {
            Some(ct) => ct,
            None => {
                return None;
            },
        };
        let encrypted_key = match crate::crypto::rsa_encrypt(public_key_der, key.as_slice(), rng) {
            Some(ek) => ek,
            None => {
                return None;
            },
        };
        let env = EncryptedMagicLink {
            ciphertext,
            encrypted_key,
            nonce: crate::text::bytes_to_vec(nonce.as_slice()),
        };
        proof {
            let k = key@;
            assert(crate::crypto::rsa_encapsulates(public_key_der@, env@.encrypted_key, k));
            assert(k.len() == 16);
            assert(env@.nonce.len() == 12);
            assert(env@.ciphertext == crate::crypto::aes_ct_of(k, env@.nonce, encode_of(self@)));
            assert(is_envelope_of(env@, public_key_der@, self@));
        }
        Some(env)
    }
}

impl EncryptedMagicLink {
    /// Sign the encrypted key field, binding the envelope to the signer.
    ///
    /// On success the envelope fields are unchanged and the signature is the
    /// signer's deterministic signature of the encrypted key, which verifies
    /// under the signer's public key.
    pub fn sign(self, private_key_der: &Vec<u8>) -> (r: Option<SignedMagicLink>)
        ensures
            r is Some <==> crate::crypto::rsa_can_sign(private_key_der@),
            r matches Some(s) ==> {
                &&& s@.ciphertext == self@.ciphertext
                &&& s@.encrypted_key == self@.encrypted_key
                &&& s@.nonce == self@.nonce
                &&& s@.signature == crate::crypto::rsa_sign_of(
                    private_key_der@,
                    self@.encrypted_key,
                )
                &&& crate::crypto::rsa_verify_ok(
                    crate::crypto::rsa_public_der_of(private_key_der@),
                    s@.encrypted_key,
                    s@.signature,
                )
            },
    {
        let signature = match crate::crypto::rsa_sign(
            private_key_der,
            self.encrypted_key.as_slice(),
        ) {
            Some(sig) => sig,
            None => {
                return None;
            },
        };
        Some(SignedMagicLink {
            ciphertext: self.ciphertext,
            encrypted_key: self.encrypted_key,
            nonce: self.nonce,
            signature,
        })
    }
}

/// The mathematical value of a [`SignedMagicLink`].
#[verifier::ext_equal]
pub struct SignedMagicLinkView {
    pub ciphertext: Seq<u8>,
    pub encrypted_key: Seq<u8>,
    pub nonce: Seq<u8>,
    pub signature: Seq<u8>,
}

impl SignedMagicLinkView {
    /// The envelope part, without the signature.
    pub open spec fn envelope(self) -> EncryptedMagicLinkView {
        EncryptedMagicLinkView {
            ciphertext: self.ciphertext,
            encrypted_key: self.encrypted_key,
            nonce: self.nonce,
        }
    }
}

/// An encrypted envelope together with the signature over its encrypted key.
pub struct SignedMagicLink {
    pub ciphertext: Vec<u8>,
    pub encrypted_key: Vec<u8>,
    pub nonce: Vec<u8>,
    pub signature: Vec<u8>,
}

impl View for SignedMagicLink {
    type V = SignedMagicLinkView;

    open spec fn view(&self) -> SignedMagicLinkView {
        SignedMagicLinkView {
            ciphertext: self.ciphertext@,
            encrypted_key: self.encrypted_key@,
            nonce: self.nonce@,
            signature: self.signature@,
        }
    }
}

impl SignedMagicLink {
    /// Rebuild an envelope from the four hex-encoded query fields.
    pub fn from_hex_strings(ciphertext: &str, encrypted_key: &str, nonce: &str, signature: &str)
        -> (r: SignedMagicLink)
        requires
            crate::hexfmt::hex_bytes_valid(ciphertext.spec_bytes()),
            crate::hexfmt::hex_bytes_valid(encrypted_key.spec_bytes()),
            crate::hexfmt::hex_bytes_valid(nonce.spec_bytes()),
            crate::hexfmt::hex_bytes_valid(signature.spec_bytes()),
        ensures
            r@.ciphertext == crate::hexfmt::hex_decoded(ciphertext.spec_bytes()),
            r@.encrypted_key == crate::hexfmt::hex_decoded(encrypted_key.spec_bytes()),
            r@.nonce == crate::hexfmt::hex_decoded(nonce.spec_bytes()),
            r@.signature == crate::hexfmt::hex_decoded(signature.spec_bytes()),
    {
        match Self::try_from_hex_strings(ciphertext, encrypted_key, nonce, signature) {
            Some(r) => r,
            None => {
                proof {
                    assert(false);
                }
                SignedMagicLink {
                    ciphertext: Vec::new(),
                    encrypted_key: Vec::new(),
                    nonce: Vec::new(),
                    signature: Vec::new(),
                }
            },
        }
    }

    /// Rebuild an envelope from the four hex-encoded query fields, rejecting
    /// any field that is not well-formed hex.
    pub fn try_from_hex_strings(
        ciphertext: &str,
        encrypted_key: &str,
        nonce: &str,
        signature: &str,
    ) -> (r: Option<SignedMagicLink>)
        ensures
            match r {
                Some(v) => {
                    &&& crate::hexfmt::hex_bytes_valid(ciphertext.spec_bytes())
                    &&& crate::hexfmt::hex_bytes_valid(encrypted_key.spec_bytes())
                    &&& crate::hexfmt::hex_bytes_valid(nonce.spec_bytes())
                    &&& crate::hexfmt::hex_bytes_valid(signature.spec_bytes())
                    &&& v@.ciphertext == crate::hexfmt::hex_decoded(ciphertext.spec_bytes())
                    &&& v@.encrypted_key == crate::hexfmt::hex_decoded(encrypted_key.spec_bytes())
                    &&& v@.nonce == crate::hexfmt::hex_decoded(nonce.spec_bytes())
                    &&& v@.signature == crate::hexfmt::hex_decoded(signature.spec_bytes())
                },
                None => !(crate::hexfmt::hex_bytes_valid(ciphertext.spec_bytes())
                    && crate::hexfmt::hex_bytes_valid(encrypted_key.spec_bytes())
                    && crate::hexfmt::hex_bytes_valid(nonce.spec_bytes())
                    && crate::hexfmt::hex_bytes_valid(signature.spec_bytes())),
            },
    {
        let ciphertext = crate::hexfmt::hex_decode(ciphertext)?;
        let encrypted_key = crate::hexfmt::hex_decode(encrypted_key)?;
        let nonce = crate::hexfmt::hex_decode(nonce)?;
        let signature = crate::hexfmt::hex_decode(signature)?;
        Some(SignedMagicLink { ciphertext, encrypted_key, nonce, signature })
    }

    /// The ciphertext field in hex.
    pub fn ciphertext_string(&self) -> (r: String)
        ensures
            r@ == crate::hexfmt::hex_chars_of(self@.ciphertext),
    {
        crate::hexfmt::hex_encode(self.ciphertext.as_slice())
    }

    /// The encrypted-key field in hex.
    pub fn encrypted_key_string(&self) -> (r: String)
        ensures
            r@ == crate::hexfmt::hex_chars_of(self@.encrypted_key),
    {
        crate::hexfmt::hex_encode(self.encrypted_key.as_slice())
    }

    /// The nonce field in hex.
    pub fn nonce_string(&self) -> (r: String)
        ensures
            r@ == crate::hexfmt::hex_chars_of(self@.nonce),
    {
        crate::hexfmt::hex_encode(self.nonce.as_slice())
    }

    /// The signature field in hex.
    pub fn signature_string(&self) -> (r: String)
        ensures
            r@ == crate::hexfmt::hex_chars_of(self@.signature),
    {
        crate::hexfmt::hex_encode(self.signature.as_slice())
    }

    /// Check the signature over the encrypted key under the signer's public
    /// key.
    pub fn verify(&self, public_key_der: &Vec<u8>) -> (r: bool)
        ensures
            r == crate::crypto::rsa_verify_ok(public_key_der@, self@.encrypted_key, self@.signature),
    {
        crate::crypto::rsa_verify(
            public_key_der,
            self.encrypted_key.as_slice(),
            self.signature.as_slice(),
        )
    }

    /// Verify the signature, then unseal the payload.
    ///
    /// An envelope whose signature fails verification is rejected without
    /// attempting decryption. Past the signature check, success is exactly
    /// [`unsealed_payload_of`]: the call succeeds if and only if the
    /// decryption chain does, and returns precisely what it unseals.
    /// A verified envelope that seals some payload for the holder of a
    /// sound `decryption_key_der` unseals to exactly that payload: together
    /// with [`MagicLink::encrypt`] and [`EncryptedMagicLink::sign`] this is
    /// the round trip.
    pub fn unwrap(self, signing_public_key_der: &Vec<u8>, decryption_key_der: &Vec<u8>) -> (r:
        Result<MagicLink, String>)
        ensures
            !crate::crypto::rsa_verify_ok(signing_public_key_der@, self@.encrypted_key, self@.signature)
                ==> (r matches Err(e) && e@ == "Invalid signature"@),
            crate::crypto::rsa_verify_ok(signing_public_key_der@, self@.encrypted_key, self@.signature)
                ==> (r is Ok <==> unsealed_payload_of(decryption_key_der@, self@.envelope())
                is Some),
            r matches Ok(link) ==> unsealed_payload_of(decryption_key_der@, self@.envelope())
                == Some(link@),
            crate::crypto::rsa_verify_ok(signing_public_key_der@, self@.encrypted_key, self@.signature)
                ==> (r matches Err(e) ==> e@ == "Decryption failed"@),
            forall|m: MagicLinkView|
                (#[trigger] is_envelope_of(
                    self@.envelope(),
                    crate::crypto::rsa_public_der_of(decryption_key_der@),
                    m,
                ) && crate::crypto::rsa_verify_ok(
                    signing_public_key_der@,
                    self@.encrypted_key,
                    self@.signature,
                ) && crate::crypto::rsa_wf_keypair(decryption_key_der@)) ==> (r matches Ok(link)
                && link@ == m),
    {
        let ghost env = self@.envelope();
        let ghost sk = decryption_key_der@;
        let ghost pk = crate::crypto::rsa_public_der_of(sk);
        if !self.verify(signing_public_key_der) {
            return Err("Invalid signature".to_owned());
        }
        let key_bytes = match crate::crypto::rsa_decrypt(
            decryption_key_der,
            self.encrypted_key.as_slice(),
        ) {
            Some(k) => k,
            None => {
                proof {
                    assert(unsealed_payload_of(sk, env) is None);
                    assert forall|m: MagicLinkView| !(is_envelope_of(env, pk, m)
                        && crate::crypto::rsa_wf_keypair(sk)) by {
                        if is_envelope_of(env, pk, m) && crate::crypto::rsa_wf_keypair(sk) {
                            lemma_envelope_needs_key(env, sk, m);
                        }
                    }
                }
                return Err("Decryption failed".to_owned());
            },
        };
        if key_bytes.len() != 16 || self.nonce.len() != 12 {
            proof {
                assert(unsealed_payload_of(sk, env) is None);
                assert forall|m: MagicLinkView| !(is_envelope_of(env, pk, m)
                    && crate::crypto::rsa_wf_keypair(sk)) by {
                    if is_envelope_of(env, pk, m) && crate::crypto::rsa_wf_keypair(sk) {
                        lemma_envelope_key(env, sk, m, key_bytes@);
                    }
                }
            }
            return Err("Decryption failed".to_owned());
        }
        let key16 = crate::bytesutil::bytes16_from_slice(key_bytes.as_slice());
        let nonce12 = crate::bytesutil::bytes12_from_slice(self.nonce.as_slice());
        let plaintext = match crate::crypto::aes128_gcm_decrypt(
            &key16,
            &nonce12,
            self.ciphertext.as_slice(),
        ) {
            Some(p) => p,
            None => {
                proof {
                    assert(unsealed_payload_of(sk, env) is None);
                    assert forall|m: MagicLinkView| !(is_envelope_of(env, pk, m)
                        && crate::crypto::rsa_wf_keypair(sk)) by {
                        if is_envelope_of(env, pk, m) && crate::crypto::rsa_wf_keypair(sk) {
                            lemma_envelope_key(env, sk, m, key_bytes@);
                            assert(env.ciphertext == crate::crypto::aes_ct_of(
                                key16@,
                                nonce12@,
                                encode_of(m),
                            ));
                        }
                    }
                }
                return Err("Decryption failed".to_owned());
            },
        };
        match decode_link(plaintext.as_slice()) {
            Some(link) => {
                proof {
                    assert(unsealed_payload_of(sk, env) == Some(link@));
                    assert forall|m: MagicLinkView| (is_envelope_of(env, pk, m)
                        && crate::crypto::rsa_wf_keypair(sk)) implies link@ == m by {
                        lemma_envelope_key(env, sk, m, key_bytes@);
                        assert(env.ciphertext == crate::crypto::aes_ct_of(
                            key16@,
                            nonce12@,
                            encode_of(m),
                        ));
                        assert(plaintext@ == encode_of(m));
                        lemma_codec_round_trip(m);
                    }
                }
                Ok(link)
            },
            None => {
                proof {
                    assert(unsealed_payload_of(sk, env) is None);
                    assert forall|m: MagicLinkView| !(is_envelope_of(env, pk, m)
                        && crate::crypto::rsa_wf_keypair(sk)) by {
                        if is_envelope_of(env, pk, m) && crate::crypto::rsa_wf_keypair(sk) {
                            lemma_envelope_key(env, sk, m, key_bytes@);
                            assert(env.ciphertext == crate::crypto::aes_ct_of(
                                key16@,
                                nonce12@,
                                encode_of(m),
                            ));
                            assert(plaintext@ == encode_of(m));
                            lemma_codec_round_trip(m);
                        }
                    }
                }
                Err("Decryption failed".to_owned())
            },
        }
    }
}

/// The payload a verified envelope unseals to for the holder of a private
/// key: the key field must decrypt to a 16-byte AES key, the sealed bytes
/// must authenticate and decrypt under it and the envelope's nonce, and the
/// plaintext must parse as a link.
pub open spec fn unsealed_payload_of(private_der: Seq<u8>, env: EncryptedMagicLinkView) -> Option<
    MagicLinkView,
> {
    match crate::crypto::rsa_decrypt_of(private_der, env.encrypted_key) {
        None => None,
        Some(k) => if k.len() == 16 && env.nonce.len() == 12 {
            match crate::crypto::aes_pt_of(k, env.nonce, env.ciphertext) {
                None => None,
                Some(pt) => decode_of(pt),
            }
        } else {
            None
        },
    }
}

/// An envelope sealing some payload has a decryptable key field.
proof fn lemma_envelope_needs_key(env: EncryptedMagicLinkView, sk: Seq<u8>, m: MagicLinkView)
    requires
        crate::crypto::rsa_wf_keypair(sk),
        is_envelope_of(env, crate::crypto::rsa_public_der_of(sk), m),
    ensures
        crate::crypto::rsa_decrypt_of(sk, env.encrypted_key) is Some,
{
    let pk = crate::crypto::rsa_public_der_of(sk);
    let k = choose|k: Seq<u8>| {
        &&& crate::crypto::rsa_encapsulates(pk, env.encrypted_key, k)
        &&& k.len() == 16
        &&& env.nonce.len() == 12
        &&& env.ciphertext == #[trigger] crate::crypto::aes_ct_of(k, env.nonce, encode_of(m))
    };
    assert(crate::crypto::rsa_decrypt_of(sk, env.encrypted_key) == Some(k));
}

/// The sealed AES key of an envelope is what the private key decrypts its
/// key field to.
proof fn lemma_envelope_key(
    env: EncryptedMagicLinkView,
    sk: Seq<u8>,
    m: MagicLinkView,
    key: Seq<u8>,
)
    requires
        crate::crypto::rsa_wf_keypair(sk),
        is_envelope_of(env, crate::crypto::rsa_public_der_of(sk), m),
        crate::crypto::rsa_decrypt_of(sk, env.encrypted_key) == Some(key),
    ensures
        key.len() == 16,
        env.nonce.len() == 12,
        env.ciphertext == crate::crypto::aes_ct_of(key, env.nonce, encode_of(m)),
        link_wf(m),
{
    let pk = crate::crypto::rsa_public_der_of(sk);
    let k = choose|k: Seq<u8>| {
        &&& crate::crypto::rsa_encapsulates(pk, env.encrypted_key, k)
        &&& k.len() == 16
        &&& env.nonce.len() == 12
        &&& env.ciphertext == #[trigger] crate::crypto::aes_ct_of(k, env.nonce, encode_of(m))
    };
    assert(crate::crypto::rsa_decrypt_of(sk, env.encrypted_key) == Some(k));
    assert(k == key);
}

} // verus!
