//! Seed derivation and the canonical delegation message hash.
//!
//! Both are wire contracts: the seed is the hash of a length-prefixed
//! concatenation of salt and email bytes, and the delegation message hash is
//! the domain-separated representation-independent hash of the ordered field
//! map `{"pubkey", "expiration"}` that relying parties re-derive.

use vstd::prelude::*;

verus! {

use crate::Hash32;
use crate::api::{Delegation, DelegationView};
use crate::email::ValidatedEmail;

/// What `sha2::Sha256` returns: the SHA-256 digest of the input.
pub uninterp spec fn sha256_of(data: Seq<u8>) -> Seq<u8>;

/// Relies on `sha2::Sha256`: the digest depends on the input bytes alone.
#[verifier::external_body]
pub fn sha256(data: &[u8]) -> (r: Hash32)
    ensures
        r@ == sha256_of(data@),
{
    let mut hasher = <sha2::Sha256 as sha2::Digest>::new();
    sha2::Digest::update(&mut hasher, data);
    <sha2::Sha256 as sha2::Digest>::finalize(hasher).into()
}

/// The unsigned LEB128 encoding of a number.
pub open spec fn leb128_of(v: nat) -> Seq<u8>
    decreases v,
{
    if v < 128 {
        seq![v as u8]
    } else {
        seq![(v % 128 + 128) as u8] + leb128_of(v / 128)
    }
}

/// Encode a number as unsigned LEB128.
pub fn leb128_encode(v: u64) -> (r: Vec<u8>)
    ensures
        r@ == leb128_of(v as nat),
{
    let mut out: Vec<u8> = Vec::new();
    let mut x: u64 = v;
    while x >= 128
        invariant
            leb128_of(v as nat) == out@ + leb128_of(x as nat),
        decreases x,
    {
        out.push((x % 128 + 128) as u8);
        x = x / 128;
        proof {
            assert(leb128_of(v as nat) =~= out@ + leb128_of(x as nat));
        }
    }
    out.push(x as u8);
    proof {
        assert(leb128_of(x as nat) =~= seq![x as u8]);
        assert(out@ =~= leb128_of(v as nat));
    }
    out
}

/// Strict lexicographic order on byte strings.
pub open spec fn lex_less(a: Seq<u8>, b: Seq<u8>) -> bool
    decreases a.len(),
{
    if b.len() == 0 {
        false
    } else if a.len() == 0 {
        true
    } else if a[0] < b[0] {
        true
    } else if a[0] > b[0] {
        false
    } else {
        lex_less(a.drop_first(), b.drop_first())
    }
}

/// Compare two byte slices in lexicographic order.
pub fn lex_less_bytes(a: &[u8], b: &[u8]) -> (r: bool)
    ensures
        r == lex_less(a@, b@),
{
    let mut i: usize = 0;
    proof {
        assert(a@.skip(0) =~= a@);
        assert(b@.skip(0) =~= b@);
    }
    loop
        invariant
            i <= a@.len(),
            i <= b@.len(),
            lex_less(a@, b@) == lex_less(a@.skip(i as int), b@.skip(i as int)),
        decreases a@.len() - i,
    {
        if i == b.len() {
            return false;
        }
        if i == a.len() {
            return true;
        }
        let x = a[i];
        let y = b[i];
        if x < y {
            return true;
        }
        if x > y {
            return false;
        }
        proof {
            assert(a@.skip(i as int).drop_first() =~= a@.skip(i as int + 1));
            assert(b@.skip(i as int).drop_first() =~= b@.skip(i as int + 1));
        }
        i = i + 1;
    }
}

/// Append a byte slice to a vector.
pub fn extend_bytes(out: &mut Vec<u8>, more: &[u8])
    ensures
        final(out)@ == old(out)@ + more@,
{
    let mut i: usize = 0;
    while i < more.len()
        invariant
            i <= more@.len(),
            out@ == old(out)@ + more@.take(i as int),
        decreases more@.len() - i,
    {
        out.push(more[i]);
        proof {
            assert(out@ =~= old(out)@ + more@.take(i as int + 1));
        }
        i = i + 1;
    }
    proof {
        assert(out@ =~= old(out)@ + more@);
    }
}

/// The preimage hashed for seed derivation: each part prefixed by its length
/// as a single byte.
pub open spec fn seed_preimage(salt: Seq<u8>, email_bytes: Seq<u8>) -> Seq<u8> {
    seq![salt.len() as u8] + salt + seq![email_bytes.len() as u8] + email_bytes
}

/// The pseudonymous seed of an email under a deployment salt.
pub open spec fn seed_of(salt: Seq<u8>, email: Seq<char>) -> Seq<u8> {
    sha256_of(seed_preimage(salt, vstd::utf8::encode_utf8(email)))
}

/// Derive the stable 32-byte seed of `(salt, email)`.
///
/// Deterministic: the result is a function of the two arguments alone, so
/// repeated calls on equal inputs return identical bytes.
pub fn calculate_seed(salt: [u8; 32], email: &ValidatedEmail) -> (r: Hash32)
    ensures
        r@ == seed_of(salt@, email@),
{
    let mut bytes: Vec<u8> = Vec::new();
    bytes.push(32u8);
    extend_bytes(&mut bytes, salt.as_slice());
    let email_bytes = email.as_bytes();
    bytes.push(email_bytes.len() as u8);
    extend_bytes(&mut bytes, email_bytes);
    proof {
        assert(bytes@ =~= seed_preimage(salt@, vstd::utf8::encode_utf8(email@)));
    }
    sha256(bytes.as_slice())
}

/// Repeated derivations of the same salt and email agree.
pub proof fn lemma_seed_deterministic(salt: Seq<u8>, email1: Seq<char>, email2: Seq<char>)
    requires
        email1 == email2,
    ensures
        seed_of(salt, email1) == seed_of(salt, email2),
{
}

/// The bytes of `"ic-request-auth-delegation"`, the delegation signature
/// domain separator.
pub open spec fn delegation_domain_sep() -> Seq<u8> {
    seq![
        105u8, 99, 45, 114, 101, 113, 117, 101, 115, 116, 45, 97, 117, 116, 104, 45, 100, 101,
        108, 101, 103, 97, 116, 105, 111, 110,
    ]
}

/// The bytes of `"pubkey"`.
pub open spec fn pubkey_field_name() -> Seq<u8> {
    seq![112u8, 117, 98, 107, 101, 121]
}

/// The bytes of `"expiration"`.
pub open spec fn expiration_field_name() -> Seq<u8> {
    seq![101u8, 120, 112, 105, 114, 97, 116, 105, 111, 110]
}

/// The representation-independent hash of the delegation's field map: the
/// per-field `sha256(name) + sha256(value)` strings in ascending
/// lexicographic order, concatenated and hashed.
pub open spec fn delegation_map_hash_of(d: DelegationView) -> Seq<u8> {
    let pubkey_entry = sha256_of(pubkey_field_name()) + sha256_of(d.pubkey);
    let expiration_entry = sha256_of(expiration_field_name())
        + sha256_of(leb128_of(d.expiration as nat));
    if lex_less(pubkey_entry, expiration_entry) {
        sha256_of(pubkey_entry + expiration_entry)
    } else {
        sha256_of(expiration_entry + pubkey_entry)
    }
}

/// The canonical message hash signed for a delegation: the field-map hash
/// under the delegation domain separator, the separator prefixed by its
/// length as a single byte.
pub open spec fn delegation_msg_hash_of(d: DelegationView) -> Seq<u8> {
    sha256_of(seq![26u8] + delegation_domain_sep() + delegation_map_hash_of(d))
}

/// Compute the canonical, domain-separated message hash of a delegation.
pub fn delegation_signature_msg_hash(d: &Delegation) -> (r: Hash32)
    ensures
        r@ == delegation_msg_hash_of(d@),
{
    let pubkey_name: Vec<u8> = vec![112u8, 117, 98, 107, 101, 121];
    let expiration_name: Vec<u8> = vec![
        101u8, 120, 112, 105, 114, 97, 116, 105, 111, 110,
    ];
    proof {
        assert(pubkey_name@ =~= pubkey_field_name());
        assert(expiration_name@ =~= expiration_field_name());
    }

    let leb = leb128_encode(d.expiration);

    let pubkey_name_hash = sha256(pubkey_name.as_slice());
    let pubkey_value_hash = sha256(d.pubkey.as_slice());
    let expiration_name_hash = sha256(expiration_name.as_slice());
    let expiration_value_hash = sha256(leb.as_slice());

    let mut pubkey_entry: Vec<u8> = Vec::new();
    extend_bytes(&mut pubkey_entry, pubkey_name_hash.as_slice());
    extend_bytes(&mut pubkey_entry, pubkey_value_hash.as_slice());
    let mut expiration_entry: Vec<u8> = Vec::new();
    extend_bytes(&mut expiration_entry, expiration_name_hash.as_slice());
    extend_bytes(&mut expiration_entry, expiration_value_hash.as_slice());

    let mut joined: Vec<u8> = Vec::new();
    if lex_less_bytes(pubkey_entry.as_slice(), expiration_entry.as_slice()) {
        extend_bytes(&mut joined, pubkey_entry.as_slice());
        extend_bytes(&mut joined, expiration_entry.as_slice());
    } else {
        extend_bytes(&mut joined, expiration_entry.as_slice());
        extend_bytes(&mut joined, pubkey_entry.as_slice());
    }
    let map_hash = sha256(joined.as_slice());

    let mut message: Vec<u8> = Vec::new();
    message.push(26u8);
    extend_bytes(&mut message, delegation_domain_sep_bytes().as_slice());
    extend_bytes(&mut message, map_hash.as_slice());
    proof {
        assert(message@ =~= seq![26u8] + delegation_domain_sep() + delegation_map_hash_of(d@));
    }
    sha256(message.as_slice())
}

/// The delegation domain separator as a vector.
fn delegation_domain_sep_bytes() -> (r: Vec<u8>)
    ensures
        r@ == delegation_domain_sep(),
{
    let r: Vec<u8> = vec![
        105u8, 99, 45, 114, 101, 113, 117, 101, 115, 116, 45, 97, 117, 116, 104, 45, 100, 101,
        108, 101, 103, 97, 116, 105, 111, 110,
    ];
    proof {
        assert(r@ =~= delegation_domain_sep());
    }
    r
}

} // verus!
