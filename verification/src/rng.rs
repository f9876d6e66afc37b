//! The deterministic randomness service: a seeded PRNG of the `rand` crate
//! held behind trusted draw wrappers, and the verification-code generator.

use vstd::prelude::*;

verus! {

use crate::text::ascii_chars;

#[verifier::external_type_specification]
#[verifier::external_body]
pub struct ExStdRng(rand::rngs::StdRng);

/// The big-endian bytes of a 64-bit number.
pub open spec fn be_bytes_of_u64(v: u64) -> Seq<u8> {
    seq![
        (v / 0x100_0000_0000_0000 % 256) as u8,
        (v / 0x1_0000_0000_0000 % 256) as u8,
        (v / 0x100_0000_0000 % 256) as u8,
        (v / 0x1_0000_0000 % 256) as u8,
        (v / 0x100_0000 % 256) as u8,
        (v / 0x1_0000 % 256) as u8,
        (v / 0x100 % 256) as u8,
        (v % 256) as u8,
    ]
}

/// The PRNG seed derived from the salt and host entropy: when entropy is
/// present its big-endian bytes replace the first eight salt bytes.
pub fn seed_with_entropy(salt: [u8; 32], entropy: u64) -> (r: [u8; 32])
    ensures
        entropy == 0 ==> r@ == salt@,
        entropy > 0 ==> r@ == be_bytes_of_u64(entropy) + salt@.skip(8),
{
    if entropy == 0 {
        return salt;
    }
    let r: [u8; 32] = [
        (entropy / 0x100_0000_0000_0000 % 256) as u8,
        (entropy / 0x1_0000_0000_0000 % 256) as u8,
        (entropy / 0x100_0000_0000 % 256) as u8,
        (entropy / 0x1_0000_0000 % 256) as u8,
        (entropy / 0x100_0000 % 256) as u8,
        (entropy / 0x1_0000 % 256) as u8,
        (entropy / 0x100 % 256) as u8,
        (entropy % 256) as u8,
        salt[8], salt[9], salt[10], salt[11], salt[12], salt[13], salt[14], salt[15],
        salt[16], salt[17], salt[18], salt[19], salt[20], salt[21], salt[22], salt[23],
        salt[24], salt[25], salt[26], salt[27], salt[28], salt[29], salt[30], salt[31],
    ];
    proof {
        assert(r@ =~= be_bytes_of_u64(entropy) + salt@.skip(8));
    }
    r
}

/// Relies on `rand::SeedableRng::from_seed` for `StdRng`.
#[verifier::external_body]
pub fn rng_from_seed(seed: [u8; 32]) -> rand::rngs::StdRng {
    <rand::rngs::StdRng as rand::SeedableRng>::from_seed(seed)
}

/// Relies on `rand::Rng::gen` for 32-byte arrays; the result is random.
#[verifier::external_body]
pub fn random_bytes(rng: &mut rand::rngs::StdRng) -> [u8; 32] {
    rand::Rng::gen(rng)
}

/// Relies on `rand::Rng::gen` for 16-byte arrays; the result is random.
#[verifier::external_body]
pub fn random_bytes16(rng: &mut rand::rngs::StdRng) -> [u8; 16] {
    rand::Rng::gen(rng)
}

/// Relies on `rand::Rng::gen` for 12-byte arrays; the result is random.
#[verifier::external_body]
pub fn random_bytes12(rng: &mut rand::rngs::StdRng) -> [u8; 12] {
    rand::Rng::gen(rng)
}

/// Relies on `rand::Rng::gen` for `u64`; the result is random.
#[verifier::external_body]
pub fn random_u64(rng: &mut rand::rngs::StdRng) -> u64 {
    rand::Rng::gen(rng)
}

/// Relies on `rand::Rng::gen_range`: the result lies in the requested range.
#[verifier::external_body]
fn random_digit(rng: &mut rand::rngs::StdRng) -> (r: u8)
    ensures
        r < 10,
{
    rand::Rng::gen_range(rng, 0..10u8)
}

/// Draw a six-digit verification code, each digit uniform.
pub fn generate_verification_code(rng: &mut rand::rngs::StdRng) -> (r: String)
    ensures
        r@.len() == 6,
        forall|i: int| 0 <= i < 6 ==> 48 <= #[trigger] (r@[i] as u32) <= 57,
{
    let mut digits: Vec<u8> = Vec::new();
    let mut i: usize = 0;
    while i < 6
        invariant
            i <= 6,
            digits@.len() == i,
            forall|j: int| 0 <= j < i ==> 48 <= #[trigger] digits@[j] <= 57,
        decreases 6 - i,
    {
        let d = random_digit(rng);
        digits.push(48 + d);
        i = i + 1;
    }
    let code = crate::text::ascii_to_string(digits);
    proof {
        assert(forall|j: int| 0 <= j < 6 ==> 48 <= #[trigger] (code@[j] as u32) <= 57);
    }
    code
}

/// The deterministic PRNG of a deployment: the salt mixed with host
/// entropy, handed to the seeded generator.
pub fn seeded_rng(salt: [u8; 32], entropy: u64) -> rand::rngs::StdRng {
    rng_from_seed(seed_with_entropy(salt, entropy))
}

/// Generate a fresh 2048-bit RSA private key in PKCS#8 DER form. A
/// generated key is a sound keypair and can sign.
pub fn generate_rsa_private_key(rng: &mut rand::rngs::StdRng) -> (r: Option<Vec<u8>>)
    ensures
        r matches Some(der) ==> crate::crypto::rsa_wf_keypair(der@)
            && crate::crypto::rsa_can_sign(der@),
{
    crate::crypto::rsa_generate_private_key_der(rng, 2048)
}

} // verus!
