//! Passwordless email-authentication identity provider core.
//!
//! The library derives stable pseudonymous identities (seeds) from emails,
//! runs the verification-code / magic-link challenge state machine with
//! escalating rate limits, implements the encrypt-then-sign magic-link
//! envelope protocol, and maintains the delegation-signature bookkeeping.
//! Host concerns (clock, randomness beacon, certified data, outbound email)
//! enter as plain values; cryptographic primitives of outside crates are
//! called through narrow trusted wrappers.

use vstd::prelude::*;

pub mod api;
pub mod assoc;
pub mod bytesutil;
pub mod codec;
pub mod config;
pub mod crypto;
pub mod email;
pub mod email_stats;
pub mod hashing;
pub mod hexfmt;
pub mod magic_links;
pub mod rng;
pub mod sender;
pub mod signatures;
pub mod state;
pub mod text;
pub mod verification_codes;

verus! {

use crate::email::ValidatedEmail;

/// A duration in milliseconds.
pub type Milliseconds = u64;

/// A duration in nanoseconds.
pub type Nanoseconds = u64;

/// A timestamp in milliseconds since the Unix epoch.
pub type TimestampMillis = u64;

/// A timestamp in nanoseconds since the Unix epoch.
pub type TimestampNanos = u64;

/// A 32-byte hash value (seeds, message hashes).
pub type Hash32 = [u8; 32];

pub const ONE_MINUTE: Milliseconds = 60 * 1000;

pub const NANOS_PER_MILLISECOND: u64 = 1_000_000;

/// The session length granted when the caller asks for none.
pub const DEFAULT_SESSION_EXPIRATION_PERIOD: Nanoseconds = 30 * 24 * 60 * 60 * 1_000_000_000;

/// The longest session a caller can ask for.
pub const MAX_SESSION_EXPIRATION_PERIOD: Nanoseconds = 90 * 24 * 60 * 60 * 1_000_000_000;

/// Milliseconds since the epoch for a host time in nanoseconds.
pub fn now(now_nanos: TimestampNanos) -> (r: TimestampMillis)
    ensures
        r == now_nanos / NANOS_PER_MILLISECOND,
{
    now_nanos / NANOS_PER_MILLISECOND
}

/// The delegation expiration granted at `now_millis` for a requested time to
/// live: the request (or the default) capped by the maximum, added to the
/// current time in nanoseconds, saturating.
pub open spec fn session_expiration(now_millis: u64, max_time_to_live: Option<u64>) -> u64 {
    let requested = match max_time_to_live {
        None => DEFAULT_SESSION_EXPIRATION_PERIOD,
        Some(v) => v,
    };
    let delta = if requested < MAX_SESSION_EXPIRATION_PERIOD {
        requested
    } else {
        MAX_SESSION_EXPIRATION_PERIOD
    };
    let now_nanos = now_millis * NANOS_PER_MILLISECOND;
    if now_nanos + delta > u64::MAX {
        u64::MAX
    } else {
        (now_nanos + delta) as u64
    }
}

/// Bundle a challenge for `email`: derive its seed and grant the session key
/// a bounded time to live from `now`.
pub fn generate_magic_link(
    email: ValidatedEmail,
    session_key: Vec<u8>,
    max_time_to_live: Option<Nanoseconds>,
    salt: [u8; 32],
    now: TimestampMillis,
) -> (r: codec::MagicLink)
    requires
        session_key@.len() < 0x1_0000_0000,
        now <= u64::MAX / NANOS_PER_MILLISECOND,
    ensures
        r@ == (codec::MagicLinkView {
            created: now,
            seed: hashing::seed_of(salt@, email@),
            delegation: api::DelegationView {
                pubkey: session_key@,
                expiration: session_expiration(now, max_time_to_live),
            },
            code: None,
        }),
{
    let seed = hashing::calculate_seed(salt, &email);
    let requested = match max_time_to_live {
        Some(v) => v,
        None => DEFAULT_SESSION_EXPIRATION_PERIOD,
    };
    let delta = if requested < MAX_SESSION_EXPIRATION_PERIOD {
        requested
    } else {
        MAX_SESSION_EXPIRATION_PERIOD
    };
    let now_nanos = now * NANOS_PER_MILLISECOND;
    let expiration = if now_nanos > u64::MAX - delta {
        u64::MAX
    } else {
        now_nanos + delta
    };
    codec::MagicLink::new(seed, api::Delegation { pubkey: session_key, expiration }, now)
}

} // verus!
