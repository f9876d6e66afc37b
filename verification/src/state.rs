//! The process-wide identity state: salt, keypair, challenge stores,
//! delegation bookkeeping, sender configuration and statistics, with the
//! operations the call layer exposes.
//!
//! The host hands every operation the current time, the canister identity
//! and (for delegation lookups) the certified signature bytes as plain
//! values; after any operation that commits a signature the shell must
//! republish the certified root.

use vstd::prelude::*;

verus! {

use vstd::string::StringSliceAdditionalSpecFns;

use crate::{Hash32, Milliseconds, TimestampMillis, NANOS_PER_MILLISECOND};
use crate::api::{
    Delegation, GetDelegationResponse, SignedDelegation, SubmitVerificationCodeResponse,
    SubmitVerificationCodeSuccess,
};
use crate::codec::{link_expired, is_envelope_of, MagicLink, MagicLinkView, SignedMagicLink};
use crate::config::{ConfigView, EmailSenderConfig};
use crate::email::ValidatedEmail;
use crate::email_stats::{EmailStats, EmailStatsMap, record_sent};
use crate::hashing::{calculate_seed, delegation_msg_hash_of, delegation_signature_msg_hash, seed_of};
use crate::magic_links::{pair_key, prune_map, MagicLinks};
use crate::signatures::{signature_expiry, SignatureStore};
use crate::verification_codes::{
    check_codes, check_fails, check_outcome, push_codes, push_fails, push_result, CheckOutcome,
    CheckVerificationCodeError, CodeView, FailView, VerificationCodes,
};

/// What the delegation-signature public key of `(canister, seed)` DER-encodes
/// to: the result of `ic_canister_sig_creation::CanisterSigPublicKey::to_der`.
pub uninterp spec fn canister_sig_key_der_of(canister_id: Seq<u8>, seed: Seq<u8>) -> Seq<u8>;

/// Relies on `ic_canister_sig_creation::CanisterSigPublicKey::to_der` (with
/// `candid::Principal::from_slice` converting the canister identity bytes):
/// the DER self-authenticating key of `(canister, seed)`.
#[verifier::external_body]
fn canister_sig_key_der(canister_id: &Vec<u8>, seed: &Hash32) -> (r: Vec<u8>)
    requires
        canister_id@.len() <= 29,
    ensures
        r@ == canister_sig_key_der_of(canister_id@, seed@),
{
    let principal = candid::Principal::from_slice(canister_id.as_slice());
    ic_canister_sig_creation::CanisterSigPublicKey::new(principal, seed.to_vec()).to_der()
}

/// What `candid::Principal::self_authenticating` returns on a DER public
/// key: the bytes of the derived self-authenticating principal.
pub uninterp spec fn self_authenticating_of(public_key_der: Seq<u8>) -> Seq<u8>;

/// Relies on `candid::Principal::self_authenticating`: a function of the
/// given public key bytes alone.
#[verifier::external_body]
fn self_authenticating_principal(public_key_der: &Vec<u8>) -> (r: Vec<u8>)
    ensures
        r@ == self_authenticating_of(public_key_der@),
{
    candid::Principal::self_authenticating(public_key_der.as_slice()).as_slice().to_vec()
}

/// The outcome of presenting a magic link at the auth endpoint.
pub enum AuthResult {
    Success,
    RequiresUpgrade,
    LinkExpired,
    CodeIncorrect,
    LinkInvalid(String),
}

/// The mathematical value of the aggregate [`State`].
#[verifier::ext_equal]
pub struct StateView {
    pub signatures: Map<Seq<u8>, u64>,
    pub email_sender_config: Option<ConfigView>,
    pub email_sender_rsa_public_key: Seq<u8>,
    pub email_stats: Map<Seq<u8>, EmailStats>,
    pub magic_links: Map<Seq<u8>, u64>,
    pub codes: Map<Seq<u8>, CodeView>,
    pub fails: Map<Seq<u8>, FailView>,
    pub rsa_private_key: Option<Seq<u8>>,
    pub salt: Option<Seq<u8>>,
    pub test_mode: bool,
}

/// The aggregate state: the single mutable root of the provider.
pub struct State {
    signatures: SignatureStore,
    email_sender_config: Option<EmailSenderConfig>,
    email_sender_rsa_public_key: Vec<u8>,
    email_stats: EmailStatsMap,
    magic_links: MagicLinks,
    verification_codes: VerificationCodes,
    rsa_private_key: Option<Vec<u8>>,
    salt: Option<[u8; 32]>,
    test_mode: bool,
}

impl View for State {
    type V = StateView;

    closed spec fn view(&self) -> StateView {
        StateView {
            signatures: self.signatures@,
            email_sender_config: match self.email_sender_config {
                Some(ref c) => Some(c@),
                None => None,
            },
            email_sender_rsa_public_key: self.email_sender_rsa_public_key@,
            email_stats: self.email_stats@,
            magic_links: self.magic_links@,
            codes: self.verification_codes.codes_map(),
            fails: self.verification_codes.fails_map(),
            rsa_private_key: match self.rsa_private_key {
                Some(ref k) => Some(k@),
                None => None,
            },
            salt: match self.salt {
                Some(s) => Some(s@),
                None => None,
            },
            test_mode: self.test_mode,
        }
    }
}

impl State {
    /// Distinct keys in every store.
    pub closed spec fn wf(&self) -> bool {
        &&& self.signatures.wf()
        &&& self.email_stats.wf()
        &&& self.magic_links.wf()
        &&& self.verification_codes.wf()
    }

    /// A fresh state: empty stores, no salt, no keypair, no configuration.
    pub fn new(email_sender_public_key: Vec<u8>, test_mode: bool) -> (r: State)
        ensures
            r.wf(),
            r@ == (StateView {
                signatures: Map::empty(),
                email_sender_config: None,
                email_sender_rsa_public_key: email_sender_public_key@,
                email_stats: Map::empty(),
                magic_links: Map::empty(),
                codes: Map::empty(),
                fails: Map::empty(),
                rsa_private_key: None,
                salt: None,
                test_mode,
            }),
    {
        let r = State {
            signatures: SignatureStore::new(),
            email_sender_config: None,
            email_sender_rsa_public_key: email_sender_public_key,
            email_stats: EmailStatsMap::new(),
            magic_links: MagicLinks::new(),
            verification_codes: VerificationCodes::new(),
            rsa_private_key: None,
            salt: None,
            test_mode,
        };
        proof {
            assert(r@ =~= StateView {
                signatures: Map::empty(),
                email_sender_config: None,
                email_sender_rsa_public_key: r.email_sender_rsa_public_key@,
                email_stats: Map::empty(),
                magic_links: Map::empty(),
                codes: Map::empty(),
                fails: Map::empty(),
                rsa_private_key: None,
                salt: None,
                test_mode,
            });
        }
        r
    }

    /// The decrypted sender configuration, if one was installed.
    pub fn email_sender_config(&self) -> (r: &Option<EmailSenderConfig>)
        ensures
            match r {
                Some(c) => self@.email_sender_config == Some(c@),
                None => self@.email_sender_config is None,
            },
    {
        &self.email_sender_config
    }

    /// Install the decrypted sender configuration.
    pub fn set_email_sender_config(&mut self, config: EmailSenderConfig)
        requires
            old(self).wf(),
        ensures
            final(self).wf(),
            final(self)@ == (StateView { email_sender_config: Some(config@), ..old(self)@ }),
    {
        self.email_sender_config = Some(config);
        proof {
            assert(self@ =~= StateView { email_sender_config: Some(self@.email_sender_config.unwrap()), ..old(self)@ });
        }
    }

    /// The DER public key of the email sender, trusted to sign envelopes.
    pub fn email_sender_rsa_public_key(&self) -> (r: &Vec<u8>)
        ensures
            r@ == self@.email_sender_rsa_public_key,
    {
        &self.email_sender_rsa_public_key
    }

    /// The provider's own public key: `Some` exactly once a sound private
    /// key is installed, and then the DER derived from it.
    pub fn rsa_public_key(&self) -> (r: Option<Vec<u8>>)
        ensures
            r matches Some(pk) ==> self@.rsa_private_key matches Some(sk) && pk@
                == crate::crypto::rsa_public_der_of(sk),
            self@.rsa_private_key is None ==> r is None,
            (self@.rsa_private_key matches Some(sk) && crate::crypto::rsa_wf_keypair(sk)) ==> r
                is Some,
    {
        match &self.rsa_private_key {
            Some(sk) => crate::crypto::rsa_public_key_der(sk),
            None => None,
        }
    }

    /// The provider's private key DER, once initialized.
    pub fn rsa_private_key(&self) -> (r: &Option<Vec<u8>>)
        ensures
            match r {
                Some(k) => self@.rsa_private_key == Some(k@),
                None => self@.rsa_private_key is None,
            },
    {
        &self.rsa_private_key
    }

    /// Install the provider's private key.
    pub fn set_rsa_private_key(&mut self, private_key: Vec<u8>)
        requires
            old(self).wf(),
        ensures
            final(self).wf(),
            final(self)@ == (StateView { rsa_private_key: Some(private_key@), ..old(self)@ }),
    {
        self.rsa_private_key = Some(private_key);
        proof {
            assert(self@ =~= StateView { rsa_private_key: self@.rsa_private_key, ..old(self)@ });
        }
    }

    /// The deployment salt, once initialized.
    pub fn salt(&self) -> (r: Option<[u8; 32]>)
        ensures
            match r {
                Some(s) => self@.salt == Some(s@),
                None => self@.salt is None,
            },
    {
        self.salt
    }

    /// Whether seed derivation is possible yet.
    pub fn is_ready(&self) -> (r: bool)
        ensures
            r == (self@.salt is Some),
    {
        self.salt.is_some()
    }

    /// Fix the deployment salt. It is set exactly once per lifetime:
    /// rotating it would invalidate every derived identity.
    pub fn set_salt(&mut self, salt: [u8; 32])
        requires
            old(self).wf(),
            old(self)@.salt is None,
        ensures
            final(self).wf(),
            final(self)@ == (StateView { salt: Some(salt@), ..old(self)@ }),
    {
        self.salt = Some(salt);
        proof {
            assert(self@ =~= StateView { salt: Some(salt@), ..old(self)@ });
        }
    }

    /// Whether the deployment runs with the deterministic test escape hatch.
    pub fn test_mode(&self) -> (r: bool)
        ensures
            r == self@.test_mode,
    {
        self.test_mode
    }

    /// The seed of an email under the deployment salt.
    pub fn calculate_seed(&self, email: &ValidatedEmail) -> (r: Hash32)
        requires
            self@.salt is Some,
        ensures
            r@ == seed_of(self@.salt.unwrap(), email@),
    {
        let salt = match self.salt {
            Some(s) => s,
            None => {
                proof {
                    assert(false);
                }
                [0u8; 32]
            },
        };
        calculate_seed(salt, email)
    }

    /// The DER self-authenticating user key of a seed under this canister.
    pub fn der_encode_canister_sig_key(&self, canister_id: &Vec<u8>, seed: &Hash32) -> (r: Vec<
        u8,
    >)
        requires
            canister_id@.len() <= 29,
        ensures
            r@ == canister_sig_key_der_of(canister_id@, seed@),
    {
        canister_sig_key_der(canister_id, seed)
    }

    /// Store a verification-code challenge for `email`, or report the block.
    ///
    /// Returns the seed together with `Ok` when the challenge was stored and
    /// the code should be emailed, or the remaining block window.
    pub fn store_verification_code(
        &mut self,
        email: &ValidatedEmail,
        code: String,
        session_key: Vec<u8>,
        max_time_to_live: Option<u64>,
        now: TimestampMillis,
    ) -> (r: (Hash32, Result<(), Milliseconds>))
        requires
            old(self).wf(),
            old(self)@.salt is Some,
            session_key@.len() < 0x1_0000_0000,
            now <= u64::MAX / NANOS_PER_MILLISECOND,
        ensures
            final(self).wf(),
            r.0@ == seed_of(old(self)@.salt.unwrap(), email@),
            final(self)@ == (StateView {
                codes: push_codes(
                    old(self)@.codes,
                    old(self)@.fails,
                    r.0@,
                    vstd::utf8::encode_utf8(code@),
                    crate::api::DelegationView {
                        pubkey: session_key@,
                        expiration: crate::session_expiration(now, max_time_to_live),
                    },
                    now,
                ),
                fails: push_fails(old(self)@.codes, old(self)@.fails, r.0@, now),
                ..old(self)@
            }),
            r.1 == push_result(old(self)@.codes, old(self)@.fails, r.0@, now),
            r.1 matches Err(d) ==> d > 0,
    {
        let seed = self.calculate_seed(email);
        let requested = match max_time_to_live {
            Some(v) => v,
            None => crate::DEFAULT_SESSION_EXPIRATION_PERIOD,
        };
        let delta = if requested < crate::MAX_SESSION_EXPIRATION_PERIOD {
            requested
        } else {
            crate::MAX_SESSION_EXPIRATION_PERIOD
        };
        let now_nanos = now * NANOS_PER_MILLISECOND;
        let expiration = if now_nanos > u64::MAX - delta {
            u64::MAX
        } else {
            now_nanos + delta
        };
        let delegation = Delegation { pubkey: session_key, expiration };
        let result = self.verification_codes.push(seed, code, delegation, now);
        proof {
            assert(self@ =~= StateView {
                codes: self@.codes,
                fails: self@.fails,
                ..old(self)@
            });
        }
        (seed, result)
    }

    /// Redeem a verification code for `email`: on the correct code the
    /// delegation is signed (committed to the signature store, to be
    /// certified by the shell) and the DER user key comes back with the
    /// delegation's expiration.
    pub fn submit_verification_code(
        &mut self,
        email: &ValidatedEmail,
        code: &str,
        canister_id: &Vec<u8>,
        now: TimestampMillis,
    ) -> (r: SubmitVerificationCodeResponse)
        requires
            old(self).wf(),
            old(self)@.salt is Some,
            canister_id@.len() <= 29,
        ensures
            final(self).wf(),
            ({
                let seed = seed_of(old(self)@.salt.unwrap(), email@);
                let outcome = check_outcome(
                    old(self)@.codes,
                    old(self)@.fails,
                    seed,
                    code.spec_bytes(),
                    now,
                );
                let codes1 = check_codes(old(self)@.codes, seed, code.spec_bytes(), now);
                let fails1 = check_fails(
                    old(self)@.codes,
                    old(self)@.fails,
                    seed,
                    code.spec_bytes(),
                    now,
                );
                match outcome {
                    CheckOutcome::NotFound => r is NotFound && final(self)@ == (StateView {
                        codes: codes1,
                        fails: fails1,
                        ..old(self)@
                    }),
                    CheckOutcome::Matched(dv) => {
                        &&& (r matches SubmitVerificationCodeResponse::Success(s) && s.user_key@
                            == canister_sig_key_der_of(canister_id@, seed) && s.expiration
                            == dv.expiration)
                        &&& final(self)@ == (StateView {
                            codes: codes1,
                            fails: fails1,
                            signatures: prune_map(old(self)@.signatures, now).insert(
                                pair_key(seed, delegation_msg_hash_of(dv)),
                                signature_expiry(now),
                            ),
                            ..old(self)@
                        })
                    },
                    CheckOutcome::Wrong(ic) => r == SubmitVerificationCodeResponse::IncorrectCode(
                        ic,
                    ) && final(self)@ == (StateView {
                        codes: codes1,
                        fails: fails1,
                        ..old(self)@
                    }),
                }
            }),
    {
        let seed = self.calculate_seed(email);
        let result = self.verification_codes.check(seed, code, now);
        match result {
            Ok(delegation) => {
                let msg_hash = delegation_signature_msg_hash(&delegation);
                self.signatures.add(seed, msg_hash, now);
                let user_key = canister_sig_key_der(canister_id, &seed);
                let expiration = delegation.expiration;
                proof {
                    assert(self@ =~= StateView {
                        codes: self@.codes,
                        fails: self@.fails,
                        signatures: self@.signatures,
                        ..old(self)@
                    });
                }
                SubmitVerificationCodeResponse::Success(SubmitVerificationCodeSuccess {
                    user_key,
                    expiration,
                })
            },
            Err(CheckVerificationCodeError::NotFound) => {
                proof {
                    assert(self@ =~= StateView {
                        codes: self@.codes,
                        fails: self@.fails,
                        ..old(self)@
                    });
                }
                SubmitVerificationCodeResponse::NotFound
            },
            Err(CheckVerificationCodeError::Incorrect(ic)) => {
                proof {
                    assert(self@ =~= StateView {
                        codes: self@.codes,
                        fails: self@.fails,
                        ..old(self)@
                    });
                }
                SubmitVerificationCodeResponse::IncorrectCode(ic)
            },
        }
    }

    /// Look up the signature of a delegation.
    ///
    /// `certified_signature` is the host-certified signature bytes for the
    /// committed pair, when the host could produce them. A committed pair
    /// with bytes is a success; without bytes, or uncommitted, a still
    /// in-flight link answers `Active` with its expiration, and anything
    /// else is unknown.
    pub fn get_delegation(
        &self,
        email: &ValidatedEmail,
        delegation: Delegation,
        now: TimestampMillis,
        certified_signature: Option<Vec<u8>>,
    ) -> (r: GetDelegationResponse)
        requires
            self.wf(),
            self@.salt is Some,
        ensures
            ({
                let seed = seed_of(self@.salt.unwrap(), email@);
                let key = pair_key(seed, delegation_msg_hash_of(delegation@));
                let committed = self@.signatures.contains_key(key);
                let in_flight = self@.magic_links.contains_key(key) && self@.magic_links[key]
                    > now;
                match r {
                    GetDelegationResponse::Success(sd) => committed && (certified_signature
                        matches Some(sig) && sd.signature@ == sig@) && sd.delegation@
                        == delegation@,
                    GetDelegationResponse::Active(exp) => !(committed && certified_signature
                        is Some) && in_flight && exp == self@.magic_links[key],
                    GetDelegationResponse::NotFound => !(committed && certified_signature is Some)
                        && !in_flight,
                }
            }),
    {
        let seed = self.calculate_seed(email);
        let msg_hash = delegation_signature_msg_hash(&delegation);
        if self.signatures.contains(seed, msg_hash) {
            if let Some(signature) = certified_signature {
                return GetDelegationResponse::Success(SignedDelegation { delegation, signature });
            }
        }
        match self.magic_links.get(seed, msg_hash, now) {
            Some(expiration) => GetDelegationResponse::Active(expiration),
            None => GetDelegationResponse::NotFound,
        }
    }

    /// Commit the delegation of a link that is still fresh: a stale link
    /// changes nothing and reports failure.
    pub fn process_magic_link(&mut self, magic_link: MagicLink, now: TimestampMillis) -> (r: bool)
        requires
            old(self).wf(),
        ensures
            final(self).wf(),
            r == !link_expired(magic_link@, now),
            r ==> final(self)@ == (StateView {
                signatures: prune_map(old(self)@.signatures, now).insert(
                    pair_key(
                        magic_link@.seed,
                        delegation_msg_hash_of(magic_link@.delegation),
                    ),
                    signature_expiry(now),
                ),
                ..old(self)@
            }),
            !r ==> final(self)@ == old(self)@,
    {
        if !magic_link.expired(now) {
            let msg_hash = delegation_signature_msg_hash(magic_link.delegation());
            self.signatures.add(magic_link.seed(), msg_hash, now);
            proof {
                assert(self@ =~= StateView { signatures: self@.signatures, ..old(self)@ });
            }
            true
        } else {
            false
        }
    }

    /// Record that a magic link went out: index the pending delegation and
    /// count the email.
    pub fn record_magic_link_sent(
        &mut self,
        seed: Hash32,
        delegation: &Delegation,
        now: TimestampMillis,
    )
        requires
            old(self).wf(),
        ensures
            final(self).wf(),
            final(self)@ == (StateView {
                magic_links: prune_map(old(self)@.magic_links, now).insert(
                    pair_key(seed@, delegation_msg_hash_of(delegation@)),
                    delegation@.expiration / NANOS_PER_MILLISECOND,
                ),
                email_stats: record_sent(old(self)@.email_stats, seed@, now),
                ..old(self)@
            }),
    {
        let msg_hash = delegation_signature_msg_hash(delegation);
        self.magic_links.push(seed, msg_hash, delegation.expiration / NANOS_PER_MILLISECOND, now);
        self.email_stats.record_email_sent(seed, now);
        proof {
            assert(self@ =~= StateView {
                magic_links: self@.magic_links,
                email_stats: self@.email_stats,
                ..old(self)@
            });
        }
    }

    /// The pseudonymous principal of an email under this canister: the
    /// self-authenticating principal of the seed's DER key.
    pub fn get_principal(&self, email: &ValidatedEmail, canister_id: &Vec<u8>) -> (r: Vec<u8>)
        requires
            self@.salt is Some,
            canister_id@.len() <= 29,
        ensures
            r@ == self_authenticating_of(
                canister_sig_key_der_of(canister_id@, seed_of(self@.salt.unwrap(), email@)),
            ),
    {
        let seed = self.calculate_seed(email);
        let user_key = canister_sig_key_der(canister_id, &seed);
        self_authenticating_principal(&user_key)
    }

    /// The delegation of the pending challenge for `email`, if one is
    /// stored: the pair the shell certifies when the code is redeemed.
    pub fn pending_challenge_delegation(&self, email: &ValidatedEmail) -> (r: Option<Delegation>)
        requires
            self.wf(),
            self@.salt is Some,
        ensures
            ({
                let seed = seed_of(self@.salt.unwrap(), email@);
                match r {
                    Some(d) => self@.codes.contains_key(seed) && self@.codes[seed].delegation
                        == d@,
                    None => !self@.codes.contains_key(seed),
                }
            }),
    {
        let seed = self.calculate_seed(email);
        self.verification_codes.delegation_of(&seed)
    }

    /// Count one more email sent for `seed`.
    pub fn record_email_sent(&mut self, seed: Hash32, now: TimestampMillis)
        requires
            old(self).wf(),
        ensures
            final(self).wf(),
            final(self)@ == (StateView {
                email_stats: record_sent(old(self)@.email_stats, seed@, now),
                ..old(self)@
            }),
    {
        self.email_stats.record_email_sent(seed, now);
        proof {
            assert(self@ =~= StateView { email_stats: self@.email_stats, ..old(self)@ });
        }
    }

    /// Verify and unseal an envelope with the provider's private key,
    /// trusting the email sender's public key for the signature. Past the
    /// signature check, success is exactly the decryption chain
    /// [`crate::codec::unsealed_payload_of`].
    pub fn unwrap_magic_link(&self, signed_magic_link: SignedMagicLink) -> (r: Result<
        MagicLink,
        String,
    >)
        requires
            self@.rsa_private_key is Some,
        ensures
            !crate::crypto::rsa_verify_ok(
                self@.email_sender_rsa_public_key,
                signed_magic_link@.encrypted_key,
                signed_magic_link@.signature,
            ) ==> (r matches Err(e) && e@ == "Invalid signature"@),
            crate::crypto::rsa_verify_ok(
                self@.email_sender_rsa_public_key,
                signed_magic_link@.encrypted_key,
                signed_magic_link@.signature,
            ) ==> (r is Ok <==> crate::codec::unsealed_payload_of(
                self@.rsa_private_key.unwrap(),
                signed_magic_link@.envelope(),
            ) is Some),
            r matches Ok(link) ==> crate::codec::unsealed_payload_of(
                self@.rsa_private_key.unwrap(),
                signed_magic_link@.envelope(),
            ) == Some(link@),
            crate::crypto::rsa_verify_ok(
                self@.email_sender_rsa_public_key,
                signed_magic_link@.encrypted_key,
                signed_magic_link@.signature,
            ) ==> (r matches Err(e) ==> e@ == "Decryption failed"@),
            forall|m: MagicLinkView|
                (#[trigger] is_envelope_of(
                    signed_magic_link@.envelope(),
                    crate::crypto::rsa_public_der_of(self@.rsa_private_key.unwrap()),
                    m,
                ) && crate::crypto::rsa_verify_ok(
                    self@.email_sender_rsa_public_key,
                    signed_magic_link@.encrypted_key,
                    signed_magic_link@.signature,
                ) && crate::crypto::rsa_wf_keypair(self@.rsa_private_key.unwrap()))
                ==> (r matches Ok(link) && link@ == m),
    {
        let private_key = match &self.rsa_private_key {
            Some(k) => k,
            None => {
                proof {
                    assert(false);
                }
                &self.email_sender_rsa_public_key
            },
        };
        signed_magic_link.unwrap(&self.email_sender_rsa_public_key, private_key)
    }

    /// Handle a presented magic link.
    ///
    /// The signature is checked first — an envelope that fails it is
    /// rejected without decryption — then the link must be fresh and its
    /// code, if it carries one, matched. A mismatched code spends no
    /// attempt budget: the endpoint's responses carry none, and abuse
    /// control for links rests on issuance rate limiting and expiry. An
    /// already-committed delegation is a success; a read-only call that
    /// would have to commit answers `RequiresUpgrade` so the caller retries
    /// on the state-mutating path; a mutating call commits the delegation.
    /// Nothing but the signature store ever changes.
    pub fn process_auth_request(
        &mut self,
        signed_magic_link: SignedMagicLink,
        code: Option<Vec<u8>>,
        is_update: bool,
        now: TimestampMillis,
    ) -> (r: AuthResult)
        requires
            old(self).wf(),
            old(self)@.rsa_private_key is Some,
        ensures
            final(self).wf(),
            final(self)@ == (StateView { signatures: final(self)@.signatures, ..old(self)@ }),
            !crate::crypto::rsa_verify_ok(
                old(self)@.email_sender_rsa_public_key,
                signed_magic_link@.encrypted_key,
                signed_magic_link@.signature,
            ) ==> (r matches AuthResult::LinkInvalid(e) && e@ == "Invalid signature"@
                && final(self)@ == old(self)@),
            (crate::crypto::rsa_verify_ok(
                old(self)@.email_sender_rsa_public_key,
                signed_magic_link@.encrypted_key,
                signed_magic_link@.signature,
            ) && crate::codec::unsealed_payload_of(
                old(self)@.rsa_private_key.unwrap(),
                signed_magic_link@.envelope(),
            ) is None) ==> (r matches AuthResult::LinkInvalid(e) && e@ == "Decryption failed"@
                && final(self)@ == old(self)@),
            crate::crypto::rsa_verify_ok(
                old(self)@.email_sender_rsa_public_key,
                signed_magic_link@.encrypted_key,
                signed_magic_link@.signature,
            ) ==> (crate::codec::unsealed_payload_of(
                old(self)@.rsa_private_key.unwrap(),
                signed_magic_link@.envelope(),
            ) matches Some(m) ==> auth_outcome_holds(
                old(self)@,
                final(self)@,
                m,
                match code {
                    Some(ref c) => Some(c@),
                    None => None,
                },
                is_update,
                now,
                r,
            )),
            forall|m: MagicLinkView|
                (#[trigger] is_envelope_of(
                    signed_magic_link@.envelope(),
                    crate::crypto::rsa_public_der_of(old(self)@.rsa_private_key.unwrap()),
                    m,
                ) && crate::crypto::rsa_verify_ok(
                    old(self)@.email_sender_rsa_public_key,
                    signed_magic_link@.encrypted_key,
                    signed_magic_link@.signature,
                ) && crate::crypto::rsa_wf_keypair(old(self)@.rsa_private_key.unwrap()))
                ==> auth_outcome_holds(
                    old(self)@,
                    final(self)@,
                    m,
                    match code {
                        Some(ref c) => Some(c@),
                        None => None,
                    },
                    is_update,
                    now,
                    r,
                ),
    {
        let ghost skv = self@.rsa_private_key.unwrap();
        let ghost pk = crate::crypto::rsa_public_der_of(skv);
        let ghost env = signed_magic_link@.envelope();
        if !signed_magic_link.verify(&self.email_sender_rsa_public_key) {
            return AuthResult::LinkInvalid("Invalid signature".to_owned());
        }
        let link = match self.unwrap_magic_link(signed_magic_link) {
            Ok(l) => l,
            Err(e) => {
                proof {
                    assert(crate::codec::unsealed_payload_of(skv, env) is None);
                    assert forall|m: MagicLinkView| !(is_envelope_of(env, pk, m)
                        && crate::crypto::rsa_wf_keypair(skv)) by {}
                }
                return AuthResult::LinkInvalid(e);
            },
        };
        if link.expired(now) {
            return AuthResult::LinkExpired;
        }
        match (link.code(), &code) {
            (Some(expected), Some(provided)) => {
                if !crate::text::bytes_eq(expected.as_slice(), provided.as_slice()) {
                    return AuthResult::CodeIncorrect;
                }
            },
            (Some(_), None) => {
                return AuthResult::CodeIncorrect;
            },
            (None, _) => {},
        }
        let msg_hash = delegation_signature_msg_hash(link.delegation());
        let seed = link.seed();
        if self.signatures.contains(seed, msg_hash) {
            AuthResult::Success
        } else if !is_update {
            AuthResult::RequiresUpgrade
        } else {
            self.signatures.add(seed, msg_hash, now);
            proof {
                assert(self@ =~= StateView { signatures: self@.signatures, ..old(self)@ });
            }
            AuthResult::Success
        }
    }
}

/// The aggregate as plain data, written before an upgrade and read after
/// it. The signature store is derived data and restarts empty; the shell
/// republishes the root hash on resume.
pub struct StateSnapshot {
    pub email_sender_config: Option<EmailSenderConfig>,
    pub email_sender_rsa_public_key: Vec<u8>,
    pub email_stats: Vec<crate::email_stats::StatsRecord>,
    pub magic_links: Vec<crate::magic_links::LinkRecord>,
    pub codes: Vec<crate::verification_codes::CodeRecord>,
    pub fails: Vec<crate::verification_codes::FailRecord>,
    pub rsa_private_key: Option<Vec<u8>>,
    pub salt: Option<[u8; 32]>,
    pub test_mode: bool,
}

impl State {
    /// The full persisted image of the state.
    pub fn to_snapshot(&self) -> (r: StateSnapshot)
        requires
            self.wf(),
        ensures
            crate::email_stats::stats_records_map(r.email_stats@) == self@.email_stats,
            crate::email_stats::stats_records_distinct(r.email_stats@),
            crate::magic_links::link_records_map(r.magic_links@) == self@.magic_links,
            crate::magic_links::link_records_distinct(r.magic_links@),
            crate::verification_codes::code_records_map(r.codes@) == self@.codes,
            crate::verification_codes::code_records_distinct(r.codes@),
            crate::verification_codes::fail_records_map(r.fails@) == self@.fails,
            crate::verification_codes::fail_records_distinct(r.fails@),
            r.email_sender_rsa_public_key@ == self@.email_sender_rsa_public_key,
            (match r.email_sender_config {
                Some(ref c) => self@.email_sender_config == Some(c@),
                None => self@.email_sender_config is None,
            }),
            (match r.rsa_private_key {
                Some(ref k) => self@.rsa_private_key == Some(k@),
                None => self@.rsa_private_key is None,
            }),
            (match r.salt {
                Some(s) => self@.salt == Some(s@),
                None => self@.salt is None,
            }),
            r.test_mode == self@.test_mode,
    {
        let (codes, fails) = self.verification_codes.export();
        StateSnapshot {
            email_sender_config: match &self.email_sender_config {
                Some(c) => Some(c.clone()),
                None => None,
            },
            email_sender_rsa_public_key: crate::text::bytes_to_vec(
                self.email_sender_rsa_public_key.as_slice(),
            ),
            email_stats: self.email_stats.export(),
            magic_links: self.magic_links.export(),
            codes,
            fails,
            rsa_private_key: match &self.rsa_private_key {
                Some(k) => Some(crate::text::bytes_to_vec(k.as_slice())),
                None => None,
            },
            salt: self.salt,
            test_mode: self.test_mode,
        }
    }

    /// Rebuild the state from a persisted image. Stores come back exactly
    /// when the image's record keys are distinct, as every exported image's
    /// are; the signature store restarts empty.
    pub fn from_snapshot(snapshot: StateSnapshot) -> (r: State)
        ensures
            r.wf(),
            r@.signatures == Map::<Seq<u8>, u64>::empty(),
            crate::email_stats::stats_records_distinct(snapshot.email_stats@) ==> r@.email_stats
                == crate::email_stats::stats_records_map(snapshot.email_stats@),
            crate::magic_links::link_records_distinct(snapshot.magic_links@) ==> r@.magic_links
                == crate::magic_links::link_records_map(snapshot.magic_links@),
            crate::verification_codes::code_records_distinct(snapshot.codes@) ==> r@.codes
                == crate::verification_codes::code_records_map(snapshot.codes@),
            crate::verification_codes::fail_records_distinct(snapshot.fails@) ==> r@.fails
                == crate::verification_codes::fail_records_map(snapshot.fails@),
            r@.email_sender_rsa_public_key == snapshot.email_sender_rsa_public_key@,
            (match snapshot.email_sender_config {
                Some(ref c) => r@.email_sender_config == Some(c@),
                None => r@.email_sender_config is None,
            }),
            (match snapshot.rsa_private_key {
                Some(ref k) => r@.rsa_private_key == Some(k@),
                None => r@.rsa_private_key is None,
            }),
            (match snapshot.salt {
                Some(s) => r@.salt == Some(s@),
                None => r@.salt is None,
            }),
            r@.test_mode == snapshot.test_mode,
    {
        State {
            signatures: SignatureStore::new(),
            email_sender_config: snapshot.email_sender_config,
            email_sender_rsa_public_key: snapshot.email_sender_rsa_public_key,
            email_stats: EmailStatsMap::import(&snapshot.email_stats),
            magic_links: MagicLinks::import(&snapshot.magic_links),
            verification_codes: crate::verification_codes::VerificationCodes::import(
                &snapshot.codes,
                &snapshot.fails,
            ),
            rsa_private_key: snapshot.rsa_private_key,
            salt: snapshot.salt,
            test_mode: snapshot.test_mode,
        }
    }
}

/// What presenting a link with payload `m` must have done: a stale link, a
/// missing or wrong code, an already-committed delegation and a read-only
/// call each leave the state unchanged; only a mutating call on a fresh,
/// matching, uncommitted link commits its delegation.
pub open spec fn auth_outcome_holds(
    pre: StateView,
    post: StateView,
    m: MagicLinkView,
    code: Option<Seq<u8>>,
    is_update: bool,
    now: TimestampMillis,
    r: AuthResult,
) -> bool {
    let key = pair_key(m.seed, delegation_msg_hash_of(m.delegation));
    if link_expired(m, now) {
        r is LinkExpired && post == pre
    } else if m.code is Some && code != m.code {
        r is CodeIncorrect && post == pre
    } else if pre.signatures.contains_key(key) {
        r is Success && post == pre
    } else if !is_update {
        r is RequiresUpgrade && post == pre
    } else {
        r is Success && post == (StateView {
            signatures: prune_map(pre.signatures, now).insert(key, signature_expiry(now)),
            ..pre
        })
    }
}

} // verus!
