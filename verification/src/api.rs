//! Value types of the service interface.

use vstd::prelude::*;

verus! {

use crate::TimestampNanos;

/// The mathematical value of a [`Delegation`].
#[verifier::ext_equal]
pub struct DelegationView {
    pub pubkey: Seq<u8>,
    pub expiration: TimestampNanos,
}

/// A session public key together with the expiration the provider is asked
/// to vouch for.
#[derive(Debug)]
pub struct Delegation {
    pub pubkey: Vec<u8>,
    pub expiration: TimestampNanos,
}

impl View for Delegation {
    type V = DelegationView;

    open spec fn view(&self) -> DelegationView {
        DelegationView { pubkey: self.pubkey@, expiration: self.expiration }
    }
}

impl Clone for Delegation {
    fn clone(&self) -> (r: Self)
        ensures
            r@ == self@,
    {
        Delegation {
            pubkey: vstd::slice::slice_to_vec(self.pubkey.as_slice()),
            expiration: self.expiration,
        }
    }
}

/// A delegation together with the canister signature vouching for it.
pub struct SignedDelegation {
    pub delegation: Delegation,
    pub signature: Vec<u8>,
}

/// A wrong guess: how many guesses remain, and the block window if the
/// guess destroyed the challenge.
#[derive(Clone, Copy, PartialEq, Eq, Structural, Debug)]
pub struct IncorrectCode {
    pub attempts_remaining: u32,
    pub blocked_duration: Option<crate::Milliseconds>,
}

/// The request to issue a verification code.
pub struct GenerateVerificationCodeArgs {
    pub email: String,
    pub session_key: Vec<u8>,
    pub max_time_to_live: Option<crate::Nanoseconds>,
}

/// The outcome of issuing a verification code.
pub enum GenerateVerificationCodeResponse {
    Success,
    Blocked(crate::Milliseconds),
    EmailInvalid,
    FailedToSendEmail(String),
    NotReady,
}

/// The request to redeem a verification code.
pub struct SubmitVerificationCodeArgs {
    pub email: String,
    pub code: String,
}

/// The outcome of redeeming a verification code.
pub enum SubmitVerificationCodeResponse {
    Success(SubmitVerificationCodeSuccess),
    IncorrectCode(IncorrectCode),
    NotFound,
}

/// The credential issued on a correct code: the DER self-authenticating
/// user key and the delegation expiration.
pub struct SubmitVerificationCodeSuccess {
    pub user_key: Vec<u8>,
    pub expiration: crate::TimestampNanos,
}

/// The outcome of a delegation lookup.
pub enum GetDelegationResponse {
    Success(SignedDelegation),
    Active(crate::TimestampMillis),
    NotFound,
}

/// AWS email-sender credentials, RSA-encrypted under the provider's public
/// key by the upgrade tooling.
pub struct EncryptedAwsEmailSenderConfig {
    pub region: String,
    pub target_arn: String,
    pub access_key_encrypted: String,
    pub secret_key_encrypted: String,
}

/// The encrypted email-sender configuration handed in at install time.
pub enum EncryptedEmailSenderConfig {
    Aws(EncryptedAwsEmailSenderConfig),
}

/// Arguments of a first installation.
pub struct InitArgs {
    pub salt: Option<[u8; 32]>,
    pub test_mode: bool,
}

/// Arguments of an upgrade.
pub struct UpgradeArgs {
    pub email_sender_config: Option<EncryptedEmailSenderConfig>,
}

/// The single install-or-upgrade entry argument.
pub enum InitOrUpgradeArgs {
    Init(InitArgs),
    Upgrade(UpgradeArgs),
}

impl InitOrUpgradeArgs {
    /// The install arguments; installation never carries upgrade arguments.
    pub fn to_init_args(self) -> (r: InitArgs)
        requires
            self is Init,
        ensures
            self == InitOrUpgradeArgs::Init(r),
    {
        match self {
            InitOrUpgradeArgs::Init(args) => args,
            InitOrUpgradeArgs::Upgrade(_) => {
                proof {
                    assert(false);
                }
                InitArgs { salt: None, test_mode: false }
            },
        }
    }

    /// The upgrade arguments; an upgrade never carries install arguments.
    pub fn to_upgrade_args(self) -> (r: UpgradeArgs)
        requires
            self is Upgrade,
        ensures
            self == InitOrUpgradeArgs::Upgrade(r),
    {
        match self {
            InitOrUpgradeArgs::Upgrade(args) => args,
            InitOrUpgradeArgs::Init(_) => {
                proof {
                    assert(false);
                }
                UpgradeArgs { email_sender_config: None }
            },
        }
    }
}

/// The request for the pseudonymous principal of an email.
pub struct GetPrincipalArgs {
    pub email: String,
}

/// The install arguments of a deterministic test deployment: a fixed salt of
/// ones and test mode on.
pub fn default_init_args() -> (r: InitOrUpgradeArgs)
    ensures
        r matches InitOrUpgradeArgs::Init(a) && a.test_mode && (a.salt matches Some(s) && s@
            =~= Seq::new(32, |i: int| 1u8)),
{
    let salt: [u8; 32] = [1; 32];
    proof {
        assert(salt@ =~= Seq::new(32, |i: int| 1u8));
    }
    InitOrUpgradeArgs::Init(InitArgs { salt: Some(salt), test_mode: true })
}

} // verus!
