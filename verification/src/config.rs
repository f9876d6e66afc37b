//! The email-sender configuration and its decryption.
//!
//! Credentials arrive base64-wrapped and RSA-encrypted under the provider's
//! public key; they are decrypted in-process and never travel in plaintext.

use vstd::prelude::*;

verus! {

use crate::api::{EncryptedAwsEmailSenderConfig, EncryptedEmailSenderConfig};

/// What `base64::engine::general_purpose::STANDARD.decode` returns.
pub uninterp spec fn b64_decode_of(s: Seq<char>) -> Option<Seq<u8>>;

/// Relies on `base64`'s standard-alphabet decode: a function of the input
/// characters alone.
#[verifier::external_body]
fn b64_decode(s: &str) -> (r: Option<Vec<u8>>)
    ensures
        r is Some <==> b64_decode_of(s@) is Some,
        r matches Some(v) ==> b64_decode_of(s@) == Some(v@),
{
    base64::Engine::decode(&base64::engine::general_purpose::STANDARD, s).ok()
}

/// The plaintext of a base64-wrapped, RSA-encrypted UTF-8 string, when every
/// stage succeeds.
pub open spec fn decrypt_value_of(private_der: Seq<u8>, value: Seq<char>) -> Option<Seq<char>> {
    match b64_decode_of(value) {
        None => None,
        Some(ct) => match crate::crypto::rsa_decrypt_of(private_der, ct) {
            None => None,
            Some(pt) => if vstd::utf8::valid_utf8(pt) {
                Some(vstd::utf8::decode_utf8(pt))
            } else {
                None
            },
        },
    }
}

/// Unwrap and decrypt one credential string.
fn decrypt_value(private_der: &Vec<u8>, value: &str) -> (r: Option<String>)
    ensures
        r is Some <==> decrypt_value_of(private_der@, value@) is Some,
        r matches Some(s) ==> decrypt_value_of(private_der@, value@) == Some(s@),
{
    let ciphertext = match b64_decode(value) {
        Some(ct) => ct,
        None => {
            return None;
        },
    };
    let plaintext = match crate::crypto::rsa_decrypt(private_der, ciphertext.as_slice()) {
        Some(pt) => pt,
        None => {
            return None;
        },
    };
    crate::text::utf8_to_string(plaintext)
}

/// The mathematical value of an [`AwsEmailSenderConfig`].
#[verifier::ext_equal]
pub struct AwsConfigView {
    pub region: Seq<char>,
    pub target_arn: Seq<char>,
    pub access_key: Seq<char>,
    pub secret_key: Seq<char>,
}

/// The mathematical value of an [`EmailSenderConfig`].
#[verifier::ext_equal]
pub enum ConfigView {
    Aws(AwsConfigView),
}

/// Decrypted AWS sender credentials.
pub struct AwsEmailSenderConfig {
    pub region: String,
    pub target_arn: String,
    pub access_key: String,
    pub secret_key: String,
}

impl View for AwsEmailSenderConfig {
    type V = AwsConfigView;

    open spec fn view(&self) -> AwsConfigView {
        AwsConfigView {
            region: self.region@,
            target_arn: self.target_arn@,
            access_key: self.access_key@,
            secret_key: self.secret_key@,
        }
    }
}

/// The decrypted email-sender configuration.
pub enum EmailSenderConfig {
    Aws(AwsEmailSenderConfig),
}

impl View for EmailSenderConfig {
    type V = ConfigView;

    open spec fn view(&self) -> ConfigView {
        match self {
            EmailSenderConfig::Aws(aws) => ConfigView::Aws(aws@),
        }
    }
}

impl Clone for AwsEmailSenderConfig {
    fn clone(&self) -> (r: Self)
        ensures
            r@ == self@,
    {
        AwsEmailSenderConfig {
            region: self.region.clone(),
            target_arn: self.target_arn.clone(),
            access_key: self.access_key.clone(),
            secret_key: self.secret_key.clone(),
        }
    }
}

impl Clone for EmailSenderConfig {
    fn clone(&self) -> (r: Self)
        ensures
            r@ == self@,
    {
        match self {
            EmailSenderConfig::Aws(aws) => EmailSenderConfig::Aws(aws.clone()),
        }
    }
}

impl AwsEmailSenderConfig {
    /// Decrypt the two encrypted credentials; the region and target pass
    /// through. `None` exactly when either credential fails a stage.
    pub fn from_encrypted(
        config: EncryptedAwsEmailSenderConfig,
        rsa_private_key: &Vec<u8>,
    ) -> (r: Option<AwsEmailSenderConfig>)
        ensures
            r is Some <==> (decrypt_value_of(rsa_private_key@, config.access_key_encrypted@)
                is Some && decrypt_value_of(rsa_private_key@, config.secret_key_encrypted@)
                is Some),
            r matches Some(c) ==> c@ == (AwsConfigView {
                region: config.region@,
                target_arn: config.target_arn@,
                access_key: decrypt_value_of(
                    rsa_private_key@,
                    config.access_key_encrypted@,
                ).unwrap(),
                secret_key: decrypt_value_of(
                    rsa_private_key@,
                    config.secret_key_encrypted@,
                ).unwrap(),
            }),
    {
        let access_key = match decrypt_value(rsa_private_key, config.access_key_encrypted.as_str()) {
            Some(v) => v,
            None => {
                return None;
            },
        };
        let secret_key = match decrypt_value(rsa_private_key, config.secret_key_encrypted.as_str()) {
            Some(v) => v,
            None => {
                return None;
            },
        };
        Some(AwsEmailSenderConfig {
            region: config.region,
            target_arn: config.target_arn,
            access_key,
            secret_key,
        })
    }
}

impl EmailSenderConfig {
    /// Decrypt an encrypted configuration under the provider's private key.
    pub fn from_encrypted(
        config: EncryptedEmailSenderConfig,
        rsa_private_key: &Vec<u8>,
    ) -> (r: Option<EmailSenderConfig>)
        ensures
            match config {
                EncryptedEmailSenderConfig::Aws(aws) => {
                    &&& (r is Some <==> (decrypt_value_of(rsa_private_key@, aws.access_key_encrypted@)
                        is Some && decrypt_value_of(rsa_private_key@, aws.secret_key_encrypted@)
                        is Some))
                    &&& (r matches Some(c) ==> c@ == ConfigView::Aws(
                        AwsConfigView {
                            region: aws.region@,
                            target_arn: aws.target_arn@,
                            access_key: decrypt_value_of(
                                rsa_private_key@,
                                aws.access_key_encrypted@,
                            ).unwrap(),
                            secret_key: decrypt_value_of(
                                rsa_private_key@,
                                aws.secret_key_encrypted@,
                            ).unwrap(),
                        },
                    ))
                },
            },
    {
        match config {
            EncryptedEmailSenderConfig::Aws(aws) => {
                match AwsEmailSenderConfig::from_encrypted(aws, rsa_private_key) {
                    Some(c) => Some(EmailSenderConfig::Aws(c)),
                    None => None,
                }
            },
        }
    }
}

} // verus!
