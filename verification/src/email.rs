//! Validated, normalized email addresses.
//!
//! An email is accepted only after trimming, lowercasing and a syntax check,
//! so every `ValidatedEmail` holds a normalization fixed point: parsing the
//! stored string again succeeds and returns it unchanged.

use vstd::prelude::*;

verus! {

/// What `str::trim` returns: the characters of the input with leading and
/// trailing whitespace removed.
pub uninterp spec fn trim_of(s: Seq<char>) -> Seq<char>;

/// What `str::to_lowercase` returns: the Unicode lowercase form of the input.
pub uninterp spec fn lower_of(s: Seq<char>) -> Seq<char>;

/// What `email_address::EmailAddress::is_valid` returns on the input.
pub uninterp spec fn email_valid(s: Seq<char>) -> bool;

/// The normal form of a raw email: trimmed, then lowercased.
pub open spec fn normal_of(s: Seq<char>) -> Seq<char> {
    lower_of(trim_of(s))
}

/// Relies on `str::trim`: it returns the input without leading and trailing
/// whitespace, so the result has none left and trims to itself.
#[verifier::external_body]
fn str_trim(s: &str) -> (r: &str)
    ensures
        r@ == trim_of(s@),
        trim_of(r@) == r@,
{
    s.trim()
}

/// Relies on `str::to_lowercase`: the result depends on the characters alone,
/// lowercasing is idempotent, and case mapping never produces whitespace, so
/// a trimmed input yields a trimmed result.
#[verifier::external_body]
fn str_lowercase(s: &str) -> (r: String)
    ensures
        r@ == lower_of(s@),
        lower_of(r@) == r@,
        trim_of(s@) == s@ ==> trim_of(r@) == r@,
{
    s.to_lowercase()
}

/// Relies on `email_address::EmailAddress::is_valid`: a pure syntax predicate
/// on the input string.
#[verifier::external_body]
fn email_syntax_valid(s: &str) -> (r: bool)
    ensures
        r == email_valid(s@),
{
    email_address::EmailAddress::is_valid(s)
}

/// The rejection returned when an email fails validation.
#[derive(Clone, Copy, PartialEq, Eq, Structural, Debug)]
pub struct EmailInvalid;

/// An email address in normal form whose syntax was checked and whose UTF-8
/// form fits the one-byte length prefix of the seed derivation.
pub struct ValidatedEmail {
    email: String,
}

impl View for ValidatedEmail {
    type V = Seq<char>;

    closed spec fn view(&self) -> Seq<char> {
        self.email@
    }
}

impl ValidatedEmail {
    /// The properties every `ValidatedEmail` carries.
    #[verifier::type_invariant]
    pub open spec fn wf(&self) -> bool {
        &&& email_valid(self@)
        &&& normal_of(self@) == self@
        &&& vstd::utf8::encode_utf8(self@).len() <= 255
    }

    /// Trim and lowercase the input, then accept it exactly when the syntax
    /// check passes and the UTF-8 form is at most 255 bytes.
    ///
    /// Parsing is idempotent: the stored string is a fixed point of
    /// normalization, so parsing it again succeeds and returns it unchanged.
    pub fn try_parse(raw: &str) -> (r: Result<ValidatedEmail, EmailInvalid>)
        ensures
            match r {
                Ok(v) => {
                    &&& v@ == normal_of(raw@)
                    &&& v.wf()
                },
                Err(_) => !(email_valid(normal_of(raw@))
                    && vstd::utf8::encode_utf8(normal_of(raw@)).len() <= 255),
            },
    {
        let trimmed = str_trim(raw);
        let normalized = str_lowercase(trimmed);
        if email_syntax_valid(normalized.as_str()) && normalized.as_str().as_bytes().len() <= 255 {
            Ok(ValidatedEmail { email: normalized })
        } else {
            Err(EmailInvalid)
        }
    }

    /// The normalized address.
    pub fn as_str(&self) -> (r: &str)
        ensures
            r@ == self@,
    {
        self.email.as_str()
    }

    /// The normalized address as an owned string.
    pub fn to_string(&self) -> (r: String)
        ensures
            r@ == self@,
    {
        self.email.clone()
    }

    /// The UTF-8 bytes of the normalized address.
    pub fn as_bytes(&self) -> (r: &[u8])
        ensures
            r@ == vstd::utf8::encode_utf8(self@),
            r@.len() <= 255,
    {
        proof {
            use_type_invariant(self);
        }
        self.email.as_str().as_bytes()
    }
}

} // verus!
