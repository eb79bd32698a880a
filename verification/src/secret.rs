//! The signing secret: generation of fresh secrets and the configuration
//! slot that holds the current one together with its validation policy.

use rand::Rng;
use vstd::prelude::*;

verus! {

/// Holds exactly the characters that a generated secret is drawn from.
pub open spec fn is_alphanumeric_char(c: char) -> bool {
    ('a' <= c && c <= 'z') || ('A' <= c && c <= 'Z') || ('0' <= c && c <= '9')
}

/// Relies on rand's `Alphanumeric` distribution: each sample is drawn
/// uniformly from the ASCII letters and digits, using the thread-local
/// cryptographically seeded generator. The generator's first use stops the
/// process if the operating system cannot supply entropy; the gateway must
/// not run without randomness.
#[verifier::external_body]
fn sample_alphanumeric() -> (s: String)
    ensures
        s@.len() == 1,
        is_alphanumeric_char(s@[0]),
{
    let mut rng = rand::rng();
    let b: u8 = rng.sample(rand::distr::Alphanumeric);
    (b as char).to_string()
}

/// Every signing secret has this many characters.
pub const SECRET_LENGTH: usize = 32;

/// A fresh signing secret: [`SECRET_LENGTH`] alphanumeric characters.
///
/// The draw is random, so nothing relates two calls; in particular two
/// successive secrets are distinct with overwhelming probability, but that
/// is not a provable fact and is only exercised by tests.
pub fn generate_secret() -> (s: String)
    ensures
        s@.len() == SECRET_LENGTH,
        forall|i: int| 0 <= i < s@.len() ==> is_alphanumeric_char(s@[i]),
{
    let mut s = String::new();
    let mut i: usize = 0;
    while i < SECRET_LENGTH
        invariant
            i <= SECRET_LENGTH,
            s@.len() == i,
            forall|j: int| 0 <= j < s@.len() ==> is_alphanumeric_char(s@[j]),
        decreases SECRET_LENGTH - i,
    {
        let c = sample_alphanumeric();
        s.append(c.as_str());
        i = i + 1;
    }
    s
}

/// Law: a generated secret — alphanumeric, thirty-two characters — is short
/// ASCII, so HMAC uses it verbatim as a key and the codec's contracts apply
/// to it.
pub proof fn lemma_generated_secret_is_direct_key(s: Seq<char>)
    requires
        s.len() == SECRET_LENGTH,
        forall|i: int| 0 <= i < s.len() ==> is_alphanumeric_char(s[i]),
    ensures
        crate::token::spec_direct_hmac_key(s),
{
}

/// The current signing secret and the validation policy derived from it.
///
/// One value of this type sits behind the process's reader/writer lock; the
/// rotation task is its only writer. The methods here are the pure state
/// transitions that run under that lock.
#[derive(Clone)]
pub struct JwtConfig {
    pub secret: String,
    /// Clock-skew tolerance, in seconds, granted when checking expiry.
    pub leeway: u64,
    pub validate_exp: bool,
    pub validate_nbf: bool,
}

impl JwtConfig {
    pub fn new(secret: String) -> (c: JwtConfig)
        ensures
            c.secret == secret,
            c.leeway == 60,
            c.validate_exp,
            c.validate_nbf,
    {
        JwtConfig { secret, leeway: 60, validate_exp: true, validate_nbf: true }
    }

    /// Replace the secret wholesale; the validation policy is unchanged.
    /// Every token signed with the previous secret is invalidated by this.
    pub fn rotate(&mut self, new_secret: String)
        ensures
            final(self).secret == new_secret,
            final(self).leeway == old(self).leeway,
            final(self).validate_exp == old(self).validate_exp,
            final(self).validate_nbf == old(self).validate_nbf,
    {
        self.secret = new_secret;
    }

    /// One tick of the rotation task: draw a fresh secret and swap it in.
    pub fn rotate_fresh(&mut self)
        ensures
            final(self).secret@.len() == SECRET_LENGTH,
            forall|i: int|
                0 <= i < final(self).secret@.len() ==> is_alphanumeric_char(final(self).secret@[i]),
            final(self).leeway == old(self).leeway,
            final(self).validate_exp == old(self).validate_exp,
            final(self).validate_nbf == old(self).validate_nbf,
    {
        let s = generate_secret();
        self.rotate(s);
    }
}

} // verus!
