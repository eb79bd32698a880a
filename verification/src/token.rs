//! The credential codec: issuing signed bearer tokens and verifying them.
//!
//! A token signs the claim set `{sub, exp, role}` with the current secret
//! under HS256. Signing and signature checking are done by jsonwebtoken;
//! expiry is checked here, against a clock reading passed in explicitly, so
//! that the whole accept/reject decision is in verified code.

use vstd::prelude::*;

use crate::error::JwtError;
use crate::time::TimeProvider;

verus! {

/// The claim set carried by a token: subject identity, expiry as epoch
/// seconds, and role.
#[derive(Debug, Clone, PartialEq, Eq)]
pub struct Claims {
    pub sub: String,
    pub exp: u64,
    pub role: String,
}

/// Tokens live this long, in seconds, from the instant they are issued.
pub const TOKEN_LIFETIME_SECONDS: u64 = 3600;

/// The token that signing the claim set `{sub, exp, role}` with `secret`
/// under an HS256 header yields. The token is a function of these four
/// values alone; its exact shape is jsonwebtoken's business and is never
/// stated here.
pub uninterp spec fn signed_token(
    sub: Seq<char>,
    exp: u64,
    role: Seq<char>,
    secret: Seq<char>,
) -> Seq<char>;

/// The HMAC-SHA256 block size, in bytes. A key at most this long is used
/// by HMAC verbatim, so two distinct such keys are distinct signing keys;
/// a longer key is first digested, which identifies it with its digest.
/// The codec's contracts therefore speak only of keys below this bound.
/// Every secret this gateway generates is well below it.
pub const HMAC_BLOCK_BYTES: usize = 64;

/// A secret that HMAC uses verbatim as its key: ASCII (so its byte length
/// is its character count) and at most one HMAC block long.
pub open spec fn spec_direct_hmac_key(s: Seq<char>) -> bool {
    s.len() <= HMAC_BLOCK_BYTES && vstd::utf8::is_ascii_chars(s)
}

/// Whether `secret` may be handed to [`verify`] and [`authenticate`].
pub fn is_direct_hmac_key(secret: &str) -> (b: bool)
    ensures
        b == spec_direct_hmac_key(secret@),
{
    secret.unicode_len() <= HMAC_BLOCK_BYTES && secret.is_ascii()
}

/// Relies on jsonwebtoken::encode with an HS256 header: the token is built
/// from the serialized claim set and the secret alone, so equal inputs give
/// equal tokens; HS256 signing and the claim map's serialization cannot
/// fail, so a token always comes back; and the token is base64url parts
/// joined by dots, so it holds no space or tab.
#[verifier::external_body]
fn encode_claims(claims: &Claims, secret: &str) -> (r: Option<String>)
    ensures
        r is Some,
        r is Some ==> r.unwrap()@ == signed_token(claims.sub@, claims.exp, claims.role@, secret@),
        r is Some ==> forall|i: int|
            0 <= i < r.unwrap()@.len() ==> !is_token_space(r.unwrap()@[i]),
{
    let mut m = serde_json::Map::new();
    m.insert("sub".to_string(), serde_json::Value::String(claims.sub.clone()));
    m.insert("exp".to_string(), serde_json::Value::from(claims.exp));
    m.insert("role".to_string(), serde_json::Value::String(claims.role.clone()));
    let header = jsonwebtoken::Header::new(jsonwebtoken::Algorithm::HS256);
    let key = jsonwebtoken::EncodingKey::from_secret(secret.as_bytes());
    jsonwebtoken::encode(&header, &serde_json::Value::Object(m), &key).ok()
}

/// Relies on jsonwebtoken::decode under HS256 with expiry validation turned
/// off: the claims come back as they were signed, no clock is read, so the
/// result depends on the token and the secret alone, and the signature
/// check passes on a signed token exactly under its signing secret. That
/// last equivalence is stated only for keys HMAC uses verbatim (at most one
/// block, [`spec_direct_hmac_key`]): among those, only computationally
/// infeasible collisions could break it, while a longer key signs
/// identically to its digest and is deliberately left outside the contract.
#[verifier::external_body]
fn decode_claims(token: &str, secret: &str) -> (r: Option<Claims>)
    requires
        spec_direct_hmac_key(secret@),
    ensures
        forall|sub: Seq<char>, exp: u64, role: Seq<char>, s: Seq<char>|
            spec_direct_hmac_key(s) && token@ == #[trigger] signed_token(sub, exp, role, s) ==> {
                &&& (r is Some <==> s == secret@)
                &&& (s == secret@ ==> r.unwrap().sub@ == sub && r.unwrap().exp == exp
                    && r.unwrap().role@ == role)
            },
{
    let key = jsonwebtoken::DecodingKey::from_secret(secret.as_bytes());
    let mut validation = jsonwebtoken::Validation::new(jsonwebtoken::Algorithm::HS256);
    validation.validate_exp = false;
    let data = jsonwebtoken::decode::<serde_json::Value>(token, &key, &validation).ok()?;
    let sub = data.claims.get("sub")?.as_str()?.to_string();
    let exp = data.claims.get("exp")?.as_u64()?;
    let role = data.claims.get("role")?.as_str()?.to_string();
    Some(Claims { sub, exp, role })
}

/// A token with expiry `exp` is still acceptable at time `now` given this
/// much leeway: expiry may lie in the past by at most `leeway` seconds.
pub open spec fn token_fresh(exp: u64, leeway: u64, now: u64) -> bool {
    now <= exp + leeway
}

/// Everything [`verify`] promises of its result `r` for a token with view
/// `token` checked against `secret` at time `now`: on any token signed with
/// a verbatim HMAC key ([`spec_direct_hmac_key`]), acceptance happens
/// exactly under the signing secret and within the expiry window, and the
/// claims come back unchanged.
pub open spec fn spec_verified(
    token: Seq<char>,
    secret: Seq<char>,
    leeway: u64,
    now: u64,
    r: Result<Claims, JwtError>,
) -> bool {
    &&& (r is Ok ==> token_fresh(r->Ok_0.exp, leeway, now))
    &&& (r is Err ==> r->Err_0 == JwtError::DecodeError)
    &&& forall|sub: Seq<char>, exp: u64, role: Seq<char>, s: Seq<char>|
        spec_direct_hmac_key(s) && token == #[trigger] signed_token(sub, exp, role, s) ==> {
            if s == secret && token_fresh(exp, leeway, now) {
                &&& r is Ok
                &&& r->Ok_0.sub@ == sub
                &&& r->Ok_0.exp == exp
                &&& r->Ok_0.role@ == role
            } else {
                r is Err
            }
        }
}

/// Check a bearer token against `secret` at time `now`, accepting an expiry
/// up to `leeway` seconds in the past.
pub fn verify(token: &str, secret: &str, leeway: u64, now: u64) -> (r: Result<Claims, JwtError>)
    requires
        spec_direct_hmac_key(secret@),
    ensures
        spec_verified(token@, secret@, leeway, now, r),
{
    match decode_claims(token, secret) {
        Some(c) => {
            let fresh = match c.exp.checked_add(leeway) {
                Some(deadline) => now <= deadline,
                None => true,
            };
            if fresh {
                Ok(c)
            } else {
                Err(JwtError::DecodeError)
            }
        },
        None => Err(JwtError::DecodeError),
    }
}

/// Issue a token for `sub` with `role`, signed with `secret`, expiring one
/// token lifetime after `now`. Success is owed on every input but a `now`
/// so late that the expiry would not be representable: a broken clock is a
/// construction error, reported rather than signed over.
pub fn issue(sub: &str, role: &str, secret: &str, now: u64) -> (r: Result<String, JwtError>)
    ensures
        now + TOKEN_LIFETIME_SECONDS <= u64::MAX <==> r is Ok,
        r is Ok ==> r->Ok_0@ == signed_token(
            sub@,
            (now + TOKEN_LIFETIME_SECONDS) as u64,
            role@,
            secret@,
        ),
        r is Ok ==> forall|i: int| 0 <= i < r->Ok_0@.len() ==> !is_token_space(r->Ok_0@[i]),
        r is Err ==> r === Err(JwtError::EncodingError),
{
    match now.checked_add(TOKEN_LIFETIME_SECONDS) {
        Some(exp) => {
            let claims = Claims { sub: sub.to_owned(), exp, role: role.to_owned() };
            match encode_claims(&claims, secret) {
                Some(token) => Ok(token),
                None => Err(JwtError::EncodingError),
            }
        },
        None => Err(JwtError::EncodingError),
    }
}

/// Issue a token for `user_id`, reading the issue instant from `time`.
///
/// The clock reading is not observable in this contract, so it names only
/// the expiry's existence and pins the failure value; the only failure is a
/// clock reading too late for a representable expiry. A caller that holds
/// the instant should call [`issue`], which pins the expiry exactly and
/// promises success whenever the expiry is representable.
pub fn generate_jwt<T: TimeProvider>(
    user_id: &str,
    secret: &str,
    role: &str,
    time: &T,
) -> (r: Result<String, JwtError>)
    ensures
        r is Ok ==> exists|exp: u64|
            exp >= TOKEN_LIFETIME_SECONDS && r->Ok_0@ == #[trigger] signed_token(
                user_id@,
                exp,
                role@,
                secret@,
            ),
        r is Err ==> r->Err_0 == JwtError::EncodingError,
{
    let now = time.now();
    issue(user_id, role, secret, now)
}

/// The characters trimmed around a bearer token: space and horizontal tab.
pub open spec fn is_token_space(c: char) -> bool {
    c == ' ' || c == '\t'
}

/// What trimming leading and trailing spaces from `s` leaves.
pub open spec fn spec_trim(s: Seq<char>) -> Seq<char>
    decreases s.len(),
{
    if s.len() == 0 {
        s
    } else if is_token_space(s[0]) {
        spec_trim(s.subrange(1, s.len() as int))
    } else if is_token_space(s[s.len() - 1]) {
        spec_trim(s.subrange(0, s.len() - 1))
    } else {
        s
    }
}

fn is_space_char(c: char) -> (b: bool)
    ensures
        b == is_token_space(c),
{
    c == ' ' || c == '\t'
}

/// Strip leading and trailing spaces, leaving the middle untouched.
fn trim_spaces<'a>(s: &'a str) -> (r: &'a str)
    ensures
        r@ == spec_trim(s@),
{
    let n = s.unicode_len();
    let mut lo: usize = 0;
    let mut hi: usize = n;
    proof {
        assert(s@.subrange(0, n as int) =~= s@);
    }
    while lo < hi && is_space_char(s.get_char(lo))
        invariant
            lo <= hi <= n,
            n == s@.len(),
            spec_trim(s@.subrange(lo as int, hi as int)) == spec_trim(s@),
        decreases hi - lo,
    {
        proof {
            let sub = s@.subrange(lo as int, hi as int);
            assert(sub[0] == s@[lo as int]);
            assert(sub.subrange(1, sub.len() as int) =~= s@.subrange(lo as int + 1, hi as int));
        }
        lo = lo + 1;
    }
    while lo < hi && is_space_char(s.get_char(hi - 1))
        invariant
            lo <= hi <= n,
            n == s@.len(),
            spec_trim(s@.subrange(lo as int, hi as int)) == spec_trim(s@),
            lo < hi ==> !is_token_space(s@[lo as int]),
        decreases hi - lo,
    {
        proof {
            let sub = s@.subrange(lo as int, hi as int);
            assert(sub[0] == s@[lo as int]);
            assert(sub[sub.len() - 1] == s@[hi as int - 1]);
            assert(sub.subrange(0, sub.len() - 1) =~= s@.subrange(lo as int, hi as int - 1));
        }
        hi = hi - 1;
    }
    proof {
        let sub = s@.subrange(lo as int, hi as int);
        if lo < hi {
            assert(sub[0] == s@[lo as int]);
            assert(sub[sub.len() - 1] == s@[hi as int - 1]);
        }
        assert(spec_trim(sub) == sub);
    }
    s.substring_char(lo, hi)
}

/// An `Authorization` header carries a bearer credential when it opens with
/// the literal `"Bearer "`.
pub open spec fn spec_has_bearer_prefix(h: Seq<char>) -> bool {
    h.len() >= 7 && h.subrange(0, 7) == "Bearer "@
}

/// What follows the `"Bearer "` prefix, verbatim.
pub open spec fn spec_bearer_rest(h: Seq<char>) -> Seq<char> {
    h.subrange(7, h.len() as int)
}

/// The token that [`authenticate`] checks: the rest of the header with
/// surrounding spaces trimmed.
pub open spec fn spec_auth_token(h: Seq<char>) -> Seq<char> {
    spec_trim(spec_bearer_rest(h))
}

fn has_bearer_prefix(h: &str) -> (b: bool)
    ensures
        b == spec_has_bearer_prefix(h@),
{
    proof {
        reveal_strlit("Bearer ");
    }
    let n = h.unicode_len();
    if n < 7 {
        return false;
    }
    let ok = h.get_char(0) == 'B' && h.get_char(1) == 'e' && h.get_char(2) == 'a' && h.get_char(3)
        == 'r' && h.get_char(4) == 'e' && h.get_char(5) == 'r' && h.get_char(6) == ' ';
    proof {
        let sub = h@.subrange(0, 7);
        assert(forall|i: int| 0 <= i < 7 ==> sub[i] == h@[i]);
        if ok {
            assert(sub =~= "Bearer "@);
        }
        if sub == "Bearer "@ {
            assert("Bearer "@[0] == 'B' && "Bearer "@[1] == 'e' && "Bearer "@[2] == 'a'
                && "Bearer "@[3] == 'r' && "Bearer "@[4] == 'e' && "Bearer "@[5] == 'r'
                && "Bearer "@[6] == ' ');
            assert(forall|i: int| 0 <= i < 7 ==> sub[i] == "Bearer "@[i]);
            assert(h@[0] == 'B' && h@[1] == 'e' && h@[2] == 'a' && h@[3] == 'r' && h@[4] == 'e'
                && h@[5] == 'r' && h@[6] == ' ');
        }
    }
    ok
}

/// The whole credential check a protected route runs: take the header as it
/// arrived (or its absence), demand the bearer shape, and verify the token
/// against `secret` at time `now`.
pub fn authenticate(auth_header: Option<&str>, secret: &str, leeway: u64, now: u64) -> (r: Result<
    Claims,
    JwtError,
>)
    requires
        spec_direct_hmac_key(secret@),
    ensures
        match auth_header {
            None => r === Err(JwtError::MissingAuthHeader),
            Some(h) => if spec_has_bearer_prefix(h@) {
                spec_verified(spec_auth_token(h@), secret@, leeway, now, r)
            } else {
                r === Err(JwtError::InvalidTokenFormat)
            },
        },
{
    match auth_header {
        None => Err(JwtError::MissingAuthHeader),
        Some(h) => {
            if !has_bearer_prefix(h) {
                return Err(JwtError::InvalidTokenFormat);
            }
            let n = h.unicode_len();
            let rest = h.substring_char(7, n);
            let token = trim_spaces(rest);
            verify(token, secret, leeway, now)
        },
    }
}

/// Pulls the throttling key for authenticated traffic out of the
/// `Authorization` header: the raw bearer credential, taken without
/// verifying it, so that invalid tokens still spend their own budget. A
/// request whose key cannot be extracted yields `None` and is rejected
/// rather than thrown into a shared bucket.
#[derive(Debug, Clone)]
pub struct JwtKeyExtractor;

impl JwtKeyExtractor {
    pub fn extract(&self, auth_header: Option<&str>) -> (r: Option<String>)
        ensures
            match auth_header {
                None => r is None,
                Some(h) => if spec_has_bearer_prefix(h@) {
                    r is Some && r.unwrap()@ == spec_bearer_rest(h@)
                } else {
                    r is None
                },
            },
    {
        match auth_header {
            None => None,
            Some(h) => {
                if has_bearer_prefix(h) {
                    let n = h.unicode_len();
                    Some(h.substring_char(7, n).to_owned())
                } else {
                    None
                }
            },
        }
    }
}

/// Law: a token issued at `now` verifies at `now + leeway` and hands back its
/// subject and role; one second past `now + lifetime + leeway` it is refused
/// as expired. `r_early` and `r_late` stand for anything [`verify`] may
/// return at those two instants.
pub proof fn lemma_issued_token_window(
    sub: Seq<char>,
    role: Seq<char>,
    secret: Seq<char>,
    now: u64,
    leeway: u64,
    r_early: Result<Claims, JwtError>,
    r_late: Result<Claims, JwtError>,
)
    requires
        spec_direct_hmac_key(secret),
        now + TOKEN_LIFETIME_SECONDS + leeway + 1 <= u64::MAX,
        spec_verified(
            signed_token(sub, (now + TOKEN_LIFETIME_SECONDS) as u64, role, secret),
            secret,
            leeway,
            (now + leeway) as u64,
            r_early,
        ),
        spec_verified(
            signed_token(sub, (now + TOKEN_LIFETIME_SECONDS) as u64, role, secret),
            secret,
            leeway,
            (now + TOKEN_LIFETIME_SECONDS + leeway + 1) as u64,
            r_late,
        ),
    ensures
        r_early is Ok,
        r_early->Ok_0.sub@ == sub,
        r_early->Ok_0.role@ == role,
        r_early->Ok_0.exp == now + TOKEN_LIFETIME_SECONDS,
        r_late is Err,
{
}

/// Law: a token signed with one secret never verifies under a different one,
/// whatever its expiry; rotating the secret therefore invalidates every
/// outstanding token at once. `r` stands for anything [`verify`] may return.
pub proof fn lemma_rotation_invalidates(
    sub: Seq<char>,
    exp: u64,
    role: Seq<char>,
    old_secret: Seq<char>,
    new_secret: Seq<char>,
    leeway: u64,
    now: u64,
    r: Result<Claims, JwtError>,
)
    requires
        spec_direct_hmac_key(old_secret),
        old_secret != new_secret,
        spec_verified(signed_token(sub, exp, role, old_secret), new_secret, leeway, now, r),
    ensures
        r is Err,
{
}

/// Law: a space-free token placed after the bearer prefix reaches the
/// verifier verbatim — what [`issue`] hands out survives the header parsing
/// of [`authenticate`] unchanged.
pub proof fn lemma_bearer_roundtrip(t: Seq<char>)
    requires
        forall|i: int| 0 <= i < t.len() ==> !is_token_space(t[i]),
    ensures
        spec_has_bearer_prefix("Bearer "@ + t),
        spec_auth_token("Bearer "@ + t) == t,
{
    let h = "Bearer "@ + t;
    reveal_strlit("Bearer ");
    assert(h.subrange(0, 7) =~= "Bearer "@);
    assert(spec_bearer_rest(h) =~= t);
    assert(spec_trim(t) == t);
}

} // verus!
