//! The ordered request pipeline in front of the route handlers.
//!
//! The order is load-bearing: the body-size cap bounds resource use before
//! any stateful work, rate limiting comes before authentication so that a
//! flood of invalid credentials is throttled instead of driving signature
//! checks, and the security headers are stamped onto every response however
//! the request fared. Timeouts and CORS enforcement live in the server
//! runtime; their fixed policy values are defined here.

use vstd::prelude::*;

use crate::error::JwtError;
use crate::ratelimit::RateLimiter;
use crate::ratelimit::spec_after_check;
use crate::ratelimit::spec_check_allows;
use crate::token::Claims;
use crate::token::JwtKeyExtractor;
use crate::token::authenticate;
use crate::token::spec_auth_token;
use crate::token::spec_bearer_rest;
use crate::token::spec_has_bearer_prefix;
use crate::token::spec_verified;

verus! {

/// Requests with a body above this many bytes are refused outright.
pub const BODY_SIZE_CAP_BYTES: u64 = 1024;

/// A request not answered within this many seconds is aborted by the
/// server runtime and reported with [`GATEWAY_TIMEOUT_STATUS`].
pub const REQUEST_TIMEOUT_SECONDS: u64 = 10;

/// The status an aborted (timed-out) request is reported with.
pub const GATEWAY_TIMEOUT_STATUS: u16 = 504;

/// Which interceptor chain a route belongs to.
#[derive(Debug, Clone, Copy, PartialEq, Eq, Structural)]
pub enum RouteClass {
    /// Throttled by network origin; no credential required.
    Public,
    /// Throttled by bearer credential, then authenticated.
    Protected,
}

/// What the pipeline needs to know of an inbound request.
#[derive(Debug, Clone)]
pub struct GatewayRequest {
    pub route: RouteClass,
    /// The caller's network origin: the throttling key on public routes.
    pub origin: String,
    /// The `Authorization` header, exactly as received, if any.
    pub auth_header: Option<String>,
    /// The request body's length in bytes.
    pub body_len: u64,
}

/// The pipeline's verdict on one request.
#[derive(Debug, Clone, PartialEq, Eq)]
pub enum GateOutcome {
    /// Hand over to the handler; on a protected route the verified claims
    /// ride along.
    Allowed(Option<Claims>),
    /// The body exceeds [`BODY_SIZE_CAP_BYTES`].
    PayloadTooLarge,
    /// The caller's bucket is out of tokens.
    RateLimited,
    /// No throttling key could be extracted on a protected route; the
    /// request is refused rather than billed to a shared bucket.
    KeyRejected,
    /// The throttle admitted the request but the credential check failed.
    AuthFailed(JwtError),
}

/// How the outcome relates to whatever [`authenticate`] returned on the
/// header `h`: a pass carries the verified claims, a failure carries the
/// authentication error, and both are pinned by [`spec_verified`].
pub open spec fn spec_auth_outcome(
    h: Seq<char>,
    secret: Seq<char>,
    leeway: u64,
    now: u64,
    out: GateOutcome,
) -> bool {
    match out {
        GateOutcome::Allowed(c) => c is Some && spec_verified(
            spec_auth_token(h),
            secret,
            leeway,
            now,
            Ok(c.unwrap()),
        ),
        GateOutcome::AuthFailed(e) => spec_verified(spec_auth_token(h), secret, leeway, now, Err(e)),
        _ => false,
    }
}

/// Run the decision part of the pipeline on one request at time `now`:
/// body-size cap, then rate limiting for the route class, then (on
/// protected routes) authentication against `secret`.
pub fn gate_request(
    req: &GatewayRequest,
    public_limiter: &mut RateLimiter,
    auth_limiter: &mut RateLimiter,
    secret: &str,
    leeway: u64,
    now: u64,
) -> (out: GateOutcome)
    requires
        old(public_limiter).wf(),
        old(auth_limiter).wf(),
        crate::token::spec_direct_hmac_key(secret@),
    ensures
        final(public_limiter).wf(),
        final(auth_limiter).wf(),
        final(public_limiter).spec_capacity() == old(public_limiter).spec_capacity(),
        final(public_limiter).spec_rate() == old(public_limiter).spec_rate(),
        final(public_limiter).spec_sweep_interval() == old(public_limiter).spec_sweep_interval(),
        final(auth_limiter).spec_capacity() == old(auth_limiter).spec_capacity(),
        final(auth_limiter).spec_rate() == old(auth_limiter).spec_rate(),
        final(auth_limiter).spec_sweep_interval() == old(auth_limiter).spec_sweep_interval(),
        req.body_len > BODY_SIZE_CAP_BYTES ==> {
            &&& out == GateOutcome::PayloadTooLarge
            &&& final(public_limiter)@ == old(public_limiter)@
            &&& final(auth_limiter)@ == old(auth_limiter)@
        },
        req.body_len <= BODY_SIZE_CAP_BYTES && req.route == RouteClass::Public ==> {
            let allows = spec_check_allows(
                old(public_limiter)@,
                req.origin@,
                old(public_limiter).spec_capacity(),
                old(public_limiter).spec_rate(),
                now,
            );
            &&& final(auth_limiter)@ == old(auth_limiter)@
            &&& final(public_limiter)@ == spec_after_check(
                old(public_limiter)@,
                req.origin@,
                old(public_limiter).spec_capacity(),
                old(public_limiter).spec_rate(),
                now,
            )
            &&& out == if allows {
                GateOutcome::Allowed(None)
            } else {
                GateOutcome::RateLimited
            }
        },
        req.body_len <= BODY_SIZE_CAP_BYTES && req.route == RouteClass::Protected ==> {
            &&& final(public_limiter)@ == old(public_limiter)@
            &&& match req.auth_header {
                None => out == GateOutcome::KeyRejected && final(auth_limiter)@ == old(
                    auth_limiter)@,
                Some(h) => if !spec_has_bearer_prefix(h@) {
                    out == GateOutcome::KeyRejected && final(auth_limiter)@ == old(auth_limiter)@
                } else {
                    let key = spec_bearer_rest(h@);
                    let allows = spec_check_allows(
                        old(auth_limiter)@,
                        key,
                        old(auth_limiter).spec_capacity(),
                        old(auth_limiter).spec_rate(),
                        now,
                    );
                    &&& final(auth_limiter)@ == spec_after_check(
                        old(auth_limiter)@,
                        key,
                        old(auth_limiter).spec_capacity(),
                        old(auth_limiter).spec_rate(),
                        now,
                    )
                    &&& (out == GateOutcome::RateLimited <==> !allows)
                    &&& (allows ==> spec_auth_outcome(h@, secret@, leeway, now, out))
                }
            }
        },
{
    if req.body_len > BODY_SIZE_CAP_BYTES {
        return GateOutcome::PayloadTooLarge;
    }
    match req.route {
        RouteClass::Public => {
            let allowed = public_limiter.check(req.origin.as_str(), now);
            if allowed {
                GateOutcome::Allowed(None)
            } else {
                GateOutcome::RateLimited
            }
        },
        RouteClass::Protected => {
            let header: Option<&str> = match &req.auth_header {
                Some(h) => Some(h.as_str()),
                None => None,
            };
            let extractor = JwtKeyExtractor;
            match extractor.extract(header) {
                None => GateOutcome::KeyRejected,
                Some(key) => {
                    let allowed = auth_limiter.check(key.as_str(), now);
                    if !allowed {
                        return GateOutcome::RateLimited;
                    }
                    match authenticate(header, secret, leeway, now) {
                        Ok(c) => GateOutcome::Allowed(Some(c)),
                        Err(e) => GateOutcome::AuthFailed(e),
                    }
                },
            }
        },
    }
}

/// `hs` carries a header called `name` whose value is exactly `value`.
pub open spec fn spec_has_header(hs: Seq<(String, String)>, name: Seq<char>, value: Seq<char>) -> bool {
    exists|i: int| #![trigger hs[i]] 0 <= i < hs.len() && hs[i].0@ == name && hs[i].1@ == value
}

/// `name` is one of the six security headers the gateway always sets.
pub open spec fn spec_is_security_header_name(name: Seq<char>) -> bool {
    ||| name == "Content-Security-Policy"@
    ||| name == "Strict-Transport-Security"@
    ||| name == "X-Content-Type-Options"@
    ||| name == "X-Frame-Options"@
    ||| name == "Referrer-Policy"@
    ||| name == "Permissions-Policy"@
}

/// The six security headers are all present, each with its fixed value.
pub open spec fn spec_security_headers_present(hs: Seq<(String, String)>) -> bool {
    &&& spec_has_header(hs, "Content-Security-Policy"@, "default-src 'self'"@)
    &&& spec_has_header(hs, "Strict-Transport-Security"@, "max-age=31536000; includeSubDomains"@)
    &&& spec_has_header(hs, "X-Content-Type-Options"@, "nosniff"@)
    &&& spec_has_header(hs, "X-Frame-Options"@, "DENY"@)
    &&& spec_has_header(hs, "Referrer-Policy"@, "no-referrer-when-downgrade"@)
    &&& spec_has_header(hs, "Permissions-Policy"@, "geolocation=(), camera=()"@)
}

/// Every security header name carries exactly its fixed value: no entry
/// contradicts the policy.
pub open spec fn spec_security_values_pinned(hs: Seq<(String, String)>) -> bool {
    forall|i: int|
        #![trigger hs[i]]
        0 <= i < hs.len() ==> {
            &&& (hs[i].0@ == "Content-Security-Policy"@ ==> hs[i].1@ == "default-src 'self'"@)
            &&& (hs[i].0@ == "Strict-Transport-Security"@ ==> hs[i].1@
                == "max-age=31536000; includeSubDomains"@)
            &&& (hs[i].0@ == "X-Content-Type-Options"@ ==> hs[i].1@ == "nosniff"@)
            &&& (hs[i].0@ == "X-Frame-Options"@ ==> hs[i].1@ == "DENY"@)
            &&& (hs[i].0@ == "Referrer-Policy"@ ==> hs[i].1@ == "no-referrer-when-downgrade"@)
            &&& (hs[i].0@ == "Permissions-Policy"@ ==> hs[i].1@ == "geolocation=(), camera=()"@)
        }
}

/// The sub-sequence of `hs` whose names are not among the six security
/// headers, in its original order and multiplicity.
pub open spec fn spec_other_headers(hs: Seq<(String, String)>) -> Seq<(String, String)> {
    hs.filter(|p: (String, String)| !spec_is_security_header_name(p.0@))
}

/// Appending security-named pairs adds nothing to the other headers.
proof fn lemma_other_headers_append_security(a: Seq<(String, String)>, b: Seq<(String, String)>)
    requires
        forall|k: int| 0 <= k < b.len() ==> spec_is_security_header_name(#[trigger] b[k].0@),
    ensures
        spec_other_headers(a + b) =~= spec_other_headers(a),
    decreases b.len(),
{
    reveal(Seq::<(String, String)>::filter);
    if b.len() == 0 {
        assert(a + b =~= a);
    } else {
        let t = a + b;
        assert(t.last() == b.last());
        assert(t.drop_last() =~= a + b.drop_last());
        lemma_other_headers_append_security(a, b.drop_last());
    }
}

/// A list with no security-named pair is its own other-headers.
proof fn lemma_other_headers_of_plain(hs: Seq<(String, String)>)
    requires
        forall|k: int| 0 <= k < hs.len() ==> !spec_is_security_header_name(#[trigger] hs[k].0@),
    ensures
        spec_other_headers(hs) =~= hs,
    decreases hs.len(),
{
    reveal(Seq::<(String, String)>::filter);
    if hs.len() > 0 {
        lemma_other_headers_of_plain(hs.drop_last());
        assert(spec_other_headers(hs) =~= hs.drop_last().push(hs.last()));
        assert(hs.drop_last().push(hs.last()) =~= hs);
    }
}

/// One filtering step, for the loop that walks the header list.
proof fn lemma_other_headers_push(hs: Seq<(String, String)>, p: (String, String))
    ensures
        spec_is_security_header_name(p.0@) ==> spec_other_headers(hs.push(p)) =~= spec_other_headers(
            hs,
        ),
        !spec_is_security_header_name(p.0@) ==> spec_other_headers(hs.push(p))
            =~= spec_other_headers(hs).push(p),
{
    reveal(Seq::<(String, String)>::filter);
    let t = hs.push(p);
    assert(t.drop_last() =~= hs);
    assert(t.last() == p);
}

/// No two of the six security header names read the same.
proof fn lemma_security_names_distinct()
    ensures
        "Content-Security-Policy"@ != "Strict-Transport-Security"@,
        "Content-Security-Policy"@ != "X-Content-Type-Options"@,
        "Content-Security-Policy"@ != "X-Frame-Options"@,
        "Content-Security-Policy"@ != "Referrer-Policy"@,
        "Content-Security-Policy"@ != "Permissions-Policy"@,
        "Strict-Transport-Security"@ != "X-Content-Type-Options"@,
        "Strict-Transport-Security"@ != "X-Frame-Options"@,
        "Strict-Transport-Security"@ != "Referrer-Policy"@,
        "Strict-Transport-Security"@ != "Permissions-Policy"@,
        "X-Content-Type-Options"@ != "X-Frame-Options"@,
        "X-Content-Type-Options"@ != "Referrer-Policy"@,
        "X-Content-Type-Options"@ != "Permissions-Policy"@,
        "X-Frame-Options"@ != "Referrer-Policy"@,
        "X-Frame-Options"@ != "Permissions-Policy"@,
        "Referrer-Policy"@ != "Permissions-Policy"@,
{
    reveal_strlit("Content-Security-Policy");
    reveal_strlit("Strict-Transport-Security");
    reveal_strlit("X-Content-Type-Options");
    reveal_strlit("X-Frame-Options");
    reveal_strlit("Referrer-Policy");
    reveal_strlit("Permissions-Policy");
    assert("Content-Security-Policy"@.len() == 23);
    assert("Strict-Transport-Security"@.len() == 25);
    assert("X-Content-Type-Options"@.len() == 22);
    assert("X-Frame-Options"@.len() == 15);
    assert("Referrer-Policy"@.len() == 15);
    assert("Permissions-Policy"@.len() == 18);
    assert("X-Frame-Options"@[0] == 'X' && "Referrer-Policy"@[0] == 'R');
}

fn is_security_header_name(name: &String) -> (b: bool)
    ensures
        b == spec_is_security_header_name(name@),
{
    *name == String::from_str("Content-Security-Policy") || *name == String::from_str(
        "Strict-Transport-Security",
    ) || *name == String::from_str("X-Content-Type-Options") || *name == String::from_str(
        "X-Frame-Options",
    ) || *name == String::from_str("Referrer-Policy") || *name == String::from_str(
        "Permissions-Policy",
    )
}

/// Stamp the six security headers onto a response's header list,
/// unconditionally and with their fixed literal values, whatever the
/// response was. Pre-existing headers by other names ride through in their
/// order and multiplicity; a pre-existing header by one of the six names is
/// replaced.
pub fn apply_security_headers(headers: &mut Vec<(String, String)>)
    ensures
        spec_security_headers_present(final(headers)@),
        spec_security_values_pinned(final(headers)@),
        spec_other_headers(final(headers)@) == spec_other_headers(old(headers)@),
{
    let ghost orig = headers@;
    let n = headers.len();
    let mut kept: Vec<(String, String)> = Vec::new();
    let mut i: usize = 0;
    proof {
        reveal(Seq::<(String, String)>::filter);
        assert(orig.subrange(0, 0) =~= Seq::<(String, String)>::empty());
    }
    while i < n
        invariant
            n == orig.len(),
            i <= n,
            orig == headers@,
            kept@ == spec_other_headers(orig.subrange(0, i as int)),
            forall|m: int|
                0 <= m < kept@.len() ==> !spec_is_security_header_name(#[trigger] kept@[m].0@),
        decreases n - i,
    {
        let ghost seen = orig.subrange(0, i as int);
        proof {
            lemma_other_headers_push(seen, orig[i as int]);
            assert(orig.subrange(0, i as int + 1) =~= seen.push(orig[i as int]));
        }
        if !is_security_header_name(&headers[i].0) {
            let pair = (headers[i].0.clone(), headers[i].1.clone());
            proof {
                assert(pair == orig[i as int]);
            }
            kept.push(pair);
        }
        i = i + 1;
    }
    proof {
        assert(orig.subrange(0, n as int) =~= orig);
    }
    let ghost filtered = kept@;
    let mut six = security_headers();
    let ghost fixed = six@;
    kept.append(&mut six);
    proof {
        assert(kept@ == filtered + fixed);
        assert(kept@.len() == filtered.len() + 6);
        assert forall|i: int| 0 <= i < kept@.len() implies #[trigger] kept@[i] == (if i
            < filtered.len() {
            filtered[i]
        } else {
            fixed[i - filtered.len()]
        }) by {}
        assert(spec_security_headers_present(kept@)) by {
            assert(kept@[filtered.len() as int] == fixed[0]);
            assert(kept@[filtered.len() as int + 1] == fixed[1]);
            assert(kept@[filtered.len() as int + 2] == fixed[2]);
            assert(kept@[filtered.len() as int + 3] == fixed[3]);
            assert(kept@[filtered.len() as int + 4] == fixed[4]);
            assert(kept@[filtered.len() as int + 5] == fixed[5]);
        }
        lemma_security_names_distinct();
        assert forall|i: int|
            0 <= i < kept@.len() implies {
            let h = #[trigger] kept@[i];
            &&& (h.0@ == "Content-Security-Policy"@ ==> h.1@ == "default-src 'self'"@)
            &&& (h.0@ == "Strict-Transport-Security"@ ==> h.1@
                == "max-age=31536000; includeSubDomains"@)
            &&& (h.0@ == "X-Content-Type-Options"@ ==> h.1@ == "nosniff"@)
            &&& (h.0@ == "X-Frame-Options"@ ==> h.1@ == "DENY"@)
            &&& (h.0@ == "Referrer-Policy"@ ==> h.1@ == "no-referrer-when-downgrade"@)
            &&& (h.0@ == "Permissions-Policy"@ ==> h.1@ == "geolocation=(), camera=()"@)
        } by {
            if i < filtered.len() {
                assert(kept@[i] == filtered[i]);
                assert(!spec_is_security_header_name(filtered[i].0@));
            } else {
                assert(kept@[i] == fixed[i - filtered.len()]);
            }
        }
        assert(spec_security_values_pinned(kept@));
        assert forall|k: int| 0 <= k < fixed.len() implies spec_is_security_header_name(
            #[trigger] fixed[k].0@,
        ) by {
            if k == 0 {
                assert(fixed[0].0@ == "Content-Security-Policy"@);
            } else if k == 1 {
                assert(fixed[1].0@ == "Strict-Transport-Security"@);
            } else if k == 2 {
                assert(fixed[2].0@ == "X-Content-Type-Options"@);
            } else if k == 3 {
                assert(fixed[3].0@ == "X-Frame-Options"@);
            } else if k == 4 {
                assert(fixed[4].0@ == "Referrer-Policy"@);
            } else {
                assert(fixed[5].0@ == "Permissions-Policy"@);
            }
        }
        lemma_other_headers_append_security(filtered, fixed);
        lemma_other_headers_of_plain(filtered);
        assert(spec_other_headers(kept@) == spec_other_headers(orig));
    }
    *headers = kept;
}

/// The six security headers and their fixed values, in one list.
pub fn security_headers() -> (hs: Vec<(String, String)>)
    ensures
        hs@.len() == 6,
        hs@[0].0@ == "Content-Security-Policy"@,
        hs@[0].1@ == "default-src 'self'"@,
        hs@[1].0@ == "Strict-Transport-Security"@,
        hs@[1].1@ == "max-age=31536000; includeSubDomains"@,
        hs@[2].0@ == "X-Content-Type-Options"@,
        hs@[2].1@ == "nosniff"@,
        hs@[3].0@ == "X-Frame-Options"@,
        hs@[3].1@ == "DENY"@,
        hs@[4].0@ == "Referrer-Policy"@,
        hs@[4].1@ == "no-referrer-when-downgrade"@,
        hs@[5].0@ == "Permissions-Policy"@,
        hs@[5].1@ == "geolocation=(), camera=()"@,
{
    let mut hs: Vec<(String, String)> = Vec::new();
    push_header(&mut hs, "Content-Security-Policy", "default-src 'self'");
    push_header(&mut hs, "Strict-Transport-Security", "max-age=31536000; includeSubDomains");
    push_header(&mut hs, "X-Content-Type-Options", "nosniff");
    push_header(&mut hs, "X-Frame-Options", "DENY");
    push_header(&mut hs, "Referrer-Policy", "no-referrer-when-downgrade");
    push_header(&mut hs, "Permissions-Policy", "geolocation=(), camera=()");
    hs
}

/// Append one header pair built from literals.
fn push_header(hs: &mut Vec<(String, String)>, name: &str, value: &str)
    ensures
        final(hs)@.len() == old(hs)@.len() + 1,
        final(hs)@[final(hs)@.len() - 1].0@ == name@,
        final(hs)@[final(hs)@.len() - 1].1@ == value@,
        forall|i: int| 0 <= i < old(hs)@.len() ==> final(hs)@[i] == old(hs)@[i],
{
    hs.push((String::from_str(name), String::from_str(value)));
}

/// The fixed cross-origin policy the gateway honors. The server runtime
/// enforces it; the values live here so that they are pinned alongside the
/// rest of the pipeline configuration.
#[derive(Debug, Clone)]
pub struct CorsPolicy {
    pub allowed_origins: Vec<String>,
    pub allowed_methods: Vec<String>,
    pub allowed_headers: Vec<String>,
    pub allow_credentials: bool,
    pub max_age_seconds: u64,
}

/// The gateway's CORS policy: two local origins, the three routed methods,
/// the two request headers the routes read, no cross-origin credentials,
/// and a one-day preflight cache.
pub fn cors_policy() -> (p: CorsPolicy)
    ensures
        p.allowed_origins@.len() == 2,
        p.allowed_origins@[0]@ == "http://0.0.0.0:3000"@,
        p.allowed_origins@[1]@ == "http://0.0.0.0:8080"@,
        p.allowed_methods@.len() == 3,
        p.allowed_methods@[0]@ == "GET"@,
        p.allowed_methods@[1]@ == "POST"@,
        p.allowed_methods@[2]@ == "DELETE"@,
        p.allowed_headers@.len() == 2,
        p.allowed_headers@[0]@ == "Authorization"@,
        p.allowed_headers@[1]@ == "Content-Type"@,
        !p.allow_credentials,
        p.max_age_seconds == 86400,
{
    let mut allowed_origins: Vec<String> = Vec::new();
    allowed_origins.push(String::from_str("http://0.0.0.0:3000"));
    allowed_origins.push(String::from_str("http://0.0.0.0:8080"));
    let mut allowed_methods: Vec<String> = Vec::new();
    allowed_methods.push(String::from_str("GET"));
    allowed_methods.push(String::from_str("POST"));
    allowed_methods.push(String::from_str("DELETE"));
    let mut allowed_headers: Vec<String> = Vec::new();
    allowed_headers.push(String::from_str("Authorization"));
    allowed_headers.push(String::from_str("Content-Type"));
    CorsPolicy {
        allowed_origins,
        allowed_methods,
        allowed_headers,
        allow_credentials: false,
        max_age_seconds: 86400,
    }
}

/// The HTTP status each verdict is reported with. A pass is the gateway's
/// 200; the handler behind it sets its own status on the way out.
pub open spec fn spec_outcome_status(out: GateOutcome) -> u16 {
    match out {
        GateOutcome::Allowed(_) => 200,
        GateOutcome::PayloadTooLarge => 413,
        GateOutcome::RateLimited => 429,
        GateOutcome::KeyRejected => 500,
        GateOutcome::AuthFailed(e) => e.spec_status_code(),
    }
}

pub fn outcome_status(out: &GateOutcome) -> (code: u16)
    ensures
        code == spec_outcome_status(*out),
{
    match out {
        GateOutcome::Allowed(_) => 200,
        GateOutcome::PayloadTooLarge => 413,
        GateOutcome::RateLimited => 429,
        GateOutcome::KeyRejected => 500,
        GateOutcome::AuthFailed(e) => e.status_code(),
    }
}

/// A response about to leave the gateway: its status and header list.
#[derive(Debug, Clone)]
pub struct GatewayResponse {
    pub status: u16,
    pub headers: Vec<(String, String)>,
}

/// Build the response for a verdict, from whatever headers the handler
/// set: the verdict's status, and the six security headers stamped on —
/// on every response, success or failure alike.
pub fn respond(out: &GateOutcome, headers: Vec<(String, String)>) -> (r: GatewayResponse)
    ensures
        r.status == spec_outcome_status(*out),
        spec_security_headers_present(r.headers@),
        spec_security_values_pinned(r.headers@),
        spec_other_headers(r.headers@) == spec_other_headers(headers@),
{
    let status = outcome_status(out);
    let mut headers = headers;
    apply_security_headers(&mut headers);
    GatewayResponse { status, headers }
}

} // verus!
