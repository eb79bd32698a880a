use score_gateway::error::JwtError;
use score_gateway::pipeline::BODY_SIZE_CAP_BYTES;
use score_gateway::pipeline::GateOutcome;
use score_gateway::pipeline::GatewayRequest;
use score_gateway::pipeline::RouteClass;
use score_gateway::pipeline::apply_security_headers;
use score_gateway::pipeline::cors_policy;
use score_gateway::pipeline::outcome_status;
use score_gateway::pipeline::security_headers;
use score_gateway::ratelimit::RateLimiter;
use score_gateway::token::issue;

fn limiters() -> (RateLimiter, RateLimiter) {
    (RateLimiter::public_default(), RateLimiter::authenticated_default())
}

fn protected_request(header: Option<&str>) -> GatewayRequest {
    GatewayRequest {
        route: RouteClass::Protected,
        origin: "203.0.113.7".to_string(),
        auth_header: header.map(|h| h.to_string()),
        body_len: 10,
    }
}

/// An invalid credential against an exhausted bucket is answered with the
/// rate-limit rejection, not the authentication failure: throttling comes
/// first.
#[test]
fn rate_limit_precedes_authentication() {
    let (mut public, mut auth) = limiters();
    let now: u64 = 1_700_000_000;
    let secret = "pipeline_secret";
    let bad_header = "Bearer not.a.token";
    let req = protected_request(Some(bad_header));

    // The burst of five is spent on authentication failures.
    for _ in 0..5 {
        let out = score_gateway::pipeline::gate_request(
            &req, &mut public, &mut auth, secret, 60, now,
        );
        assert_eq!(out, GateOutcome::AuthFailed(JwtError::DecodeError));
    }

    // The sixth request is refused by the throttle before any verification.
    let out = score_gateway::pipeline::gate_request(&req, &mut public, &mut auth, secret, 60, now);
    assert_eq!(out, GateOutcome::RateLimited);
    assert_eq!(outcome_status(&out), 429);
}

/// A body over the cap is rejected before anything else: even a request
/// that would also fail authentication reports the payload error, and no
/// bucket is spent.
#[test]
fn body_cap_precedes_everything() {
    let (mut public, mut auth) = limiters();
    let now: u64 = 1_700_000_000;
    let mut req = protected_request(Some("Bearer not.a.token"));
    req.body_len = BODY_SIZE_CAP_BYTES + 1;

    let out = score_gateway::pipeline::gate_request(&req, &mut public, &mut auth, "s", 60, now);
    assert_eq!(out, GateOutcome::PayloadTooLarge);
    assert_eq!(outcome_status(&out), 413);

    // The oversized request spent no tokens: the full burst is still there.
    let mut small = protected_request(Some("Bearer not.a.token"));
    small.body_len = 0;
    for _ in 0..5 {
        let out =
            score_gateway::pipeline::gate_request(&small, &mut public, &mut auth, "s", 60, now);
        assert_eq!(out, GateOutcome::AuthFailed(JwtError::DecodeError));
    }
}

/// A valid token flows through the whole pipeline and hands the claims to
/// the handler.
#[test]
fn valid_token_passes_pipeline() {
    let (mut public, mut auth) = limiters();
    let now: u64 = 1_700_000_000;
    let secret = "pipeline_secret";
    let token = issue("alice", "admin", secret, now).expect("issue failed");
    let header = format!("Bearer {}", token);
    let req = protected_request(Some(&header));

    let out = score_gateway::pipeline::gate_request(&req, &mut public, &mut auth, secret, 60, now);
    match out {
        GateOutcome::Allowed(Some(claims)) => {
            assert_eq!(claims.sub, "alice");
            assert_eq!(claims.role, "admin");
        },
        other => panic!("expected a pass with claims, got {:?}", other),
    }
}

/// A protected request without an extractable key is refused outright and
/// billed to nobody.
#[test]
fn missing_key_is_rejected_not_shared() {
    let (mut public, mut auth) = limiters();
    let now: u64 = 1_700_000_000;

    let out = score_gateway::pipeline::gate_request(
        &protected_request(None),
        &mut public,
        &mut auth,
        "s",
        60,
        now,
    );
    assert_eq!(out, GateOutcome::KeyRejected);
    assert_eq!(outcome_status(&out), 500);

    let out = score_gateway::pipeline::gate_request(
        &protected_request(Some("Basic dXNlcg==")),
        &mut public,
        &mut auth,
        "s",
        60,
        now,
    );
    assert_eq!(out, GateOutcome::KeyRejected);
}

/// Public routes are throttled by origin, with a burst of three.
#[test]
fn public_route_throttled_by_origin() {
    let (mut public, mut auth) = limiters();
    let now: u64 = 1_700_000_000;
    let req = GatewayRequest {
        route: RouteClass::Public,
        origin: "203.0.113.7".to_string(),
        auth_header: None,
        body_len: 0,
    };

    for _ in 0..3 {
        let out =
            score_gateway::pipeline::gate_request(&req, &mut public, &mut auth, "s", 60, now);
        assert_eq!(out, GateOutcome::Allowed(None));
        assert_eq!(outcome_status(&out), 200);
    }
    let out = score_gateway::pipeline::gate_request(&req, &mut public, &mut auth, "s", 60, now);
    assert_eq!(out, GateOutcome::RateLimited);
}

#[test]
fn test_set_up_security_headers() {
    let mut headers: Vec<(String, String)> = vec![("User-agent".to_string(), "test-agent".to_string())];
    apply_security_headers(&mut headers);

    let get = |name: &str| -> Option<String> {
        headers
            .iter()
            .find(|(n, _)| n == name)
            .map(|(_, v)| v.clone())
    };

    assert!(get("Content-Security-Policy").is_some());
    assert!(get("Strict-Transport-Security").is_some());
    assert!(get("X-Content-Type-Options").is_some());
    assert!(get("X-Frame-Options").is_some());
    assert!(get("Referrer-Policy").is_some());
    assert!(get("Permissions-Policy").is_some());

    assert_eq!(get("Content-Security-Policy").unwrap(), "default-src 'self'");
    assert_eq!(
        get("Strict-Transport-Security").unwrap(),
        "max-age=31536000; includeSubDomains"
    );
    assert_eq!(get("X-Content-Type-Options").unwrap(), "nosniff");
    assert_eq!(get("X-Frame-Options").unwrap(), "DENY");
    assert_eq!(get("Referrer-Policy").unwrap(), "no-referrer-when-downgrade");
    assert_eq!(get("Permissions-Policy").unwrap(), "geolocation=(), camera=()");

    // The unrelated header rode through untouched.
    assert_eq!(get("User-agent").unwrap(), "test-agent");
}

/// A response that already carries one of the six names with another value
/// has it replaced by the fixed one.
#[test]
fn security_headers_replace_conflicting_values() {
    let mut headers: Vec<(String, String)> =
        vec![("X-Frame-Options".to_string(), "ALLOWALL".to_string())];
    apply_security_headers(&mut headers);

    let frame_values: Vec<&String> = headers
        .iter()
        .filter(|(n, _)| n == "X-Frame-Options")
        .map(|(_, v)| v)
        .collect();
    assert_eq!(frame_values, vec!["DENY"]);
}

/// The six fixed pairs, in the order they are stamped on.
#[test]
fn security_header_list_is_fixed() {
    let hs = security_headers();
    let expected = vec![
        ("Content-Security-Policy", "default-src 'self'"),
        ("Strict-Transport-Security", "max-age=31536000; includeSubDomains"),
        ("X-Content-Type-Options", "nosniff"),
        ("X-Frame-Options", "DENY"),
        ("Referrer-Policy", "no-referrer-when-downgrade"),
        ("Permissions-Policy", "geolocation=(), camera=()"),
    ];
    assert_eq!(hs.len(), expected.len());
    for (got, want) in hs.iter().zip(expected.iter()) {
        assert_eq!(got.0, want.0);
        assert_eq!(got.1, want.1);
    }
}

/// Every response carries the security headers, success and failure alike,
/// and the verdict's status.
#[test]
fn responses_always_carry_security_headers() {
    let outcomes = vec![
        (GateOutcome::Allowed(None), 200),
        (GateOutcome::PayloadTooLarge, 413),
        (GateOutcome::RateLimited, 429),
        (GateOutcome::KeyRejected, 500),
        (GateOutcome::AuthFailed(JwtError::MissingAuthHeader), 401),
        (GateOutcome::AuthFailed(JwtError::InvalidTokenFormat), 400),
    ];
    for (out, status) in outcomes {
        let response = score_gateway::pipeline::respond(&out, vec![]);
        assert_eq!(response.status, status);
        for (name, value) in security_headers() {
            assert!(
                response.headers.iter().any(|(n, v)| *n == name && *v == value),
                "missing {}",
                name
            );
        }
    }
}

/// The CORS policy holds exactly the configured allow-lists.
#[test]
fn cors_policy_is_fixed() {
    let p = cors_policy();
    assert_eq!(p.allowed_origins, vec!["http://0.0.0.0:3000", "http://0.0.0.0:8080"]);
    assert_eq!(p.allowed_methods, vec!["GET", "POST", "DELETE"]);
    assert_eq!(p.allowed_headers, vec!["Authorization", "Content-Type"]);
    assert!(!p.allow_credentials);
    assert_eq!(p.max_age_seconds, 86400);
}
