use score_gateway::ratelimit::RateLimiter;

/// With a burst of three and one token per second, three requests in the
/// same second are allowed, the fourth is refused, and one second later a
/// single refilled token lets the next one through.
#[test]
fn burst_then_reject_then_refill() {
    let mut limiter = RateLimiter::new(3, 1, 86400);
    let t0: u64 = 1_700_000_000;

    assert!(limiter.check("caller", t0));
    assert!(limiter.check("caller", t0));
    assert!(limiter.check("caller", t0));
    assert!(!limiter.check("caller", t0), "fourth request within the burst must be refused");

    assert!(limiter.check("caller", t0 + 1), "one refilled token must admit the next request");
    assert!(!limiter.check("caller", t0 + 1), "the single refilled token is spent");
}

/// Exhausting one key's bucket must not affect another key's bucket.
#[test]
fn keys_are_independent() {
    let mut limiter = RateLimiter::new(3, 1, 86400);
    let t0: u64 = 1_700_000_000;

    for _ in 0..3 {
        assert!(limiter.check("key_a", t0));
    }
    assert!(!limiter.check("key_a", t0));

    assert!(limiter.check("key_b", t0), "key B must start with its own full bucket");
    assert!(limiter.check("key_b", t0));
    assert!(limiter.check("key_b", t0));
    assert!(!limiter.check("key_b", t0));
    assert!(!limiter.check("key_a", t0), "key A stays exhausted");
}

/// A key untouched for the full sweep interval is removed, and its next
/// request starts over with a full burst.
#[test]
fn sweep_resets_idle_key() {
    let mut limiter = RateLimiter::new(3, 1, 100);
    let t0: u64 = 1_700_000_000;

    // Drain the key completely.
    for _ in 0..3 {
        assert!(limiter.check("idle", t0));
    }
    assert!(!limiter.check("idle", t0));

    // Untouched for more than the interval: the sweep drops it.
    limiter.sweep(t0 + 101);

    // A fresh request finds a full burst again, not a slowly refilled one.
    let t1 = t0 + 101;
    assert!(limiter.check("idle", t1));
    assert!(limiter.check("idle", t1));
    assert!(limiter.check("idle", t1));
    assert!(!limiter.check("idle", t1));
}

/// A recently used key survives the sweep with its bucket state intact.
#[test]
fn sweep_keeps_active_key() {
    let mut limiter = RateLimiter::new(3, 1, 100);
    let t0: u64 = 1_700_000_000;

    for _ in 0..3 {
        assert!(limiter.check("active", t0));
    }
    limiter.sweep(t0 + 50);
    assert!(
        !limiter.check("active", t0),
        "the kept bucket is still empty at the same instant"
    );
}

/// The two route-class limiters come configured as specified: bursts of
/// three and five, refilling once a second.
#[test]
fn default_limiter_bursts() {
    let t0: u64 = 1_700_000_000;

    let mut public = RateLimiter::public_default();
    for _ in 0..3 {
        assert!(public.check("origin", t0));
    }
    assert!(!public.check("origin", t0));

    let mut auth = RateLimiter::authenticated_default();
    for _ in 0..5 {
        assert!(auth.check("token", t0));
    }
    assert!(!auth.check("token", t0));
}

/// The refill is capped at the capacity: a long idle time does not grant
/// more than one burst.
#[test]
fn refill_caps_at_capacity() {
    let mut limiter = RateLimiter::new(3, 1, 86400);
    let t0: u64 = 1_700_000_000;

    assert!(limiter.check("caller", t0));
    // A week later the bucket is full again, but no fuller.
    let t1 = t0 + 604_800;
    assert!(limiter.check("caller", t1));
    assert!(limiter.check("caller", t1));
    assert!(limiter.check("caller", t1));
    assert!(!limiter.check("caller", t1));
}
