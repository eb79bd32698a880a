//! A keyed token-bucket rate limiter with lazy refill and periodic sweeping
//! of idle keys.
//!
//! Each key owns a bucket of at most `capacity` tokens; a bucket refills at
//! `refill_per_second` tokens per second, computed lazily from the elapsed
//! time on each access, and a check consumes one token or is refused. A
//! sweep drops every bucket that has sat untouched for longer than the sweep
//! interval, bounding memory under churn of distinct callers; such a key
//! simply starts over with a full burst on its next request.
//!
//! One limiter instance serves public traffic keyed by network origin, a
//! second serves authenticated traffic keyed by the raw bearer credential.
//! Callers serialize access per instance (the server holds each instance
//! behind a lock), which makes check-and-decrement atomic per key.

use vstd::prelude::*;

verus! {

/// Burst size of the limiter for public routes.
pub const PUBLIC_BURST: u64 = 3;

/// Burst size of the limiter for authenticated routes.
pub const AUTH_BURST: u64 = 5;

/// Both limiters refill sixty tokens per minute: one per second.
pub const REFILL_PER_SECOND: u64 = 1;

/// Idle keys are dropped after a day without access.
pub const SWEEP_INTERVAL_SECONDS: u64 = 86400;

/// Per-key bucket state: the tokens left and the instant of the last
/// refill. Refill happens on every access, so this instant is also the last
/// access, and the sweep goes by it.
#[derive(Debug, Clone, Copy, PartialEq, Eq, Structural)]
pub struct TokenBucket {
    pub tokens: u64,
    pub last_refill: u64,
}

/// The bucket a key starts with when first seen at `now`: a full burst.
pub open spec fn fresh_bucket(capacity: u64, now: u64) -> TokenBucket {
    TokenBucket { tokens: capacity, last_refill: now }
}

/// Lazy refill: `min(capacity, tokens + elapsed * rate)`. A clock reading
/// at or before the last refill leaves the bucket as it is.
pub open spec fn spec_refill(b: TokenBucket, capacity: u64, rate: u64, now: u64) -> TokenBucket {
    if now <= b.last_refill {
        b
    } else if b.tokens + (now - b.last_refill) * rate >= capacity {
        TokenBucket { tokens: capacity, last_refill: now }
    } else {
        TokenBucket { tokens: (b.tokens + (now - b.last_refill) * rate) as u64, last_refill: now }
    }
}

/// One access at time `now`: refill lazily, then either consume a token and
/// allow, or refuse and leave the refilled bucket as it is.
pub open spec fn spec_check(b: TokenBucket, capacity: u64, rate: u64, now: u64) -> (
    TokenBucket,
    bool,
) {
    let f = spec_refill(b, capacity, rate, now);
    if f.tokens >= 1 {
        (TokenBucket { tokens: (f.tokens - 1) as u64, last_refill: f.last_refill }, true)
    } else {
        (f, false)
    }
}

/// A sweep at time `now` keeps a bucket only while its last access is at
/// most one sweep interval old.
pub open spec fn spec_retained(b: TokenBucket, interval: u64, now: u64) -> bool {
    now <= b.last_refill + interval
}

/// The bucket a check at `now` starts from: the key's bucket if the
/// registry holds one, else a fresh full one.
pub open spec fn spec_prior_bucket(
    m: Map<Seq<char>, TokenBucket>,
    key: Seq<char>,
    capacity: u64,
    now: u64,
) -> TokenBucket {
    if m.contains_key(key) {
        m[key]
    } else {
        fresh_bucket(capacity, now)
    }
}

/// Whether a check of `key` at `now` against registry state `m` is allowed.
pub open spec fn spec_check_allows(
    m: Map<Seq<char>, TokenBucket>,
    key: Seq<char>,
    capacity: u64,
    rate: u64,
    now: u64,
) -> bool {
    spec_check(spec_prior_bucket(m, key, capacity, now), capacity, rate, now).1
}

/// The registry state a check of `key` at `now` leaves behind.
pub open spec fn spec_after_check(
    m: Map<Seq<char>, TokenBucket>,
    key: Seq<char>,
    capacity: u64,
    rate: u64,
    now: u64,
) -> Map<Seq<char>, TokenBucket> {
    m.insert(key, spec_check(spec_prior_bucket(m, key, capacity, now), capacity, rate, now).0)
}

/// No two entries of the registry share a key.
spec fn keys_unique(s: Seq<(String, TokenBucket)>) -> bool {
    forall|i: int, j: int| 0 <= i < j < s.len() ==> s[i].0@ != s[j].0@
}

/// The mapping a key/bucket association list stands for, later entries
/// winning (the registry keeps keys unique, so there is no overlap).
spec fn assoc_map(s: Seq<(String, TokenBucket)>) -> Map<Seq<char>, TokenBucket>
    decreases s.len(),
{
    if s.len() == 0 {
        Map::empty()
    } else {
        assoc_map(s.drop_last()).insert(s.last().0@, s.last().1)
    }
}

proof fn lemma_assoc_map_index(s: Seq<(String, TokenBucket)>, i: int)
    requires
        0 <= i < s.len(),
        keys_unique(s),
    ensures
        assoc_map(s).contains_key(s[i].0@),
        assoc_map(s)[s[i].0@] == s[i].1,
    decreases s.len(),
{
    if i < s.len() - 1 {
        assert(keys_unique(s.drop_last()));
        lemma_assoc_map_index(s.drop_last(), i);
        assert(s[i].0@ != s.last().0@);
    }
}

proof fn lemma_assoc_map_contains_to_index(s: Seq<(String, TokenBucket)>, k: Seq<char>)
    requires
        assoc_map(s).contains_key(k),
    ensures
        exists|i: int| 0 <= i < s.len() && #[trigger] s[i].0@ == k && s[i].1 == assoc_map(s)[k],
    decreases s.len(),
{
    if s.len() > 0 {
        if s.last().0@ == k {
            assert(s[s.len() - 1].0@ == k && s[s.len() - 1].1 == assoc_map(s)[k]);
        } else {
            lemma_assoc_map_contains_to_index(s.drop_last(), k);
            let i = choose|i: int|
                0 <= i < s.drop_last().len() && #[trigger] s.drop_last()[i].0@ == k
                    && s.drop_last()[i].1 == assoc_map(s.drop_last())[k];
            assert(s[i].0@ == k && s[i].1 == assoc_map(s)[k]);
        }
    }
}

proof fn lemma_assoc_map_absent(s: Seq<(String, TokenBucket)>, k: Seq<char>)
    requires
        forall|i: int| 0 <= i < s.len() ==> s[i].0@ != k,
    ensures
        !assoc_map(s).contains_key(k),
{
    if assoc_map(s).contains_key(k) {
        lemma_assoc_map_contains_to_index(s, k);
    }
}

proof fn lemma_assoc_map_update(s: Seq<(String, TokenBucket)>, i: int, b: TokenBucket)
    requires
        0 <= i < s.len(),
        keys_unique(s),
    ensures
        assoc_map(s.update(i, (s[i].0, b))) =~= assoc_map(s).insert(s[i].0@, b),
    decreases s.len(),
{
    let t = s.update(i, (s[i].0, b));
    assert(t.len() == s.len());
    if i == s.len() - 1 {
        assert(t.drop_last() =~= s.drop_last());
    } else {
        assert(t.drop_last() =~= s.drop_last().update(i, (s[i].0, b)));
        assert(keys_unique(s.drop_last()));
        assert(s.drop_last()[i] == s[i]);
        lemma_assoc_map_update(s.drop_last(), i, b);
        assert(t.last() == s.last());
        assert(s[i].0@ != s.last().0@);
    }
}

/// The keyed bucket registry behind one route class.
pub struct RateLimiter {
    capacity: u64,
    refill_per_second: u64,
    sweep_interval_seconds: u64,
    buckets: Vec<(String, TokenBucket)>,
}

impl RateLimiter {
    /// The burst size every bucket is capped at.
    pub closed spec fn spec_capacity(&self) -> u64 {
        self.capacity
    }

    /// Tokens refilled per second of elapsed time.
    pub closed spec fn spec_rate(&self) -> u64 {
        self.refill_per_second
    }

    /// How long a key may sit untouched before a sweep drops it.
    pub closed spec fn spec_sweep_interval(&self) -> u64 {
        self.sweep_interval_seconds
    }

    /// The registry as a map from key to bucket.
    pub closed spec fn view(&self) -> Map<Seq<char>, TokenBucket> {
        assoc_map(self.buckets@)
    }

    /// Well-formedness: keys are unique, the burst size is at least one
    /// token, and no bucket ever holds more than `capacity` tokens.
    pub closed spec fn wf(&self) -> bool {
        &&& self.capacity >= 1
        &&& keys_unique(self.buckets@)
        &&& forall|i: int|
            0 <= i < self.buckets@.len() ==> #[trigger] self.buckets@[i].1.tokens <= self.capacity
    }

    /// The bucket invariant, at the level of the registry's view: every
    /// bucket's token count lies in `[0, capacity]`.
    pub proof fn lemma_bucket_bounds(&self)
        requires
            self.wf(),
        ensures
            forall|k: Seq<char>|
                #[trigger] self@.contains_key(k) ==> self@[k].tokens <= self.spec_capacity(),
    {
        assert forall|k: Seq<char>| #[trigger]
            self@.contains_key(k) implies self@[k].tokens <= self.spec_capacity() by {
            lemma_assoc_map_contains_to_index(self.buckets@, k);
        }
    }

    /// An empty registry with the given knobs.
    pub fn new(capacity: u64, refill_per_second: u64, sweep_interval_seconds: u64) -> (r:
        RateLimiter)
        requires
            capacity >= 1,
        ensures
            r.wf(),
            r@ == Map::<Seq<char>, TokenBucket>::empty(),
            r.spec_capacity() == capacity,
            r.spec_rate() == refill_per_second,
            r.spec_sweep_interval() == sweep_interval_seconds,
    {
        RateLimiter { capacity, refill_per_second, sweep_interval_seconds, buckets: Vec::new() }
    }

    /// The limiter for public routes: burst of three, one token per second,
    /// swept daily.
    pub fn public_default() -> (r: RateLimiter)
        ensures
            r.wf(),
            r@ == Map::<Seq<char>, TokenBucket>::empty(),
            r.spec_capacity() == PUBLIC_BURST,
            r.spec_rate() == REFILL_PER_SECOND,
            r.spec_sweep_interval() == SWEEP_INTERVAL_SECONDS,
    {
        RateLimiter::new(PUBLIC_BURST, REFILL_PER_SECOND, SWEEP_INTERVAL_SECONDS)
    }

    /// The limiter for authenticated routes: burst of five, one token per
    /// second, swept daily.
    pub fn authenticated_default() -> (r: RateLimiter)
        ensures
            r.wf(),
            r@ == Map::<Seq<char>, TokenBucket>::empty(),
            r.spec_capacity() == AUTH_BURST,
            r.spec_rate() == REFILL_PER_SECOND,
            r.spec_sweep_interval() == SWEEP_INTERVAL_SECONDS,
    {
        RateLimiter::new(AUTH_BURST, REFILL_PER_SECOND, SWEEP_INTERVAL_SECONDS)
    }

    fn find_key(&self, key: &String) -> (r: Option<usize>)
        ensures
            match r {
                Some(i) => i < self.buckets@.len() && self.buckets@[i as int].0@ == key@,
                None => forall|i: int| 0 <= i < self.buckets@.len() ==> self.buckets@[i].0@ != key@,
            },
    {
        let n = self.buckets.len();
        let mut i: usize = 0;
        while i < n
            invariant
                n == self.buckets@.len(),
                i <= n,
                forall|j: int| 0 <= j < i ==> self.buckets@[j].0@ != key@,
            decreases n - i,
        {
            if self.buckets[i].0 == *key {
                return Some(i);
            }
            i = i + 1;
        }
        None
    }

    /// One request for `key` at time `now`: refill the key's bucket lazily
    /// (a key never seen starts with a full burst), then consume a token if
    /// one is there. Exactly this key's bucket changes; every other key's
    /// bucket is untouched.
    pub fn check(&mut self, key: &str, now: u64) -> (allowed: bool)
        requires
            old(self).wf(),
        ensures
            final(self).wf(),
            final(self).spec_capacity() == old(self).spec_capacity(),
            final(self).spec_rate() == old(self).spec_rate(),
            final(self).spec_sweep_interval() == old(self).spec_sweep_interval(),
            allowed == spec_check_allows(
                old(self)@,
                key@,
                old(self).spec_capacity(),
                old(self).spec_rate(),
                now,
            ),
            final(self)@ == spec_after_check(
                old(self)@,
                key@,
                old(self).spec_capacity(),
                old(self).spec_rate(),
                now,
            ),
    {
        let key_string: String = key.to_owned();
        let capacity = self.capacity;
        let rate = self.refill_per_second;
        match self.find_key(&key_string) {
            Some(i) => {
                proof {
                    lemma_assoc_map_index(self.buckets@, i as int);
                }
                let b = self.buckets[i].1;
                let f = refill_bucket(b, capacity, rate, now);
                let (nb, allowed) = consume_one(f);
                proof {
                    lemma_assoc_map_update(self.buckets@, i as int, nb);
                }
                self.buckets[i].1 = nb;
                allowed
            },
            None => {
                proof {
                    lemma_assoc_map_absent(self.buckets@, key@);
                }
                let b = TokenBucket { tokens: capacity, last_refill: now };
                let f = refill_bucket(b, capacity, rate, now);
                let (nb, allowed) = consume_one(f);
                self.buckets.push((key_string, nb));
                proof {
                    assert(self.buckets@.drop_last() =~= old(self).buckets@);
                }
                allowed
            },
        }
    }

    /// One tick of the eviction task at time `now`: drop every bucket whose
    /// last access is more than one sweep interval old, and keep every
    /// other bucket exactly as it is.
    pub fn sweep(&mut self, now: u64)
        requires
            old(self).wf(),
        ensures
            final(self).wf(),
            final(self).spec_capacity() == old(self).spec_capacity(),
            final(self).spec_rate() == old(self).spec_rate(),
            final(self).spec_sweep_interval() == old(self).spec_sweep_interval(),
            forall|k: Seq<char>|
                #[trigger] final(self)@.contains_key(k) <==> (old(self)@.contains_key(k)
                    && spec_retained(old(self)@[k], old(self).spec_sweep_interval(), now)),
            forall|k: Seq<char>|
                #[trigger] final(self)@.contains_key(k) ==> final(self)@[k] == old(self)@[k],
    {
        let ghost s = self.buckets@;
        let ghost pre = assoc_map(s);
        let interval = self.sweep_interval_seconds;
        let n = self.buckets.len();
        let mut kept: Vec<(String, TokenBucket)> = Vec::new();
        let mut i: usize = 0;
        while i < n
            invariant
                n == s.len(),
                i <= n,
                s == self.buckets@,
                pre == assoc_map(s),
                keys_unique(s),
                keys_unique(kept@),
                forall|j: int|
                    0 <= j < kept@.len() ==> exists|l: int|
                        #![trigger s[l]]
                        0 <= l < i && #[trigger] kept@[j] == s[l],
                forall|k: Seq<char>| #[trigger]
                    assoc_map(kept@).contains_key(k) ==> pre.contains_key(k) && assoc_map(kept@)[k]
                        == pre[k] && spec_retained(pre[k], interval, now),
                forall|j: int|
                    0 <= j < i && spec_retained(#[trigger] s[j].1, interval, now) ==> assoc_map(
                        kept@,
                    ).contains_key(s[j].0@),
            decreases n - i,
        {
            let b = self.buckets[i].1;
            let keep = match b.last_refill.checked_add(interval) {
                Some(deadline) => now <= deadline,
                None => true,
            };
            if keep {
                let ghost cur = s[i as int].0@;
                proof {
                    lemma_assoc_map_index(s, i as int);
                    assert forall|j: int| 0 <= j < kept@.len() implies kept@[j].0@ != cur by {
                        let l = choose|l: int|
                            #![trigger s[l]]
                            0 <= l < i && kept@[j] == s[l];
                        assert(s[l].0@ != s[i as int].0@);
                    }
                }
                let key_clone = self.buckets[i].0.clone();
                let ghost pushed = (key_clone, b);
                let ghost kept_before = kept@;
                kept.push((key_clone, b));
                proof {
                    assert(kept@ == kept_before.push(pushed));
                    assert(kept@.drop_last() =~= kept_before);
                    assert(pushed == s[i as int]);
                    assert(assoc_map(kept@) == assoc_map(kept_before).insert(cur, b));
                    assert(spec_retained(b, interval, now));
                    assert forall|k: Seq<char>| #[trigger]
                        assoc_map(kept@).contains_key(k) implies pre.contains_key(k) && assoc_map(
                        kept@,
                    )[k] == pre[k] && spec_retained(pre[k], interval, now) by {
                        if k == cur {
                            assert(pre.contains_key(cur) && pre[cur] == b);
                        } else {
                            assert(assoc_map(kept_before).contains_key(k));
                        }
                    }
                    assert forall|j: int| 0 <= j < kept@.len() implies exists|l: int|
                        #![trigger s[l]]
                        0 <= l < i + 1 && #[trigger] kept@[j] == s[l] by {
                        if j == kept@.len() - 1 {
                            assert(kept@[j] == s[i as int]);
                        } else {
                            let l = choose|l: int|
                                #![trigger s[l]]
                                0 <= l < i && kept_before[j] == s[l];
                            assert(kept@[j] == s[l]);
                        }
                    }
                }
            }
            i = i + 1;
        }
        self.buckets = kept;
        proof {
            assert forall|j: int| 0 <= j < kept@.len() implies #[trigger] kept@[j].1.tokens
                <= self.capacity by {
                let l = choose|l: int| #![trigger s[l]] 0 <= l < n && kept@[j] == s[l];
                assert(s[l].1.tokens <= self.capacity);
            }
            assert forall|k: Seq<char>| #[trigger]
                self@.contains_key(k) <==> (pre.contains_key(k) && spec_retained(
                    pre[k],
                    interval,
                    now,
                )) by {
                if pre.contains_key(k) && spec_retained(pre[k], interval, now) {
                    lemma_assoc_map_contains_to_index(s, k);
                    let j = choose|j: int|
                        0 <= j < s.len() && #[trigger] s[j].0@ == k && s[j].1 == pre[k];
                    assert(spec_retained(s[j].1, interval, now));
                }
            }
        }
    }
}

/// Exec mirror of [`spec_refill`], careful about overflow: any sum past
/// `u64::MAX` is at or above the capacity, so it clamps to a full bucket.
fn refill_bucket(b: TokenBucket, capacity: u64, rate: u64, now: u64) -> (r: TokenBucket)
    ensures
        r == spec_refill(b, capacity, rate, now),
{
    if now <= b.last_refill {
        b
    } else {
        let elapsed = now - b.last_refill;
        let filled = match elapsed.checked_mul(rate) {
            Some(added) => match b.tokens.checked_add(added) {
                Some(t) => if t >= capacity {
                    capacity
                } else {
                    t
                },
                None => capacity,
            },
            None => {
                proof {
                    vstd::arithmetic::mul::lemma_mul_inequality(1, elapsed as int, rate as int);
                }
                capacity
            },
        };
        TokenBucket { tokens: filled, last_refill: now }
    }
}

/// Exec mirror of the consuming half of [`spec_check`].
fn consume_one(f: TokenBucket) -> (r: (TokenBucket, bool))
    ensures
        f.tokens >= 1 ==> r == (
            TokenBucket { tokens: (f.tokens - 1) as u64, last_refill: f.last_refill },
            true,
        ),
        f.tokens == 0 ==> r == (f, false),
{
    if f.tokens >= 1 {
        (TokenBucket { tokens: f.tokens - 1, last_refill: f.last_refill }, true)
    } else {
        (f, false)
    }
}

/// Law: rate-limit keys are independent. A check on `key` replaces only that
/// key's bucket; any `other` key is present afterward exactly as before,
/// with the same bucket.
pub proof fn lemma_keys_independent(
    pre: Map<Seq<char>, TokenBucket>,
    post: Map<Seq<char>, TokenBucket>,
    key: Seq<char>,
    b: TokenBucket,
    other: Seq<char>,
)
    requires
        post == pre.insert(key, b),
        other != key,
    ensures
        post.contains_key(other) == pre.contains_key(other),
        pre.contains_key(other) ==> post[other] == pre[other],
{
}

/// Law: a key untouched for more than the sweep interval is dropped by the
/// sweep, and the first check after that starts from a full burst: it is
/// allowed and leaves `capacity - 1` tokens.
pub proof fn lemma_sweep_resets_burst(
    b: TokenBucket,
    capacity: u64,
    rate: u64,
    interval: u64,
    sweep_now: u64,
    next_now: u64,
)
    requires
        capacity >= 1,
        b.last_refill + interval < sweep_now,
    ensures
        !spec_retained(b, interval, sweep_now),
        spec_check(fresh_bucket(capacity, next_now), capacity, rate, next_now) == (
            TokenBucket { tokens: (capacity - 1) as u64, last_refill: next_now },
            true,
        ),
{
}

} // verus!
