//! Rate limiting with one token bucket per engine.
//!
//! Token counts are kept exactly, as integers in units of 1/`TOKEN_SCALE` of a
//! token: a bucket refilled at `r` requests per minute gains `elapsed_ns * r`
//! units per elapsed nanosecond.
use vstd::prelude::*;
use std::time::Instant;
use crate::clock::{instant_now, nanos_between};
use crate::derive::error::DeriveError;
use crate::text::str_eq;

verus! {

/// Units per token: nanoseconds in a minute, so that refilling at `r` requests per
/// minute adds `r` units per nanosecond.
pub const TOKEN_SCALE: u128 = 60_000_000_000;

/// Nanoseconds per second.
pub const NANOS_PER_SEC: u128 = 1_000_000_000;

/// Settings of a rate limiter.
#[derive(Debug, Clone, Copy)]
pub struct RateLimiterConfig {
    /// Requests allowed per minute.
    pub requests_per_minute: usize,
    /// Requests allowed in a burst.
    pub burst_capacity: usize,
}

impl Default for RateLimiterConfig {
    fn default() -> (c: Self)
        ensures
            c.requests_per_minute == 60,
            c.burst_capacity == 10,
    {
        RateLimiterConfig { requests_per_minute: 60, burst_capacity: 10 }
    }
}

/// The token count after refilling for `elapsed` nanoseconds, in units: the count
/// grows by `elapsed * rate` and is capped at `capacity`.
pub open spec fn refilled(tokens: nat, capacity: nat, rate: nat, elapsed: nat) -> nat {
    let t = tokens + elapsed * rate;
    if t > capacity { capacity } else { t }
}

/// The token count and the verdict of one request after refilling for `elapsed`
/// nanoseconds: a whole token is taken when there is one.
pub open spec fn consume_outcome(tokens: nat, capacity: nat, rate: nat, elapsed: nat) -> (nat, bool) {
    let t = refilled(tokens, capacity, rate, elapsed);
    if t >= TOKEN_SCALE { ((t - TOKEN_SCALE) as nat, true) } else { (t, false) }
}

/// Whole seconds until a token is available, rounded up, from a count of `tokens`
/// units and a rate of `rate` requests per minute; `u64::MAX` when the rate is 0.
pub open spec fn wait_secs(tokens: nat, rate: nat) -> nat {
    if tokens >= TOKEN_SCALE {
        0
    } else if rate == 0 {
        u64::MAX as nat
    } else {
        let per_sec = rate * NANOS_PER_SEC;
        let s = ((TOKEN_SCALE - tokens) + per_sec - 1) / per_sec;
        if s > u64::MAX { u64::MAX as nat } else { s as nat }
    }
}

/// What a bucket holds: its count and capacity in units, and its rate per minute.
pub struct BucketView {
    /// Available units.
    pub tokens: nat,
    /// Maximum units.
    pub capacity: nat,
    /// Refill rate, in requests per minute.
    pub rate: nat,
}

/// A token bucket.
pub struct TokenBucket {
    tokens: u128,
    capacity: u128,
    rate: u128,
    last_refill: Instant,
}

impl View for TokenBucket {
    type V = BucketView;

    closed spec fn view(&self) -> BucketView {
        BucketView { tokens: self.tokens as nat, capacity: self.capacity as nat, rate: self.rate as nat }
    }
}

proof fn lemma_refill_bound(room: nat, rate: nat, elapsed: nat)
    requires
        rate > 0,
    ensures
        elapsed <= room / rate ==> elapsed * rate <= room,
        elapsed > room / rate ==> elapsed * rate > room,
{
    assert(elapsed <= room / rate ==> elapsed * rate <= room) by (nonlinear_arith)
        requires rate > 0;
    assert(elapsed > room / rate ==> elapsed * rate > room) by (nonlinear_arith)
        requires rate > 0;
}

impl TokenBucket {
    /// Whether the bucket's numbers are within their bounds.
    pub closed spec fn wf(&self) -> bool {
        &&& self.tokens <= self.capacity
        &&& self.capacity <= u64::MAX as u128 * TOKEN_SCALE
        &&& self.rate <= u64::MAX as u128
    }

    /// A full bucket of `capacity` tokens refilled at `requests_per_minute`.
    pub fn new(capacity: u64, requests_per_minute: u64) -> (b: Self)
        ensures
            b.wf(),
            b@.capacity == capacity * TOKEN_SCALE,
            b@.tokens == capacity * TOKEN_SCALE,
            b@.rate == requests_per_minute,
    {
        let cap = capacity as u128 * TOKEN_SCALE;
        TokenBucket { tokens: cap, capacity: cap, rate: requests_per_minute as u128, last_refill: instant_now() }
    }

    /// Whole tokens of capacity.
    pub fn capacity(&self) -> (c: u64)
        requires
            self.wf(),
        ensures
            c == self@.capacity / (TOKEN_SCALE as nat),
    {
        (self.capacity / TOKEN_SCALE) as u64
    }

    /// The refill rate in requests per minute.
    pub fn refill_per_minute(&self) -> (r: u64)
        requires
            self.wf(),
        ensures
            r == self@.rate,
    {
        self.rate as u64
    }

    /// Whole tokens available now (before any refill).
    pub fn available_tokens(&self) -> (t: u64)
        requires
            self.wf(),
        ensures
            t == self@.tokens / (TOKEN_SCALE as nat),
    {
        (self.tokens / TOKEN_SCALE) as u64
    }

    /// Refills for `elapsed` nanoseconds ending at `now`.
    fn refill_for(&mut self, elapsed: u128, now: Instant)
        requires
            old(self).wf(),
        ensures
            final(self).wf(),
            final(self)@ == (BucketView {
                tokens: refilled(old(self)@.tokens, old(self)@.capacity, old(self)@.rate, elapsed as nat),
                ..old(self)@
            }),
    {
        if elapsed > 0 {
            let room = self.capacity - self.tokens;
            if self.rate == 0 {
            } else if elapsed > room / self.rate {
                proof { lemma_refill_bound(room as nat, self.rate as nat, elapsed as nat); }
                self.tokens = self.capacity;
            } else {
                proof { lemma_refill_bound(room as nat, self.rate as nat, elapsed as nat); }
                self.tokens = self.tokens + elapsed * self.rate;
            }
            self.last_refill = now;
        }
    }

    /// Takes one token after refilling for `elapsed` nanoseconds ending at `now`;
    /// tells whether there was one.
    pub fn try_consume_after(&mut self, elapsed: u128, now: Instant) -> (ok: bool)
        requires
            old(self).wf(),
        ensures
            final(self).wf(),
            (final(self)@.tokens, ok)
                == consume_outcome(old(self)@.tokens, old(self)@.capacity, old(self)@.rate, elapsed as nat),
            final(self)@.capacity == old(self)@.capacity,
            final(self)@.rate == old(self)@.rate,
    {
        self.refill_for(elapsed, now);
        if self.tokens >= TOKEN_SCALE {
            self.tokens = self.tokens - TOKEN_SCALE;
            true
        } else {
            false
        }
    }

    /// Takes one token after refilling for the time since the last refill; tells
    /// whether there was one.
    pub fn try_consume(&mut self) -> (ok: bool)
        requires
            old(self).wf(),
        ensures
            final(self).wf(),
            exists|elapsed: nat| (final(self)@.tokens, ok)
                == consume_outcome(old(self)@.tokens, old(self)@.capacity, old(self)@.rate, elapsed),
            final(self)@.capacity == old(self)@.capacity,
            final(self)@.rate == old(self)@.rate,
    {
        let now = instant_now();
        let elapsed = nanos_between(&self.last_refill, &now);
        self.try_consume_after(elapsed, now)
    }

    /// Whole seconds until a token is available after refilling for `elapsed`
    /// nanoseconds ending at `now`, rounded up.
    pub fn wait_secs_after(&mut self, elapsed: u128, now: Instant) -> (w: u64)
        requires
            old(self).wf(),
        ensures
            final(self).wf(),
            final(self)@ == (BucketView {
                tokens: refilled(old(self)@.tokens, old(self)@.capacity, old(self)@.rate, elapsed as nat),
                ..old(self)@
            }),
            w == wait_secs(final(self)@.tokens, final(self)@.rate),
    {
        self.refill_for(elapsed, now);
        if self.tokens >= TOKEN_SCALE {
            0
        } else if self.rate == 0 {
            u64::MAX
        } else {
            let per_sec = self.rate * NANOS_PER_SEC;
            let s = ((TOKEN_SCALE - self.tokens) + per_sec - 1) / per_sec;
            if s > u64::MAX as u128 { u64::MAX } else { s as u64 }
        }
    }

    /// Whole seconds until a token is available, rounded up, after refilling for the
    /// time since the last refill.
    pub fn wait_time(&mut self) -> (w: u64)
        requires
            old(self).wf(),
        ensures
            final(self).wf(),
            exists|elapsed: nat| final(self)@ == (BucketView {
                tokens: #[trigger] refilled(old(self)@.tokens, old(self)@.capacity, old(self)@.rate, elapsed),
                ..old(self)@
            }),
            w == wait_secs(final(self)@.tokens, final(self)@.rate),
    {
        let now = instant_now();
        let elapsed = nanos_between(&self.last_refill, &now);
        self.wait_secs_after(elapsed, now)
    }
}

/// The reported wait is exactly enough: a bucket short of a whole token that
/// refills for the reported number of seconds (of 1_000_000_000 nanoseconds
/// each) holds a whole token, and one that refills for a second less does not.
pub proof fn law_wait_is_enough(tokens: nat, capacity: nat, rate: nat)
    requires
        tokens < TOKEN_SCALE,
        capacity >= TOKEN_SCALE,
        rate > 0,
    ensures
        0 < wait_secs(tokens, rate) < u64::MAX,
        refilled(tokens, capacity, rate, wait_secs(tokens, rate) * 1_000_000_000) >= TOKEN_SCALE,
        refilled(tokens, capacity, rate, ((wait_secs(tokens, rate) - 1) * 1_000_000_000) as nat) < TOKEN_SCALE,
{
    let m: int = TOKEN_SCALE - tokens;
    let p: int = (rate * 1_000_000_000) as int;
    assert(p >= 1_000_000_000) by (nonlinear_arith)
        requires rate > 0, p == rate * 1_000_000_000;
    let x: int = m + p - 1;
    let q: int = x / p;
    let r: int = x % p;
    vstd::arithmetic::div_mod::lemma_fundamental_div_mod(x, p);
    vstd::arithmetic::div_mod::lemma_mod_pos_bound(x, p);
    assert(x == p * q + r);
    assert(p * q >= m);
    assert(p * (q - 1) < m) by (nonlinear_arith)
        requires x == p * q + r, 0 <= r < p, x == m + p - 1;
    assert(q >= 1) by (nonlinear_arith)
        requires p * q >= m, m > 0, p > 0;
    assert(q <= 60) by (nonlinear_arith)
        requires p * (q - 1) < m, m <= 60_000_000_000, p >= 1_000_000_000;
    assert(q == ((TOKEN_SCALE - tokens) + rate * NANOS_PER_SEC - 1) / (rate * NANOS_PER_SEC));
    assert(wait_secs(tokens, rate) == q);
    assert(q * 1_000_000_000 * rate == p * q) by (nonlinear_arith)
        requires p == rate * 1_000_000_000;
    assert((q - 1) * 1_000_000_000 * rate == p * (q - 1)) by (nonlinear_arith)
        requires p == rate * 1_000_000_000;
}

/// A bucket holding a whole token admits the next request, however much time has
/// passed, and keeps at least what it had minus that token.
pub proof fn law_token_admits(tokens: nat, capacity: nat, rate: nat, elapsed: nat)
    requires
        tokens <= capacity,
        tokens >= TOKEN_SCALE,
    ensures
        consume_outcome(tokens, capacity, rate, elapsed).1,
        consume_outcome(tokens, capacity, rate, elapsed).0 >= tokens - TOKEN_SCALE,
{
    assert(elapsed * rate >= 0) by (nonlinear_arith);
}

/// A full bucket of `b` tokens admits `b` requests in a row, however the time runs:
/// after `k` admitted requests at least `b - k` tokens remain.
pub proof fn law_burst_admitted(b: nat, k: nat, tokens: nat, capacity: nat, rate: nat, elapsed: nat)
    requires
        capacity == b * TOKEN_SCALE,
        tokens <= capacity,
        k < b,
        tokens >= (b - k) * TOKEN_SCALE,
    ensures
        consume_outcome(tokens, capacity, rate, elapsed).1,
        consume_outcome(tokens, capacity, rate, elapsed).0 >= (b - (k + 1)) * TOKEN_SCALE,
{
    assert((b - k) * TOKEN_SCALE >= TOKEN_SCALE) by (nonlinear_arith)
        requires k < b;
    assert((b - k) * TOKEN_SCALE - TOKEN_SCALE == (b - (k + 1)) * TOKEN_SCALE) by (nonlinear_arith)
        requires k < b;
    law_token_admits(tokens, capacity, rate, elapsed);
}

/// The buckets of a limiter, by engine name.
pub open spec fn bucket_of(buckets: Seq<(Seq<char>, BucketView)>, engine: Seq<char>) -> Option<BucketView>
    decreases buckets.len(),
{
    if buckets.len() == 0 {
        None
    } else if buckets.last().0 == engine {
        Some(buckets.last().1)
    } else {
        bucket_of(buckets.drop_last(), engine)
    }
}

/// `buckets` without the buckets of `engine`.
pub open spec fn without_engine(buckets: Seq<(Seq<char>, BucketView)>, engine: Seq<char>) -> Seq<(Seq<char>, BucketView)>
    decreases buckets.len(),
{
    if buckets.len() == 0 {
        buckets
    } else if buckets.last().0 == engine {
        without_engine(buckets.drop_last(), engine)
    } else {
        without_engine(buckets.drop_last(), engine).push(buckets.last())
    }
}

proof fn lemma_without_engine(buckets: Seq<(Seq<char>, BucketView)>, engine: Seq<char>, e: Seq<char>)
    ensures
        bucket_of(without_engine(buckets, engine), e)
            == (if e == engine { None } else { bucket_of(buckets, e) }),
    decreases buckets.len(),
{
    if buckets.len() > 0 {
        lemma_without_engine(buckets.drop_last(), engine, e);
        if buckets.last().0 != engine {
            let w = without_engine(buckets.drop_last(), engine).push(buckets.last());
            assert(w.drop_last() =~= without_engine(buckets.drop_last(), engine));
        }
    }
}

proof fn lemma_bucket_of_update(s: Seq<(Seq<char>, BucketView)>, i: int, b: BucketView, e: Seq<char>)
    requires
        0 <= i < s.len(),
        forall|j: int| i < j < s.len() ==> s[j].0 != s[i].0,
    ensures
        e != s[i].0 ==> bucket_of(s.update(i, (s[i].0, b)), e) == bucket_of(s, e),
        bucket_of(s.update(i, (s[i].0, b)), s[i].0) == Some(b),
    decreases s.len(),
{
    let u = s.update(i, (s[i].0, b));
    if i == s.len() - 1 {
        assert(u.drop_last() =~= s.drop_last());
    } else {
        assert(u.drop_last() =~= s.drop_last().update(i, (s[i].0, b)));
        lemma_bucket_of_update(s.drop_last(), i, b, e);
    }
}

/// The view of a list of buckets.
pub open spec fn buckets_view(v: Seq<(String, TokenBucket)>) -> Seq<(Seq<char>, BucketView)> {
    v.map_values(|e: (String, TokenBucket)| (e.0@, e.1@))
}

/// What a limiter holds: its settings and its buckets, by engine name.
pub struct LimiterView {
    /// Requests per minute of new buckets.
    pub requests_per_minute: nat,
    /// Capacity of new buckets, in tokens.
    pub burst_capacity: nat,
    /// The buckets, with the engine each belongs to.
    pub buckets: Seq<(Seq<char>, BucketView)>,
}

/// The bucket a request for `engine` starts from: its own, or a full one made with
/// the limiter's settings when it has none yet.
pub open spec fn start_bucket(l: LimiterView, engine: Seq<char>) -> BucketView {
    match bucket_of(l.buckets, engine) {
        Some(b) => b,
        None => BucketView {
            tokens: l.burst_capacity * (TOKEN_SCALE as nat),
            capacity: l.burst_capacity * (TOKEN_SCALE as nat),
            rate: l.requests_per_minute,
        },
    }
}

/// A rate limiter with an independent token bucket per engine.
pub struct RateLimiter {
    buckets: Vec<(String, TokenBucket)>,
    default_config: RateLimiterConfig,
}

impl View for RateLimiter {
    type V = LimiterView;

    closed spec fn view(&self) -> LimiterView {
        LimiterView {
            requests_per_minute: self.default_config.requests_per_minute as nat,
            burst_capacity: self.default_config.burst_capacity as nat,
            buckets: buckets_view(self.buckets@),
        }
    }
}

impl RateLimiter {
    /// Whether every bucket's numbers are within their bounds.
    pub closed spec fn wf(&self) -> bool {
        forall|i: int| 0 <= i < self.buckets.len() ==> #[trigger] self.buckets@[i].1.wf()
    }

    /// The settings new buckets are made with.
    pub fn config(&self) -> (c: &RateLimiterConfig)
        ensures
            c.requests_per_minute == self@.requests_per_minute,
            c.burst_capacity == self@.burst_capacity,
    {
        &self.default_config
    }

    /// A limiter with no buckets yet.
    pub fn new(config: RateLimiterConfig) -> (l: Self)
        ensures
            l.wf(),
            l@.requests_per_minute == config.requests_per_minute,
            l@.burst_capacity == config.burst_capacity,
            l@.buckets.len() == 0,
    {
        let l = RateLimiter { buckets: Vec::new(), default_config: config };
        assert(l@.buckets =~= Seq::<(Seq<char>, BucketView)>::empty());
        l
    }

    /// The position of the last bucket of `engine`.
    fn find(&self, engine: &str) -> (r: Option<usize>)
        ensures
            match r {
                Some(i) => i < self.buckets.len() && self.buckets@[i as int].0@ == engine@
                    && bucket_of(self@.buckets, engine@) == Some(self.buckets@[i as int].1@)
                    && forall|j: int| i < j < self.buckets.len() ==> self.buckets@[j].0@ != engine@,
                None => bucket_of(self@.buckets, engine@) is None,
            },
    {
        let ghost bs = self@.buckets;
        let mut i: usize = self.buckets.len();
        assert(bs.subrange(0, i as int) =~= bs);
        while i > 0
            invariant
                i <= self.buckets.len(),
                bs == self@.buckets,
                bucket_of(bs, engine@) == bucket_of(bs.subrange(0, i as int), engine@),
                forall|j: int| i <= j < self.buckets.len() ==> self.buckets@[j].0@ != engine@,
            decreases i,
        {
            let ghost prefix = bs.subrange(0, i as int);
            assert(prefix.drop_last() =~= bs.subrange(0, i - 1));
            if str_eq(self.buckets[i - 1].0.as_str(), engine) {
                return Some(i - 1);
            }
            i = i - 1;
        }
        None
    }

    /// Admits a request for `engine` when its bucket holds a token, creating a full
    /// bucket for an engine seen for the first time. Otherwise fails with
    /// `RateLimit`, carrying the whole seconds until a token is available, at
    /// least 1. Other engines' buckets are not touched.
    pub fn try_acquire(&mut self, engine_name: &str) -> (r: Result<(), DeriveError>)
        requires
            old(self).wf(),
        ensures
            final(self).wf(),
            final(self)@.requests_per_minute == old(self)@.requests_per_minute,
            final(self)@.burst_capacity == old(self)@.burst_capacity,
            forall|e: Seq<char>| e != engine_name@ ==>
                bucket_of(#[trigger] final(self)@.buckets, e) == bucket_of(old(self)@.buckets, e),
            ({
                let start = start_bucket(old(self)@, engine_name@);
                &&& bucket_of(final(self)@.buckets, engine_name@) is Some
                &&& bucket_of(final(self)@.buckets, engine_name@)->0.capacity == start.capacity
                &&& bucket_of(final(self)@.buckets, engine_name@)->0.rate == start.rate
                &&& exists|elapsed: nat| #[trigger] consume_outcome(start.tokens, start.capacity, start.rate, elapsed).1 == (r is Ok)
                &&& (r is Ok ==> exists|elapsed: nat| #[trigger] consume_outcome(start.tokens, start.capacity, start.rate, elapsed)
                    == (bucket_of(final(self)@.buckets, engine_name@)->0.tokens, true))
                &&& (start.tokens >= TOKEN_SCALE ==> r is Ok)
                &&& (r matches Err(e) ==> e matches DeriveError::RateLimit { retry_after_secs } && retry_after_secs >= 1)
            }),
    {
        let idx = match self.find(engine_name) {
            Some(i) => i,
            None => {
                let rpm = self.default_config.requests_per_minute as u64;
                let burst = self.default_config.burst_capacity as u64;
                let b = TokenBucket::new(burst, rpm);
                let ghost before = self.buckets@;
                self.buckets.push((crate::text::owned(engine_name), b));
                proof {
                    assert(self@.buckets.drop_last() =~= old(self)@.buckets);
                    assert forall|e: Seq<char>| e != engine_name@ implies
                        bucket_of(self@.buckets, e) == bucket_of(old(self)@.buckets, e) by {}
                }
                self.buckets.len() - 1
            },
        };
        let ghost mid = self@.buckets;
        let ghost mid_raw = self.buckets@;
        let ghost start = self.buckets@[idx as int].1@;
        assert(start == start_bucket(old(self)@, engine_name@));
        assert(self.buckets@[idx as int].1.wf());
        let mut entry = self.buckets.remove(idx);
        assert(entry == mid_raw[idx as int]);
        let ok = entry.1.try_consume();
        let ghost el = choose|el: nat| (entry.1@.tokens, ok)
            == consume_outcome(start.tokens, start.capacity, start.rate, el);
        proof {
            if start.tokens >= TOKEN_SCALE {
                law_token_admits(start.tokens, start.capacity, start.rate, el);
            }
        }
        let result = if ok {
            Ok(())
        } else {
            let w = entry.1.wait_time();
            let secs = if w < 1 { 1 } else { w };
            Err(DeriveError::RateLimit { retry_after_secs: secs })
        };
        assert(consume_outcome(start.tokens, start.capacity, start.rate, el).1 == (result is Ok));
        let ghost newb = entry.1@;
        assert(result is Ok ==> consume_outcome(start.tokens, start.capacity, start.rate, el) == (newb.tokens, true));
        self.buckets.insert(idx, entry);
        proof {
            assert(self.buckets@ =~= mid_raw.update(idx as int, entry));
            assert(self@.buckets =~= mid.update(idx as int, (mid[idx as int].0, newb)));
            assert forall|j: int| idx < j < mid.len() implies mid[j].0 != mid[idx as int].0 by {}
            assert forall|e: Seq<char>| e != engine_name@ implies
                bucket_of(self@.buckets, e) == bucket_of(mid, e) by {
                lemma_bucket_of_update(mid, idx as int, newb, e);
            }
            lemma_bucket_of_update(mid, idx as int, newb, engine_name@);
            assert forall|i: int| 0 <= i < self.buckets.len() implies #[trigger] self.buckets@[i].1.wf() by {
                if i != idx {
                    assert(self.buckets@[i] == mid_raw[i]);
                }
            }
        }
        result
    }

    /// Forgets the bucket of `engine_name`; its next request gets a full bucket.
    pub fn reset(&mut self, engine_name: &str) -> (r: Result<(), DeriveError>)
        requires
            old(self).wf(),
        ensures
            final(self).wf(),
            r is Ok,
            bucket_of(final(self)@.buckets, engine_name@) is None,
            forall|e: Seq<char>| e != engine_name@ ==>
                bucket_of(#[trigger] final(self)@.buckets, e) == bucket_of(old(self)@.buckets, e),
            final(self)@.requests_per_minute == old(self)@.requests_per_minute,
            final(self)@.burst_capacity == old(self)@.burst_capacity,
    {
        let ghost orig = self.buckets@;
        let mut rest: Vec<(String, TokenBucket)> = Vec::new();
        std::mem::swap(&mut rest, &mut self.buckets);
        let mut kept: Vec<(String, TokenBucket)> = Vec::new();
        let ghost mut i: int = 0;
        assert(orig.subrange(0, 0) =~= Seq::<(String, TokenBucket)>::empty());
        assert(buckets_view(kept@) =~= without_engine(buckets_view(orig.subrange(0, 0)), engine_name@));
        assert(rest@ =~= orig.subrange(0, orig.len() as int));
        while rest.len() > 0
            invariant
                0 <= i <= orig.len(),
                rest@ == orig.subrange(i, orig.len() as int),
                buckets_view(kept@) == without_engine(buckets_view(orig.subrange(0, i)), engine_name@),
                forall|j: int| 0 <= j < orig.len() ==> #[trigger] orig[j].1.wf(),
                forall|j: int| 0 <= j < kept.len() ==> #[trigger] kept@[j].1.wf(),
            decreases rest.len(),
        {
            let e = rest.remove(0);
            assert(e == orig[i]);
            let ghost pre = orig.subrange(0, i);
            let ghost next = orig.subrange(0, i + 1);
            assert(buckets_view(next).drop_last() =~= buckets_view(pre));
            assert(buckets_view(next).last() == (e.0@, e.1@));
            if !str_eq(e.0.as_str(), engine_name) {
                let ghost before = kept@;
                kept.push(e);
                assert(buckets_view(kept@) =~= buckets_view(before).push((e.0@, e.1@)));
            }
            proof { i = i + 1; }
            assert(rest@ =~= orig.subrange(i, orig.len() as int));
        }
        assert(orig.subrange(0, i) =~= orig);
        self.buckets = kept;
        proof {
            assert forall|e: Seq<char>| true implies
                bucket_of(self@.buckets, e) == (if e == engine_name@ { None } else { bucket_of(old(self)@.buckets, e) }) by {
                lemma_without_engine(buckets_view(orig), engine_name@, e);
            }
        }
        Ok(())
    }

    /// Forgets every bucket.
    pub fn reset_all(&mut self) -> (r: Result<(), DeriveError>)
        ensures
            final(self).wf(),
            r is Ok,
            final(self)@.buckets.len() == 0,
            final(self)@.requests_per_minute == old(self)@.requests_per_minute,
            final(self)@.burst_capacity == old(self)@.burst_capacity,
    {
        self.buckets.clear();
        assert(self@.buckets =~= Seq::<(Seq<char>, BucketView)>::empty());
        Ok(())
    }
}

/// An engine without a bucket (never seen, or just reset) starts from a full
/// bucket, so with a burst capacity of at least one its next request is admitted.
pub proof fn law_fresh_engine_admitted(l: LimiterView, engine: Seq<char>)
    requires
        bucket_of(l.buckets, engine) is None,
        l.burst_capacity >= 1,
    ensures
        start_bucket(l, engine).tokens == start_bucket(l, engine).capacity,
        start_bucket(l, engine).tokens >= TOKEN_SCALE,
{
    assert(l.burst_capacity * (TOKEN_SCALE as nat) >= TOKEN_SCALE) by (nonlinear_arith)
        requires l.burst_capacity >= 1;
}

impl Default for RateLimiter {
    fn default() -> (l: Self)
        ensures
            l.wf(),
            l@.requests_per_minute == 60,
            l@.burst_capacity == 10,
            l@.buckets.len() == 0,
    {
        Self::new(RateLimiterConfig::default())
    }
}

} // verus!
