//! The token bucket itself: one key's state and the refill/consume step.
//!
//! Tokens are stored in milli-tokens (thousandths), so a refill of
//! `elapsed_ms` milliseconds at `refill_rate` tokens per second adds exactly
//! `elapsed_ms * refill_rate` milli-tokens, with no truncation loss on
//! sub-second refills. One admitted request costs 1000 milli-tokens.

use vstd::prelude::*;

use crate::TokenBucketConfig;

verus! {

/// The mathematical state of one bucket.
pub struct BucketModel {
    /// Current content in milli-tokens.
    pub tokens: int,
    /// The instant of the last refill, in milliseconds since the epoch.
    pub last_ms: int,
}

/// Bucket capacity in milli-tokens.
pub open spec fn max_milli(cfg: TokenBucketConfig) -> int {
    cfg.max_tokens * 1000
}

/// A bucket is well formed when it holds between zero and capacity
/// milli-tokens and its refill instant is not before the epoch.
pub open spec fn bucket_wf(b: BucketModel, cfg: TokenBucketConfig) -> bool {
    &&& 0 <= b.tokens <= max_milli(cfg)
    &&& 0 <= b.last_ms
}

/// The state of a bucket seen for the first time at `now`: full capacity.
pub open spec fn fresh_bucket(cfg: TokenBucketConfig, now: int) -> BucketModel {
    BucketModel { tokens: max_milli(cfg), last_ms: now }
}

/// Lazy refill: when time has passed since the last refill, add
/// `elapsed_ms * refill_rate` milli-tokens, capped at capacity, and advance
/// the refill instant. The instant only moves when tokens are added, and
/// only forward.
pub open spec fn refill_model(b: BucketModel, cfg: TokenBucketConfig, now: int) -> BucketModel {
    if now > b.last_ms {
        BucketModel {
            tokens: vstd::math::min(max_milli(cfg), b.tokens + (now - b.last_ms) * cfg.refill_rate),
            last_ms: now,
        }
    } else {
        b
    }
}

/// Debit one token when at least one whole token is available.
pub open spec fn consume_model(b: BucketModel) -> (BucketModel, bool) {
    if b.tokens >= 1000 {
        (BucketModel { tokens: b.tokens - 1000, last_ms: b.last_ms }, true)
    } else {
        (b, false)
    }
}

/// One `check` call on a bucket: refill for the elapsed time, then try to
/// debit one token. The admit decision is the second component.
pub open spec fn check_model(b: BucketModel, cfg: TokenBucketConfig, now: int) -> (BucketModel, bool) {
    consume_model(refill_model(b, cfg, now))
}

/// One key's bucket: current content in milli-tokens and the instant of the
/// last refill in milliseconds.
#[derive(Debug, Copy, Clone)]
pub struct TokenBucket {
    tokens_milli: u128,
    last_refill_ms: u64,
}

impl View for TokenBucket {
    type V = BucketModel;

    closed spec fn view(&self) -> BucketModel {
        BucketModel { tokens: self.tokens_milli as int, last_ms: self.last_refill_ms as int }
    }
}

impl TokenBucket {
    /// A bucket observed for the first time at `now_ms`, holding full capacity.
    pub fn new(cfg: &TokenBucketConfig, now_ms: u64) -> (b: Self)
        requires
            cfg.wf(),
        ensures
            b@ == fresh_bucket(*cfg, now_ms as int),
            bucket_wf(b@, *cfg),
    {
        proof {
            lemma_max_milli_fits(*cfg);
        }
        TokenBucket { tokens_milli: (cfg.max_tokens as u128) * 1000, last_refill_ms: now_ms }
    }

    /// Refill for the time elapsed since the last refill, then try to debit
    /// one token; returns whether the request is admitted.
    pub fn refill_and_consume(&mut self, cfg: &TokenBucketConfig, now_ms: u64) -> (allowed: bool)
        requires
            cfg.wf(),
            bucket_wf(old(self)@, *cfg),
        ensures
            bucket_wf(final(self)@, *cfg),
            (final(self)@, allowed) == check_model(old(self)@, *cfg, now_ms as int),
    {
        proof {
            lemma_max_milli_fits(*cfg);
        }
        if now_ms > self.last_refill_ms {
            let elapsed: u64 = now_ms - self.last_refill_ms;
            proof {
                assert((elapsed as int) * (cfg.refill_rate as int) <= u64::MAX * u64::MAX)
                    by (nonlinear_arith)
                    requires 0 <= elapsed <= u64::MAX, 0 <= cfg.refill_rate <= u64::MAX;
            }
            let added: u128 = (elapsed as u128) * (cfg.refill_rate as u128);
            let cap: u128 = (cfg.max_tokens as u128) * 1000;
            let room: u128 = cap - self.tokens_milli;
            if added >= room {
                self.tokens_milli = cap;
            } else {
                self.tokens_milli = self.tokens_milli + added;
            }
            self.last_refill_ms = now_ms;
        }
        if self.tokens_milli >= 1000 {
            self.tokens_milli = self.tokens_milli - 1000;
            true
        } else {
            false
        }
    }
}

/// Capacity in milli-tokens fits in a `u128`.
proof fn lemma_max_milli_fits(cfg: TokenBucketConfig)
    ensures
        0 <= max_milli(cfg) <= u64::MAX * 1000,
{
    assert(0 <= max_milli(cfg) <= u64::MAX * 1000) by (nonlinear_arith)
        requires 0 <= cfg.max_tokens <= u64::MAX;
}

/// Refill never yields a negative amount and never exceeds capacity: the
/// bucket stays well formed for any elapsed time (no over-refill).
pub proof fn lemma_no_over_refill(b: BucketModel, cfg: TokenBucketConfig, now: int)
    requires
        cfg.wf(),
        bucket_wf(b, cfg),
        0 <= now,
    ensures
        refill_model(b, cfg, now).tokens <= max_milli(cfg),
        bucket_wf(refill_model(b, cfg, now), cfg),
        bucket_wf(check_model(b, cfg, now).0, cfg),
{
    if now > b.last_ms {
        assert(0 <= (now - b.last_ms) * cfg.refill_rate) by (nonlinear_arith)
            requires 0 < now - b.last_ms, 0 < cfg.refill_rate;
    }
}

/// The refill formula: for a well-formed bucket and a clock at or past the
/// last refill, the content after refill is exactly
/// `min(capacity, previous + elapsed_ms * refill_rate)` milli-tokens.
pub proof fn lemma_refill_formula(b: BucketModel, cfg: TokenBucketConfig, now: int)
    requires
        cfg.wf(),
        bucket_wf(b, cfg),
        now >= b.last_ms,
    ensures
        refill_model(b, cfg, now).tokens
            == vstd::math::min(max_milli(cfg), b.tokens + (now - b.last_ms) * cfg.refill_rate),
{
    if now == b.last_ms {
        assert((now - b.last_ms) * cfg.refill_rate == 0);
    }
}

/// Refill monotonicity: tokens never decrease due to elapsed time alone.
/// Refilling yields at least the previous content, and a later clock never
/// yields fewer tokens than an earlier one.
pub proof fn lemma_refill_monotonic(b: BucketModel, cfg: TokenBucketConfig, now1: int, now2: int)
    requires
        cfg.wf(),
        bucket_wf(b, cfg),
        now1 <= now2,
    ensures
        b.tokens <= refill_model(b, cfg, now1).tokens,
        refill_model(b, cfg, now1).tokens <= refill_model(b, cfg, now2).tokens,
{
    if now1 > b.last_ms {
        assert(0 <= (now1 - b.last_ms) * cfg.refill_rate) by (nonlinear_arith)
            requires 0 < now1 - b.last_ms, 0 < cfg.refill_rate;
    }
    if now2 > b.last_ms {
        assert(0 <= (now2 - b.last_ms) * cfg.refill_rate) by (nonlinear_arith)
            requires 0 < now2 - b.last_ms, 0 < cfg.refill_rate;
        assert((now1 - b.last_ms) * cfg.refill_rate <= (now2 - b.last_ms) * cfg.refill_rate)
            by (nonlinear_arith)
            requires now1 <= now2, 0 < cfg.refill_rate;
    }
}

/// The bucket state after `n` immediate `check` calls at the fixed instant
/// `now`, starting from `b`.
pub open spec fn check_n(b: BucketModel, cfg: TokenBucketConfig, now: int, n: nat) -> BucketModel
    decreases n,
{
    if n == 0 {
        b
    } else {
        check_model(check_n(b, cfg, now, (n - 1) as nat), cfg, now).0
    }
}

/// After `n <= max_tokens` immediate calls on a fresh bucket, exactly
/// `max_tokens - n` whole tokens remain; further calls leave it empty.
proof fn lemma_check_n_fresh(cfg: TokenBucketConfig, now: int, n: nat)
    requires
        cfg.wf(),
        0 <= now,
    ensures
        n <= cfg.max_tokens
            ==> check_n(fresh_bucket(cfg, now), cfg, now, n)
                == (BucketModel { tokens: (cfg.max_tokens - n) * 1000, last_ms: now }),
        n >= cfg.max_tokens
            ==> check_n(fresh_bucket(cfg, now), cfg, now, n)
                == (BucketModel { tokens: 0, last_ms: now }),
    decreases n,
{
    if n > 0 {
        lemma_check_n_fresh(cfg, now, (n - 1) as nat);
    }
}

/// Capacity bound: on a fresh key with `max_tokens = N`, a run of immediate
/// `check` calls (no elapsed time between them) admits exactly the first `N`
/// and denies every call from the `(N+1)`-th on.
pub proof fn lemma_capacity_bound(cfg: TokenBucketConfig, now: int, n: nat)
    requires
        cfg.wf(),
        0 <= now,
    ensures
        n < cfg.max_tokens ==> check_model(check_n(fresh_bucket(cfg, now), cfg, now, n), cfg, now).1,
        n >= cfg.max_tokens ==> !check_model(check_n(fresh_bucket(cfg, now), cfg, now, n), cfg, now).1,
{
    lemma_check_n_fresh(cfg, now, n);
    if n < cfg.max_tokens {
        assert((cfg.max_tokens - n) * 1000 >= 1000) by (nonlinear_arith)
            requires n < cfg.max_tokens;
    }
}

} // verus!
