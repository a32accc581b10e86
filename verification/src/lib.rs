//! A token-bucket rate limiter keyed by caller-supplied identifier strings.
//!
//! Each key owns a bucket of at most `max_tokens` tokens that refills at
//! `refill_rate` tokens per second and pays one token per admitted request.
//! Tokens are held in thousandths (milli-tokens) so that sub-second refills
//! accumulate without truncation loss.

use vstd::prelude::*;

mod bucket;
mod clock;
mod storage;

pub use storage::CheckStep;
pub use storage::Storage;
pub use storage::memory::EntryModel;
pub use storage::memory::MemoryStorage;
pub use storage::memory::entry_live;
pub use storage::memory::lemma_idle_equivalence;
pub use storage::memory::lemma_per_key_independence;
pub use storage::memory::lemma_storage_capacity_bound;
pub use storage::memory::storage_check;
pub use storage::memory::storage_check_n;
pub use bucket::BucketModel;
pub use bucket::TokenBucket;
pub use bucket::bucket_wf;
pub use bucket::check_model;
pub use bucket::check_n;
pub use bucket::consume_model;
pub use bucket::fresh_bucket;
pub use bucket::lemma_capacity_bound;
pub use bucket::lemma_no_over_refill;
pub use bucket::lemma_refill_formula;
pub use bucket::lemma_refill_monotonic;
pub use bucket::max_milli;
pub use bucket::refill_model;
pub use storage::redis::RedisStorage;
pub use storage::redis::ScriptCall;
pub use storage::redis::lemma_backend_parity;
pub use storage::redis::lemma_cross_backend_parity;
pub use storage::redis::memory_admits;
pub use storage::redis::script_admits;
pub use storage::redis::script_call_matches;
pub use storage::redis::script_step;
pub use storage::redis::spec_redis_key;

verus! {

/// Configuration of one rate limiter instance, shared by all of its keys.
#[derive(Debug, Copy, Clone, PartialEq, Eq, Structural)]
pub struct TokenBucketConfig {
    /// Max tokens the bucket can hold.
    pub max_tokens: u64,
    /// Tokens per second to refill.
    pub refill_rate: u64,
}

impl TokenBucketConfig {
    /// A configuration is well formed when both values are positive.
    pub open spec fn wf(&self) -> bool {
        &&& 0 < self.max_tokens
        &&& 0 < self.refill_rate
    }

    /// The idle window in seconds: `ceil(max_tokens / refill_rate) + 1`.
    /// A key idle that long has refilled to capacity, so dropping its state
    /// is indistinguishable from keeping it.
    pub open spec fn spec_expiry_secs(&self) -> int {
        (self.max_tokens + self.refill_rate - 1) / (self.refill_rate as int) + 1
    }

    /// The idle window in seconds, saturated to the largest `u64`.
    pub open spec fn spec_expiry_secs_clamped(&self) -> int {
        vstd::math::min(self.spec_expiry_secs(), u64::MAX as int)
    }

    /// The idle window in milliseconds, saturated to the largest `u64`
    /// (the widest span two `u64` millisecond clocks can be apart).
    pub open spec fn spec_expiry_ms(&self) -> int {
        vstd::math::min(self.spec_expiry_secs() * 1000, u64::MAX as int)
    }

    /// Idle window in whole seconds, as handed to the shared store's expiry.
    pub fn expiry_window_secs(&self) -> (r: u64)
        requires
            self.wf(),
        ensures
            r == self.spec_expiry_secs_clamped(),
    {
        let secs: u128 = (self.max_tokens as u128 + self.refill_rate as u128 - 1)
            / (self.refill_rate as u128) + 1;
        if secs > u64::MAX as u128 {
            u64::MAX
        } else {
            secs as u64
        }
    }

    /// Idle window in milliseconds, as the in-process backend measures idleness.
    pub fn expiry_window_ms(&self) -> (r: u64)
        requires
            self.wf(),
        ensures
            r == self.spec_expiry_ms(),
    {
        let secs: u128 = (self.max_tokens as u128 + self.refill_rate as u128 - 1)
            / (self.refill_rate as u128) + 1;
        let ms: u128 = secs * 1000;
        if ms > u64::MAX as u128 {
            u64::MAX
        } else {
            ms as u64
        }
    }
}

/// The idle window of a well-formed configuration spans at least one whole
/// second, so an entry accessed at this very instant is always live.
pub proof fn lemma_expiry_window_positive(cfg: TokenBucketConfig)
    requires
        cfg.wf(),
    ensures
        cfg.spec_expiry_secs() >= 1,
        cfg.spec_expiry_ms() >= 1000,
{
    vstd::arithmetic::div_mod::lemma_div_pos_is_pos(
        cfg.max_tokens + cfg.refill_rate - 1,
        cfg.refill_rate as int,
    );
}

/// The public entry point: one storage backend behind one `check` operation.
#[derive(Debug)]
pub struct RateLimiter {
    storage: Storage,
}

impl RateLimiter {
    /// The backend this limiter dispatches to.
    pub closed spec fn spec_storage(&self) -> Storage {
        self.storage
    }

    /// The limiter's invariant: its backend's.
    pub open spec fn wf(&self) -> bool {
        self.spec_storage().wf()
    }

    /// A limiter over the in-process backend.
    pub fn new_memory(config: &TokenBucketConfig) -> (s: Self)
        requires
            config.wf(),
        ensures
            s.wf(),
            s.spec_storage() is Memory,
            s.spec_storage().spec_config() == *config,
            s.spec_storage()->Memory_0@ == Map::<Seq<char>, EntryModel>::empty(),
    {
        RateLimiter { storage: Storage::new_memory(config) }
    }

    /// A limiter over the shared-store backend. The store connection itself
    /// is the caller's: it performs the remote calls this limiter prepares.
    pub fn new_redis(config: &TokenBucketConfig) -> (s: Self)
        requires
            config.wf(),
        ensures
            s.wf(),
            s.spec_storage() is Redis,
            s.spec_storage().spec_config() == *config,
    {
        RateLimiter { storage: Storage::new_redis(config) }
    }

    /// Check if the request is allowed, with the clock read as `now_ms`.
    ///
    /// This refills tokens for the elapsed time and consumes one if
    /// available: the in-process backend answers on the spot; the
    /// shared-store backend hands back the remote call that answers.
    pub fn check_at(&mut self, id: &str, now_ms: u64) -> (r: CheckStep)
        requires
            old(self).wf(),
        ensures
            final(self).wf(),
            final(self).spec_storage().spec_config() == old(self).spec_storage().spec_config(),
            old(self).spec_storage() is Memory ==> final(self).spec_storage() is Memory
                && r is Decided
                && (final(self).spec_storage()->Memory_0@, r->Decided_0) == storage_check(
                old(self).spec_storage()->Memory_0@,
                old(self).spec_storage().spec_config(),
                id@,
                now_ms as int,
            ),
            old(self).spec_storage() is Redis ==> *final(self) == *old(self) && r is Remote
                && script_call_matches(
                r->Remote_0,
                old(self).spec_storage().spec_config(),
                id@,
                now_ms as int,
            ),
    {
        self.storage.check_at(id, now_ms)
    }

    /// Check if the request is allowed, reading the wall clock. Some clock
    /// reading accounts exactly for the step taken.
    pub fn check(&mut self, id: &str) -> (r: CheckStep)
        requires
            old(self).wf(),
        ensures
            final(self).wf(),
            final(self).spec_storage().spec_config() == old(self).spec_storage().spec_config(),
            old(self).spec_storage() is Memory ==> final(self).spec_storage() is Memory
                && r is Decided && exists|now: int|
                0 <= now && (final(self).spec_storage()->Memory_0@, r->Decided_0)
                    == #[trigger] storage_check(
                    old(self).spec_storage()->Memory_0@,
                    old(self).spec_storage().spec_config(),
                    id@,
                    now,
                ),
            old(self).spec_storage() is Redis ==> *final(self) == *old(self) && r is Remote
                && exists|now: int|
                0 <= now && #[trigger] script_call_matches(
                    r->Remote_0,
                    old(self).spec_storage().spec_config(),
                    id@,
                    now,
                ),
    {
        self.storage.check(id)
    }
}

} // verus!
