//! The shared-store backend: a stateless client whose refill/consume step
//! runs as one atomically-executed remote procedure (script) against
//! store-resident per-key state.
//!
//! This module owns everything about that call that can be decided locally:
//! the namespaced store key, the script's arguments, the expiry window the
//! script re-arms, how the script's integer reply reads as an admit/deny
//! decision, and — as a specification — the exact state transition the
//! script performs, proved equal to the in-process backend's transition.
//! The network round trip itself is the caller's: it hands the prepared
//! call to the store and brings the reply back.

use vstd::prelude::*;

use crate::TokenBucketConfig;
use crate::bucket::BucketModel;
use crate::bucket::check_model;
use crate::bucket::consume_model;
use crate::bucket::fresh_bucket;
use crate::bucket::max_milli;
use crate::clock;

verus! {

/// The store key under which a caller id's bucket lives: the id behind a
/// fixed rate-limit namespace tag, so these keys cannot collide with
/// unrelated data sharing the store.
pub open spec fn spec_redis_key(id: Seq<char>) -> Seq<char> {
    "rate_limit:"@ + id
}

/// One prepared invocation of the remote procedure: the namespaced key and
/// the script's arguments `(max_tokens, refill_rate, current_time_ms)`,
/// plus the expiry window the script re-arms on the key, in seconds.
#[derive(Debug)]
pub struct ScriptCall {
    pub key: String,
    pub max_tokens: u64,
    pub refill_rate: u64,
    pub now_ms: u64,
    pub expiry_secs: u64,
}

/// A prepared call carries exactly the configuration, the clock reading and
/// the namespaced key of the `check` it stands for.
pub open spec fn script_call_matches(
    c: ScriptCall,
    cfg: TokenBucketConfig,
    id: Seq<char>,
    now: int,
) -> bool {
    &&& c.key@ == spec_redis_key(id)
    &&& c.max_tokens == cfg.max_tokens
    &&& c.refill_rate == cfg.refill_rate
    &&& c.now_ms == now
    &&& c.expiry_secs == cfg.spec_expiry_secs_clamped()
}

/// The transition the remote procedure performs on the stored state, which
/// is absent (`None`) when the store has never seen the key or has expired
/// it: initialize to full capacity when absent, refill for the elapsed time
/// clamped at zero, try to debit one token, and write the state back.
pub open spec fn script_step(
    st: Option<BucketModel>,
    cfg: TokenBucketConfig,
    now: int,
) -> (BucketModel, bool) {
    let b0 = match st {
        Option::Some(b) => b,
        Option::None => fresh_bucket(cfg, now),
    };
    let elapsed = vstd::math::max(0, now - b0.last_ms);
    let b1 = if elapsed > 0 {
        BucketModel {
            tokens: vstd::math::min(max_milli(cfg), b0.tokens + elapsed * cfg.refill_rate),
            last_ms: now,
        }
    } else {
        b0
    };
    consume_model(b1)
}

/// Cross-backend parity, one call: on the same bucket state, configuration
/// and clock reading, the remote procedure and the in-process backend make
/// the same decision and leave the same state.
pub proof fn lemma_backend_parity(st: Option<BucketModel>, cfg: TokenBucketConfig, now: int)
    ensures
        script_step(st, cfg, now) == check_model(
            match st {
                Option::Some(b) => b,
                Option::None => fresh_bucket(cfg, now),
            },
            cfg,
            now,
        ),
{
}

/// The admit/deny answers of the in-process transition over a sequence of
/// call instants, starting from a state that is absent (`None`) or known.
pub open spec fn memory_admits(
    st: Option<BucketModel>,
    cfg: TokenBucketConfig,
    times: Seq<int>,
) -> Seq<bool>
    decreases times.len(),
{
    if times.len() == 0 {
        Seq::empty()
    } else {
        let b0 = match st {
            Option::Some(b) => b,
            Option::None => fresh_bucket(cfg, times[0]),
        };
        let r = check_model(b0, cfg, times[0]);
        seq![r.1] + memory_admits(Option::Some(r.0), cfg, times.drop_first())
    }
}

/// The admit/deny answers of the remote procedure over the same instants.
pub open spec fn script_admits(
    st: Option<BucketModel>,
    cfg: TokenBucketConfig,
    times: Seq<int>,
) -> Seq<bool>
    decreases times.len(),
{
    if times.len() == 0 {
        Seq::empty()
    } else {
        let r = script_step(st, cfg, times[0]);
        seq![r.1] + script_admits(Option::Some(r.0), cfg, times.drop_first())
    }
}

/// Cross-backend parity, whole runs: from the same starting state — in
/// particular from a fresh key, `None` — identical configuration, key and
/// call instants yield identical admit/deny sequences on both backends.
pub proof fn lemma_cross_backend_parity(
    st: Option<BucketModel>,
    cfg: TokenBucketConfig,
    times: Seq<int>,
)
    ensures
        memory_admits(st, cfg, times) == script_admits(st, cfg, times),
    decreases times.len(),
{
    if times.len() > 0 {
        lemma_backend_parity(st, cfg, times[0]);
        let b0 = match st {
            Option::Some(b) => b,
            Option::None => fresh_bucket(cfg, times[0]),
        };
        let r = check_model(b0, cfg, times[0]);
        lemma_cross_backend_parity(Option::Some(r.0), cfg, times.drop_first());
    }
}

/// The shared-store backend's local half: it holds no bucket state, only
/// the configuration from which every call is prepared.
#[derive(Debug, Copy, Clone)]
pub struct RedisStorage {
    config: TokenBucketConfig,
}

impl RedisStorage {
    /// The configuration this backend was built with.
    pub closed spec fn spec_config(&self) -> TokenBucketConfig {
        self.config
    }

    pub fn new(config: &TokenBucketConfig) -> (s: Self)
        requires
            config.wf(),
        ensures
            s.spec_config() == *config,
    {
        RedisStorage { config: *config }
    }

    /// Prepare the remote procedure call for one `check` of `id`, with the
    /// clock read as `now_ms`.
    pub fn check_call_at(&self, id: &str, now_ms: u64) -> (c: ScriptCall)
        requires
            self.spec_config().wf(),
        ensures
            script_call_matches(c, self.spec_config(), id@, now_ms as int),
    {
        let mut key: String = String::from_str("rate_limit:");
        key.append(id);
        let expiry_secs: u64 = self.config.expiry_window_secs();
        ScriptCall {
            key,
            max_tokens: self.config.max_tokens,
            refill_rate: self.config.refill_rate,
            now_ms,
            expiry_secs,
        }
    }

    /// Prepare the remote procedure call for one `check` of `id`, reading
    /// the wall clock for the current instant.
    pub fn check_call(&self, id: &str) -> (c: ScriptCall)
        requires
            self.spec_config().wf(),
        ensures
            exists|now: int|
                0 <= now && #[trigger] script_call_matches(c, self.spec_config(), id@, now),
    {
        let now: u64 = clock::now_ms();
        let c = self.check_call_at(id, now);
        proof {
            assert(script_call_matches(c, self.spec_config(), id@, now as int));
        }
        c
    }

    /// Read the remote procedure's reply: the script answers `1` to admit
    /// and `0` to deny.
    pub fn interpret_reply(reply: i64) -> (allowed: bool)
        ensures
            allowed == (reply == 1),
    {
        reply == 1
    }
}

} // verus!
