use rate_limiter::CheckStep;
use rate_limiter::MemoryStorage;
use rate_limiter::RateLimiter;
use rate_limiter::RedisStorage;
use rate_limiter::Storage;
use rate_limiter::TokenBucket;
use rate_limiter::TokenBucketConfig;

#[test]
fn simple_test() {
    let mut storage = MemoryStorage::new(&TokenBucketConfig {
        max_tokens: 4,
        refill_rate: 1,
    });

    assert_eq!(storage.check("test"), true);
    assert_eq!(storage.check("test"), true);
    assert_eq!(storage.check("test"), true);
    assert_eq!(storage.check("test"), true);
    assert_eq!(storage.check("test"), false);
}

#[test]
fn refill_test() {
    let mut storage = MemoryStorage::new(&TokenBucketConfig {
        max_tokens: 1,
        refill_rate: 1,
    });
    let t0: u64 = 1_000_000;

    assert_eq!(storage.check_at("refill", t0), true);
    assert_eq!(storage.check_at("refill", t0), false);

    assert_eq!(storage.check_at("refill", t0 + 2000), true);
}

#[test]
fn ttl_test() {
    let mut storage = MemoryStorage::new(&TokenBucketConfig {
        max_tokens: 1,
        refill_rate: 1,
    });
    let t0: u64 = 1_000_000;

    assert_eq!(storage.check_at("ttl", t0), true);
    assert_eq!(storage.check_at("ttl", t0), false);

    assert_eq!(storage.check_at("ttl", t0 + 2500), true);
}

#[test]
fn capacity_scenario() {
    // max_tokens = 4, refill_rate = 1, no elapsed time between calls:
    // four admits, then a denial.
    let mut storage = MemoryStorage::new(&TokenBucketConfig {
        max_tokens: 4,
        refill_rate: 1,
    });
    let t0: u64 = 50;

    assert_eq!(storage.check_at("k", t0), true);
    assert_eq!(storage.check_at("k", t0), true);
    assert_eq!(storage.check_at("k", t0), true);
    assert_eq!(storage.check_at("k", t0), true);
    assert_eq!(storage.check_at("k", t0), false);
}

#[test]
fn refill_exact_boundary() {
    let mut storage = MemoryStorage::new(&TokenBucketConfig {
        max_tokens: 1,
        refill_rate: 1,
    });
    let t0: u64 = 10_000;

    assert_eq!(storage.check_at("r", t0), true);
    assert_eq!(storage.check_at("r", t0 + 999), false);
    // 999 ms later the bucket held 0.999 tokens; 1 ms more completes one.
    assert_eq!(storage.check_at("r", t0 + 1000), true);
}

#[test]
fn subsecond_accumulation() {
    let mut storage = MemoryStorage::new(&TokenBucketConfig {
        max_tokens: 4,
        refill_rate: 1,
    });
    let t0: u64 = 7_000;

    for _ in 0..4 {
        assert_eq!(storage.check_at("s", t0), true);
    }
    // Half a second refills half a token: not enough.
    assert_eq!(storage.check_at("s", t0 + 500), false);
    // The half-token was kept; another half completes one.
    assert_eq!(storage.check_at("s", t0 + 1000), true);
}

#[test]
fn no_over_refill() {
    let mut storage = MemoryStorage::new(&TokenBucketConfig {
        max_tokens: 2,
        refill_rate: 1,
    });
    let t0: u64 = 1;

    assert_eq!(storage.check_at("n", t0), true);
    assert_eq!(storage.check_at("n", t0), true);
    assert_eq!(storage.check_at("n", t0), false);

    // An enormous idle span still fills the bucket only to capacity.
    let later = t0 + 100_000_000;
    assert_eq!(storage.check_at("n", later), true);
    assert_eq!(storage.check_at("n", later), true);
    assert_eq!(storage.check_at("n", later), false);
}

#[test]
fn per_key_independence() {
    let mut storage = MemoryStorage::new(&TokenBucketConfig {
        max_tokens: 1,
        refill_rate: 1,
    });
    let t0: u64 = 42;

    assert_eq!(storage.check_at("a", t0), true);
    assert_eq!(storage.check_at("a", t0), false);
    // Key "a" being denied leaves key "b" untouched.
    assert_eq!(storage.check_at("b", t0), true);
}

#[test]
fn clock_going_backwards() {
    let mut storage = MemoryStorage::new(&TokenBucketConfig {
        max_tokens: 2,
        refill_rate: 1,
    });
    let t0: u64 = 100_000;

    assert_eq!(storage.check_at("c", t0), true);
    // An earlier reading adds no tokens and moves no refill instant.
    assert_eq!(storage.check_at("c", t0 - 5000), true);
    assert_eq!(storage.check_at("c", t0 - 5000), false);
}

#[test]
fn idle_expiry_reinitializes() {
    let mut storage = MemoryStorage::new(&TokenBucketConfig {
        max_tokens: 3,
        refill_rate: 1,
    });
    let t0: u64 = 500;

    for _ in 0..3 {
        assert_eq!(storage.check_at("i", t0), true);
    }
    assert_eq!(storage.check_at("i", t0), false);

    // The idle window is ceil(3/1)+1 = 4 s; past it the key behaves as
    // never seen: full capacity again.
    let later = t0 + 4000;
    for _ in 0..3 {
        assert_eq!(storage.check_at("i", later), true);
    }
    assert_eq!(storage.check_at("i", later), false);
}

#[test]
fn sweep_keeps_live_state() {
    let mut storage = MemoryStorage::new(&TokenBucketConfig {
        max_tokens: 4,
        refill_rate: 1,
    });
    let t0: u64 = 10_000;

    // Drain the key, then spend the one token a second's refill grants.
    for _ in 0..4 {
        assert_eq!(storage.check_at("keep", t0), true);
    }
    assert_eq!(storage.check_at("keep", t0), false);
    assert_eq!(storage.check_at("keep", t0 + 1000), true);

    // The idle window is 5 s; after 2 s idle the entry must survive a sweep.
    storage.sweep(t0 + 3000);

    // Two seconds of refill on a drained bucket: two admits, then denial.
    // A swept-away entry would have come back at full capacity instead.
    assert_eq!(storage.check_at("keep", t0 + 3000), true);
    assert_eq!(storage.check_at("keep", t0 + 3000), true);
    assert_eq!(storage.check_at("keep", t0 + 3000), false);
}

#[test]
fn expiry_window_values() {
    let w41 = TokenBucketConfig { max_tokens: 4, refill_rate: 1 };
    assert_eq!(w41.expiry_window_secs(), 5);
    assert_eq!(w41.expiry_window_ms(), 5000);

    let w52 = TokenBucketConfig { max_tokens: 5, refill_rate: 2 };
    assert_eq!(w52.expiry_window_secs(), 4);

    let w11 = TokenBucketConfig { max_tokens: 1, refill_rate: 1 };
    assert_eq!(w11.expiry_window_secs(), 2);
    assert_eq!(w11.expiry_window_ms(), 2000);
}

#[test]
fn token_bucket_direct() {
    let cfg = TokenBucketConfig { max_tokens: 2, refill_rate: 1 };
    let mut b = TokenBucket::new(&cfg, 1000);

    assert_eq!(b.refill_and_consume(&cfg, 1000), true);
    assert_eq!(b.refill_and_consume(&cfg, 1000), true);
    assert_eq!(b.refill_and_consume(&cfg, 1000), false);
    assert_eq!(b.refill_and_consume(&cfg, 2000), true);
}

#[test]
fn rate_limiter_memory_facade() {
    let cfg = TokenBucketConfig { max_tokens: 1, refill_rate: 1 };
    let mut limiter = RateLimiter::new_memory(&cfg);
    let t0: u64 = 9_000;

    match limiter.check_at("u", t0) {
        CheckStep::Decided(allowed) => assert_eq!(allowed, true),
        CheckStep::Remote(_) => panic!("the in-process backend decides on the spot"),
    }
    match limiter.check_at("u", t0) {
        CheckStep::Decided(allowed) => assert_eq!(allowed, false),
        CheckStep::Remote(_) => panic!("the in-process backend decides on the spot"),
    }

    // The wall-clock entry point on a fresh key admits: a new bucket is full.
    match limiter.check("fresh-key") {
        CheckStep::Decided(allowed) => assert_eq!(allowed, true),
        CheckStep::Remote(_) => panic!("the in-process backend decides on the spot"),
    }
}

#[test]
fn rate_limiter_redis_facade() {
    let cfg = TokenBucketConfig { max_tokens: 4, refill_rate: 1 };
    let mut limiter = RateLimiter::new_redis(&cfg);

    match limiter.check_at("user1", 123_456) {
        CheckStep::Decided(_) => panic!("the shared-store backend hands back the call"),
        CheckStep::Remote(call) => {
            assert_eq!(call.key, "rate_limit:user1");
            assert_eq!(call.max_tokens, 4);
            assert_eq!(call.refill_rate, 1);
            assert_eq!(call.now_ms, 123_456);
            assert_eq!(call.expiry_secs, 5);
        }
    }
}

#[test]
fn storage_facade_dispatch() {
    let cfg = TokenBucketConfig { max_tokens: 1, refill_rate: 1 };
    let mut mem = Storage::new_memory(&cfg);
    match mem.check_at("x", 10) {
        CheckStep::Decided(allowed) => assert_eq!(allowed, true),
        CheckStep::Remote(_) => panic!("memory decides on the spot"),
    }

    let mut red = Storage::new_redis(&cfg);
    match red.check_at("x", 10) {
        CheckStep::Decided(_) => panic!("redis hands back the call"),
        CheckStep::Remote(call) => assert_eq!(call.key, "rate_limit:x"),
    }
}

#[test]
fn redis_check_call_with_clock() {
    let cfg = TokenBucketConfig { max_tokens: 2, refill_rate: 1 };
    let planner = rate_limiter::RedisStorage::new(&cfg);

    let call = planner.check_call("alice");
    assert_eq!(call.key, "rate_limit:alice");
    assert_eq!(call.max_tokens, 2);
    assert_eq!(call.refill_rate, 1);
    assert_eq!(call.expiry_secs, 3);
    // The instant is whatever the clock read; it is at least not before the epoch.
    assert!(call.now_ms > 0);
}

#[test]
fn interpret_reply_values() {
    assert_eq!(RedisStorage::interpret_reply(1), true);
    assert_eq!(RedisStorage::interpret_reply(0), false);
    assert_eq!(RedisStorage::interpret_reply(2), false);
    assert_eq!(RedisStorage::interpret_reply(-1), false);
}
