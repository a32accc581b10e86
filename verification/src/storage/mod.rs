//! The storage facade and its two backends.

use vstd::prelude::*;

pub mod memory;
pub mod redis;

use crate::TokenBucketConfig;
use crate::storage::memory::MemoryStorage;
use crate::storage::memory::storage_check;
use crate::storage::redis::RedisStorage;
use crate::storage::redis::ScriptCall;
use crate::storage::redis::script_call_matches;

verus! {

/// The closed set of backends, each built from the same configuration and
/// dispatched behind one uniform `check` contract. Adding a backend means
/// adding a variant here; callers do not change.
#[derive(Debug)]
pub enum Storage {
    Memory(MemoryStorage),
    Redis(RedisStorage),
}

/// What one `check` came to: the in-process backend decides on the spot;
/// the shared-store backend hands back the remote call to make, whose
/// integer reply `interpret_reply` then reads as the decision.
#[derive(Debug)]
pub enum CheckStep {
    Decided(bool),
    Remote(ScriptCall),
}

impl Storage {
    /// The backend's invariant.
    pub open spec fn wf(&self) -> bool {
        match self {
            Storage::Memory(m) => m.wf(),
            Storage::Redis(r) => r.spec_config().wf(),
        }
    }

    /// The configuration the active backend was built with.
    pub open spec fn spec_config(&self) -> TokenBucketConfig {
        match self {
            Storage::Memory(m) => m.spec_config(),
            Storage::Redis(r) => r.spec_config(),
        }
    }

    pub fn new_memory(config: &TokenBucketConfig) -> (s: Self)
        requires
            config.wf(),
        ensures
            s.wf(),
            s is Memory,
            s.spec_config() == *config,
            s->Memory_0@ == Map::<Seq<char>, crate::EntryModel>::empty(),
    {
        Storage::Memory(MemoryStorage::new(config))
    }

    pub fn new_redis(config: &TokenBucketConfig) -> (s: Self)
        requires
            config.wf(),
        ensures
            s.wf(),
            s is Redis,
            s.spec_config() == *config,
    {
        Storage::Redis(RedisStorage::new(config))
    }

    /// One `check` with the clock read as `now_ms`: decided on the spot by
    /// the in-process backend, or prepared as a remote call by the
    /// shared-store backend.
    pub fn check_at(&mut self, id: &str, now_ms: u64) -> (r: CheckStep)
        requires
            old(self).wf(),
        ensures
            final(self).wf(),
            final(self).spec_config() == old(self).spec_config(),
            *old(self) is Memory ==> *final(self) is Memory && r is Decided
                && (final(self)->Memory_0@, r->Decided_0) == storage_check(
                old(self)->Memory_0@,
                old(self).spec_config(),
                id@,
                now_ms as int,
            ),
            *old(self) is Redis ==> *final(self) == *old(self) && r is Remote
                && script_call_matches(r->Remote_0, old(self).spec_config(), id@, now_ms as int),
    {
        match self {
            Storage::Memory(m) => CheckStep::Decided(m.check_at(id, now_ms)),
            Storage::Redis(r) => CheckStep::Remote(r.check_call_at(id, now_ms)),
        }
    }

    /// One `check`, reading the wall clock. Some clock reading accounts
    /// exactly for the step taken.
    pub fn check(&mut self, id: &str) -> (r: CheckStep)
        requires
            old(self).wf(),
        ensures
            final(self).wf(),
            final(self).spec_config() == old(self).spec_config(),
            *old(self) is Memory ==> *final(self) is Memory && r is Decided && exists|now: int|
                0 <= now && (final(self)->Memory_0@, r->Decided_0) == #[trigger] storage_check(
                    old(self)->Memory_0@,
                    old(self).spec_config(),
                    id@,
                    now,
                ),
            *old(self) is Redis ==> *final(self) == *old(self) && r is Remote && exists|now: int|
                0 <= now && #[trigger] script_call_matches(
                    r->Remote_0,
                    old(self).spec_config(),
                    id@,
                    now,
                ),
    {
        let now: u64 = crate::clock::now_ms();
        let r = self.check_at(id, now);
        proof {
            if *old(self) is Memory {
                assert((self->Memory_0@, r->Decided_0) == storage_check(
                    old(self)->Memory_0@,
                    old(self).spec_config(),
                    id@,
                    now as int,
                ));
            } else {
                assert(script_call_matches(
                    r->Remote_0,
                    old(self).spec_config(),
                    id@,
                    now as int,
                ));
            }
        }
        r
    }
}

} // verus!
