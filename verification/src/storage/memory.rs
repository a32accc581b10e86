//! The in-process backend: a key→bucket map held in this process, with
//! on-access idle-expiry.
//!
//! Entries carry a last-access instant; an entry idle for at least the
//! configured window counts as absent and is reinitialized on its next
//! access, which is behaviorally identical to the key never having been
//! seen (an idle key would have refilled to capacity by then anyway).

use vstd::prelude::*;

use crate::TokenBucketConfig;
use crate::bucket::BucketModel;
use crate::bucket::TokenBucket;
use crate::bucket::bucket_wf;
use crate::bucket::check_model;
use crate::bucket::fresh_bucket;
use crate::clock;

verus! {

/// The model of one key's entry: its bucket and the instant of its last
/// access, in milliseconds since the epoch.
pub struct EntryModel {
    pub bucket: BucketModel,
    pub last_access: int,
}

/// An entry is live at `now` when less than the idle window has passed
/// since its last access; otherwise it counts as expired.
pub open spec fn entry_live(e: EntryModel, cfg: TokenBucketConfig, now: int) -> bool {
    now - e.last_access < cfg.spec_expiry_ms()
}

/// One `check` call on the in-process backend: resolve the key's bucket
/// (reinitializing to full capacity when the key is absent or expired),
/// refill it for the elapsed time, try to debit one token, and store the
/// result under the key with its access instant refreshed.
pub open spec fn storage_check(
    m: Map<Seq<char>, EntryModel>,
    cfg: TokenBucketConfig,
    id: Seq<char>,
    now: int,
) -> (Map<Seq<char>, EntryModel>, bool) {
    let b0 = if m.contains_key(id) && entry_live(m[id], cfg, now) {
        m[id].bucket
    } else {
        fresh_bucket(cfg, now)
    };
    let r = check_model(b0, cfg, now);
    (m.insert(id, EntryModel { bucket: r.0, last_access: now }), r.1)
}

/// Per-key independence: a `check` for one key never touches another key's
/// entry, whatever it decides.
pub proof fn lemma_per_key_independence(
    m: Map<Seq<char>, EntryModel>,
    cfg: TokenBucketConfig,
    id: Seq<char>,
    other: Seq<char>,
    now: int,
)
    requires
        id != other,
    ensures
        storage_check(m, cfg, id, now).0.contains_key(other) == m.contains_key(other),
        m.contains_key(other) ==> storage_check(m, cfg, id, now).0[other] == m[other],
{
}

/// Idle-equivalence: a key idle for at least the expiry window behaves,
/// from the caller's perspective, exactly like a key never seen before —
/// same admit decision and same resulting state.
pub proof fn lemma_idle_equivalence(
    m: Map<Seq<char>, EntryModel>,
    cfg: TokenBucketConfig,
    id: Seq<char>,
    now: int,
)
    requires
        m.contains_key(id),
        !entry_live(m[id], cfg, now),
    ensures
        storage_check(m, cfg, id, now) == storage_check(m.remove(id), cfg, id, now),
{
    assert(storage_check(m, cfg, id, now).0 =~= storage_check(m.remove(id), cfg, id, now).0);
}

/// The backend's map after `n` immediate `check` calls for one key at the
/// fixed instant `now`, starting from `m`.
pub open spec fn storage_check_n(
    m: Map<Seq<char>, EntryModel>,
    cfg: TokenBucketConfig,
    id: Seq<char>,
    now: int,
    n: nat,
) -> Map<Seq<char>, EntryModel>
    decreases n,
{
    if n == 0 {
        m
    } else {
        storage_check(storage_check_n(m, cfg, id, now, (n - 1) as nat), cfg, id, now).0
    }
}

proof fn lemma_storage_check_n_entry(
    m: Map<Seq<char>, EntryModel>,
    cfg: TokenBucketConfig,
    id: Seq<char>,
    now: int,
    n: nat,
)
    requires
        cfg.wf(),
        0 <= now,
        !m.contains_key(id),
    ensures
        n >= 1 ==> storage_check_n(m, cfg, id, now, n).contains_key(id)
            && storage_check_n(m, cfg, id, now, n)[id] == (EntryModel {
            bucket: crate::bucket::check_n(fresh_bucket(cfg, now), cfg, now, n),
            last_access: now,
        }),
    decreases n,
{
    if n >= 1 {
        lemma_storage_check_n_entry(m, cfg, id, now, (n - 1) as nat);
        crate::lemma_expiry_window_positive(cfg);
        let prev = storage_check_n(m, cfg, id, now, (n - 1) as nat);
        let f = fresh_bucket(cfg, now);
        assert(storage_check_n(m, cfg, id, now, n) == storage_check(prev, cfg, id, now).0);
        if n == 1 {
            assert(prev == m);
            assert(crate::bucket::check_n(f, cfg, now, n) == check_model(
                crate::bucket::check_n(f, cfg, now, (n - 1) as nat),
                cfg,
                now,
            ).0);
            assert(crate::bucket::check_n(f, cfg, now, (n - 1) as nat) == f);
        } else {
            assert(prev.contains_key(id) && prev[id].last_access == now);
            assert(entry_live(prev[id], cfg, now));
            assert(crate::bucket::check_n(f, cfg, now, n) == check_model(
                crate::bucket::check_n(f, cfg, now, (n - 1) as nat),
                cfg,
                now,
            ).0);
        }
    }
}

/// Capacity bound at the backend: on a key the backend has never seen, a
/// run of immediate `check` calls (no elapsed time between them) admits
/// exactly the first `max_tokens` and denies every later call.
pub proof fn lemma_storage_capacity_bound(
    m: Map<Seq<char>, EntryModel>,
    cfg: TokenBucketConfig,
    id: Seq<char>,
    now: int,
    n: nat,
)
    requires
        cfg.wf(),
        0 <= now,
        !m.contains_key(id),
    ensures
        n < cfg.max_tokens ==> storage_check(
            storage_check_n(m, cfg, id, now, n),
            cfg,
            id,
            now,
        ).1,
        n >= cfg.max_tokens ==> !storage_check(
            storage_check_n(m, cfg, id, now, n),
            cfg,
            id,
            now,
        ).1,
{
    lemma_storage_check_n_entry(m, cfg, id, now, n);
    crate::lemma_expiry_window_positive(cfg);
    crate::bucket::lemma_capacity_bound(cfg, now, n);
}

/// One key's entry as held in memory.
#[derive(Debug)]
struct BucketEntry {
    key: String,
    bucket: TokenBucket,
    last_access_ms: u64,
}

spec fn entry_model(e: BucketEntry) -> EntryModel {
    EntryModel { bucket: e.bucket@, last_access: e.last_access_ms as int }
}

spec fn entries_map(s: Seq<BucketEntry>) -> Map<Seq<char>, EntryModel>
    decreases s.len(),
{
    if s.len() == 0 {
        Map::empty()
    } else {
        entries_map(s.drop_last()).insert(s.last().key@, entry_model(s.last()))
    }
}

spec fn keys_unique(s: Seq<BucketEntry>) -> bool {
    forall|i: int, j: int|
        0 <= i < j < s.len() ==> #[trigger] s[i].key@ != #[trigger] s[j].key@
}

proof fn lemma_entries_map_contains(s: Seq<BucketEntry>, k: Seq<char>)
    ensures
        entries_map(s).contains_key(k) <==> exists|i: int|
            0 <= i < s.len() && #[trigger] s[i].key@ == k,
    decreases s.len(),
{
    if s.len() > 0 {
        lemma_entries_map_contains(s.drop_last(), k);
        if s.last().key@ == k {
            assert(s[s.len() - 1].key@ == k);
        } else {
            if entries_map(s).contains_key(k) {
                let i = choose|i: int|
                    0 <= i < s.drop_last().len() && #[trigger] s.drop_last()[i].key@ == k;
                assert(s[i].key@ == k);
            }
            if exists|i: int| 0 <= i < s.len() && #[trigger] s[i].key@ == k {
                let i = choose|i: int| 0 <= i < s.len() && #[trigger] s[i].key@ == k;
                assert(i < s.len() - 1);
                assert(s.drop_last()[i].key@ == k);
            }
        }
    }
}

proof fn lemma_entries_map_index(s: Seq<BucketEntry>, i: int)
    requires
        keys_unique(s),
        0 <= i < s.len(),
    ensures
        entries_map(s).contains_key(s[i].key@),
        entries_map(s)[s[i].key@] == entry_model(s[i]),
    decreases s.len(),
{
    if i == s.len() - 1 {
    } else {
        lemma_entries_map_index(s.drop_last(), i);
        assert(s.drop_last()[i] == s[i]);
        assert(s.last().key@ != s[i].key@);
    }
}

proof fn lemma_entries_map_update(s: Seq<BucketEntry>, i: int, e: BucketEntry)
    requires
        keys_unique(s),
        0 <= i < s.len(),
        e.key@ == s[i].key@,
    ensures
        entries_map(s.update(i, e)) == entries_map(s).insert(e.key@, entry_model(e)),
        keys_unique(s.update(i, e)),
    decreases s.len(),
{
    let su = s.update(i, e);
    assert(keys_unique(su));
    if i == s.len() - 1 {
        assert(su.drop_last() =~= s.drop_last());
        assert(su.last() == e);
        assert(entries_map(su) =~= entries_map(s).insert(e.key@, entry_model(e)));
    } else {
        assert(su.drop_last() =~= s.drop_last().update(i, e));
        assert(su.last() == s.last());
        lemma_entries_map_update(s.drop_last(), i, e);
        assert(s.last().key@ != e.key@);
        assert(entries_map(su) =~= entries_map(s).insert(e.key@, entry_model(e)));
    }
}

proof fn lemma_entries_map_push(s: Seq<BucketEntry>, e: BucketEntry)
    requires
        keys_unique(s),
        forall|i: int| 0 <= i < s.len() ==> s[i].key@ != e.key@,
    ensures
        entries_map(s.push(e)) == entries_map(s).insert(e.key@, entry_model(e)),
        keys_unique(s.push(e)),
{
    assert(s.push(e).drop_last() =~= s);
    assert(s.push(e).last() == e);
    assert(entries_map(s.push(e)) =~= entries_map(s).insert(e.key@, entry_model(e)));
}

#[verifier::rlimit(50)]
proof fn lemma_swept_entries(
    s0: Seq<BucketEntry>,
    kept: Seq<BucketEntry>,
    cfg: TokenBucketConfig,
    now: int,
    to_src: Seq<int>,
    to_kept: Seq<int>,
)
    requires
        cfg.wf(),
        keys_unique(s0),
        keys_unique(kept),
        to_src.len() == kept.len(),
        forall|i: int| #![trigger to_src[i]]
            0 <= i < kept.len() ==> 0 <= to_src[i] < s0.len() && s0[to_src[i]] == kept[i]
                && entry_live(entry_model(kept[i]), cfg, now),
        to_kept.len() == s0.len(),
        forall|j0: int| #![trigger to_kept[j0]]
            0 <= j0 < s0.len() && entry_live(entry_model(s0[j0]), cfg, now)
                ==> 0 <= to_kept[j0] < kept.len() && kept[to_kept[j0]] == s0[j0],
        forall|i: int| 0 <= i < s0.len() ==> bucket_wf(#[trigger] s0[i].bucket@, cfg),
    ensures
        forall|k: Seq<char>| #[trigger]
            entries_map(kept).contains_key(k) ==> entries_map(s0).contains_key(k) && entry_live(
                entries_map(s0)[k],
                cfg,
                now,
            ) && entries_map(kept)[k] == entries_map(s0)[k],
        forall|k: Seq<char>| #[trigger]
            entries_map(s0).contains_key(k) && entry_live(entries_map(s0)[k], cfg, now)
                ==> entries_map(kept).contains_key(k),
        forall|i: int| 0 <= i < kept.len() ==> bucket_wf(#[trigger] kept[i].bucket@, cfg),
{
    assert forall|k: Seq<char>| #[trigger]
        entries_map(kept).contains_key(k) implies entries_map(s0).contains_key(k) && entry_live(
        entries_map(s0)[k],
        cfg,
        now,
    ) && entries_map(kept)[k] == entries_map(s0)[k] by {
        lemma_entries_map_contains(kept, k);
        let i = choose|i: int| 0 <= i < kept.len() && #[trigger] kept[i].key@ == k;
        let j0 = to_src[i];
        assert(s0[j0] == kept[i]);
        lemma_entries_map_index(kept, i);
        lemma_entries_map_index(s0, j0);
    }
    assert forall|k: Seq<char>| #[trigger]
        entries_map(s0).contains_key(k) && entry_live(
            entries_map(s0)[k],
            cfg,
            now,
        ) implies entries_map(kept).contains_key(k) by {
        lemma_entries_map_contains(s0, k);
        let j0 = choose|j0: int| 0 <= j0 < s0.len() && #[trigger] s0[j0].key@ == k;
        lemma_entries_map_index(s0, j0);
        assert(entry_live(entry_model(s0[j0]), cfg, now));
        let i = to_kept[j0];
        assert(kept[i] == s0[j0]);
        lemma_entries_map_index(kept, i);
    }
    assert forall|i: int| 0 <= i < kept.len() implies bucket_wf(
        #[trigger] kept[i].bucket@,
        cfg,
    ) by {
        let j0 = to_src[i];
        assert(bucket_wf(s0[j0].bucket@, cfg));
    }
}

/// The in-process backend: the configuration and one bucket per key seen
/// recently, with per-entry last-access instants for on-access expiry.
#[derive(Debug)]
pub struct MemoryStorage {
    config: TokenBucketConfig,
    buckets: Vec<BucketEntry>,
}

impl View for MemoryStorage {
    type V = Map<Seq<char>, EntryModel>;

    closed spec fn view(&self) -> Map<Seq<char>, EntryModel> {
        entries_map(self.buckets@)
    }
}

impl MemoryStorage {
    /// The configuration this backend was built with.
    pub closed spec fn spec_config(&self) -> TokenBucketConfig {
        self.config
    }

    /// The backend's invariant: a valid configuration, one entry per key,
    /// and every bucket within capacity.
    pub closed spec fn wf(&self) -> bool {
        &&& self.config.wf()
        &&& keys_unique(self.buckets@)
        &&& forall|i: int|
            0 <= i < self.buckets@.len() ==> bucket_wf(
                #[trigger] self.buckets@[i].bucket@,
                self.config,
            )
    }

    /// A backend that has seen no keys yet.
    pub fn new(config: &TokenBucketConfig) -> (s: Self)
        requires
            config.wf(),
        ensures
            s.wf(),
            s@ == Map::<Seq<char>, EntryModel>::empty(),
            s.spec_config() == *config,
    {
        let buckets: Vec<BucketEntry> = Vec::new();
        MemoryStorage { config: *config, buckets }
    }

    fn find_index(&self, id: &String) -> (r: Option<usize>)
        ensures
            match r {
                Some(i) => i < self.buckets@.len() && self.buckets@[i as int].key@ == id@,
                None => forall|i: int|
                    0 <= i < self.buckets@.len() ==> #[trigger] self.buckets@[i].key@ != id@,
            },
    {
        let n: usize = self.buckets.len();
        let mut k: usize = 0;
        while k < n
            invariant
                n == self.buckets@.len(),
                k <= n,
                forall|j: int| 0 <= j < k ==> #[trigger] self.buckets@[j].key@ != id@,
            decreases n - k,
        {
            if self.buckets[k].key == *id {
                return Some(k);
            }
            k = k + 1;
        }
        None
    }

    /// Check whether a request under `id` is admitted, with the clock read
    /// as `now_ms`: resolve or create the key's bucket, refill it for the
    /// elapsed time, and try to debit one token.
    pub fn check_at(&mut self, id: &str, now_ms: u64) -> (allowed: bool)
        requires
            old(self).wf(),
        ensures
            final(self).wf(),
            final(self).spec_config() == old(self).spec_config(),
            (final(self)@, allowed) == storage_check(
                old(self)@,
                old(self).spec_config(),
                id@,
                now_ms as int,
            ),
    {
        let ghost s0 = self.buckets@;
        let id_key: String = String::from_str(id);
        let window: u64 = self.config.expiry_window_ms();
        match self.find_index(&id_key) {
            Some(i) => {
                let last_access: u64 = self.buckets[i].last_access_ms;
                let stale: bool = now_ms >= last_access && now_ms - last_access >= window;
                proof {
                    lemma_entries_map_index(s0, i as int);
                    assert(stale == !entry_live(entries_map(s0)[id@], self.config, now_ms as int));
                }
                let mut b: TokenBucket = if stale {
                    TokenBucket::new(&self.config, now_ms)
                } else {
                    self.buckets[i].bucket
                };
                let allowed: bool = b.refill_and_consume(&self.config, now_ms);
                let key2: String = self.buckets[i].key.clone();
                let newe = BucketEntry { key: key2, bucket: b, last_access_ms: now_ms };
                proof {
                    lemma_entries_map_update(s0, i as int, newe);
                }
                self.buckets.set(i, newe);
                allowed
            },
            None => {
                proof {
                    lemma_entries_map_contains(s0, id@);
                }
                let mut b: TokenBucket = TokenBucket::new(&self.config, now_ms);
                let allowed: bool = b.refill_and_consume(&self.config, now_ms);
                let newe = BucketEntry { key: id_key, bucket: b, last_access_ms: now_ms };
                proof {
                    lemma_entries_map_push(s0, newe);
                }
                self.buckets.push(newe);
                allowed
            },
        }
    }

    /// Evict every entry idle for at least the expiry window, keeping the
    /// rest untouched. Dropping an expired entry is invisible to callers
    /// (`lemma_idle_equivalence`): the sweep only bounds memory growth.
    #[verifier::rlimit(50)]
    pub fn sweep(&mut self, now_ms: u64)
        requires
            old(self).wf(),
        ensures
            final(self).wf(),
            final(self).spec_config() == old(self).spec_config(),
            forall|k: Seq<char>| #[trigger]
                final(self)@.contains_key(k) <==> old(self)@.contains_key(k) && entry_live(
                    old(self)@[k],
                    old(self).spec_config(),
                    now_ms as int,
                ),
            forall|k: Seq<char>| #[trigger]
                final(self)@.contains_key(k) ==> final(self)@[k] == old(self)@[k],
    {
        let ghost s0 = self.buckets@;
        let ghost cfg = self.config;
        let window: u64 = self.config.expiry_window_ms();
        let n: usize = self.buckets.len();
        let mut kept: Vec<BucketEntry> = Vec::new();
        let ghost mut to_src: Seq<int> = Seq::empty();
        let ghost mut to_kept: Seq<int> = Seq::empty();
        let mut j: usize = 0;
        while j < n
            invariant
                n == s0.len(),
                self.buckets@ == s0,
                self.config == cfg,
                cfg.wf(),
                window == cfg.spec_expiry_ms(),
                j <= n,
                keys_unique(s0),
                keys_unique(kept@),
                forall|i: int| 0 <= i < s0.len() ==> bucket_wf(#[trigger] s0[i].bucket@, cfg),
                to_src.len() == kept@.len(),
                forall|i: int| #![trigger to_src[i]]
                    0 <= i < kept@.len() ==> 0 <= to_src[i] < j && s0[to_src[i]] == kept@[i]
                        && entry_live(entry_model(kept@[i]), cfg, now_ms as int),
                to_kept.len() == j,
                forall|j0: int| #![trigger to_kept[j0]]
                    0 <= j0 < j && entry_live(entry_model(s0[j0]), cfg, now_ms as int)
                        ==> 0 <= to_kept[j0] < kept@.len() && kept@[to_kept[j0]] == s0[j0],
            decreases n - j,
        {
            let last_access: u64 = self.buckets[j].last_access_ms;
            let stale: bool = now_ms >= last_access && now_ms - last_access >= window;
            proof {
                assert(stale == !entry_live(entry_model(s0[j as int]), cfg, now_ms as int));
            }
            if !stale {
                let e = BucketEntry {
                    key: self.buckets[j].key.clone(),
                    bucket: self.buckets[j].bucket,
                    last_access_ms: last_access,
                };
                proof {
                    assert(e == s0[j as int]);
                    assert forall|i: int| 0 <= i < kept@.len()
                        implies kept@[i].key@ != e.key@ by {
                        let j0 = to_src[i];
                        assert(s0[j0].key@ != s0[j as int].key@);
                    }
                }
                kept.push(e);
                proof {
                    to_src = to_src.push(j as int);
                    to_kept = to_kept.push(kept@.len() - 1);
                    assert(s0[j as int] == kept@[kept@.len() - 1]);
                }
            } else {
                proof {
                    to_kept = to_kept.push(-1);
                }
            }
            j = j + 1;
        }
        proof {
            lemma_swept_entries(s0, kept@, cfg, now_ms as int, to_src, to_kept);
        }
        self.buckets = kept;
    }

    /// Check whether a request under `id` is admitted, reading the wall
    /// clock for the current instant. Some clock reading accounts exactly
    /// for the transition taken.
    pub fn check(&mut self, id: &str) -> (allowed: bool)
        requires
            old(self).wf(),
        ensures
            final(self).wf(),
            final(self).spec_config() == old(self).spec_config(),
            exists|now: int|
                0 <= now && (final(self)@, allowed) == #[trigger] storage_check(
                    old(self)@,
                    old(self).spec_config(),
                    id@,
                    now,
                ),
    {
        let now: u64 = clock::now_ms();
        let allowed: bool = self.check_at(id, now);
        proof {
            assert((self@, allowed) == storage_check(
                old(self)@,
                old(self).spec_config(),
                id@,
                now as int,
            ));
        }
        allowed
    }
}

} // verus!
