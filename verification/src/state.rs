//! The cache's bookkeeping: a mapping from key to a weak handle, plus the
//! single strong keep-alive slot.
//!
//! The mapping is held as a vector of pairs with pairwise-distinct keys and
//! is abstracted by [`State::map_view`], a map from key value to resource
//! identity. A mapping entry never keeps its resource alive by itself: only
//! the keep-alive slot and holders outside the cache do. An entry whose
//! resource has died stays in the mapping until [`State::garbage_collect`]
//! prunes it.

use vstd::prelude::*;
use crate::handle::Config;
use crate::handle::WeakConfig;
use crate::settings::Key;
use crate::settings::key_view;

verus! {

/// The key value of one mapping entry.
spec fn entry_key(e: (Key, WeakConfig)) -> Option<Seq<char>> {
    key_view(e.0)
}

/// The resource identity of one mapping entry.
spec fn entry_id(e: (Key, WeakConfig)) -> int {
    e.1.id()
}

/// No two entries share a key.
spec fn keys_unique(s: Seq<(Key, WeakConfig)>) -> bool {
    forall|i: int, j: int| 0 <= i < j < s.len() ==> entry_key(s[i]) != entry_key(s[j])
}

/// Some entry has this key.
spec fn seq_has_key(s: Seq<(Key, WeakConfig)>, k: Option<Seq<char>>) -> bool {
    exists|i: int| 0 <= i < s.len() && entry_key(s[i]) == k
}

/// The position of the entry with this key, when there is one.
spec fn seq_index_of(s: Seq<(Key, WeakConfig)>, k: Option<Seq<char>>) -> int {
    choose|i: int| 0 <= i < s.len() && entry_key(s[i]) == k
}

/// The mapping the entries represent: key value to resource identity.
spec fn entries_map(s: Seq<(Key, WeakConfig)>) -> Map<Option<Seq<char>>, int> {
    Map::new(|k: Option<Seq<char>>| seq_has_key(s, k), |k: Option<Seq<char>>| entry_id(s[seq_index_of(s, k)]))
}

/// With distinct keys, the entry at position `i` is exactly what the
/// mapping holds for its key.
proof fn lemma_entry_in_map(s: Seq<(Key, WeakConfig)>, i: int)
    requires
        keys_unique(s),
        0 <= i < s.len(),
    ensures
        entries_map(s).contains_key(entry_key(s[i])),
        entries_map(s)[entry_key(s[i])] == entry_id(s[i]),
{
    assert(seq_has_key(s, entry_key(s[i])));
    let j: int = seq_index_of(s, entry_key(s[i]));
    assert(0 <= j < s.len() && entry_key(s[j]) == entry_key(s[i]));
    if i < j {
        assert(false);
    } else if j < i {
        assert(false);
    }
}

/// The mutable cache bookkeeping behind the lock.
pub struct State {
    entries: Vec<(Key, WeakConfig)>,
    latest: Option<Config>,
}

impl State {
    /// The mapping from key value to resource identity.
    pub closed spec fn map_view(&self) -> Map<Option<Seq<char>>, int> {
        entries_map(self.entries@)
    }

    /// The identity of the resource the keep-alive slot holds, if any.
    pub closed spec fn latest_view(&self) -> Option<int> {
        match self.latest {
            Some(c) => Some(c.id()),
            None => None,
        }
    }

    /// Well-formedness: no two mapping entries share a key.
    pub closed spec fn wf(&self) -> bool {
        keys_unique(self.entries@)
    }

    /// How many entries the mapping holds, dead ones included.
    pub closed spec fn num_entries(&self) -> nat {
        self.entries@.len()
    }

    /// An empty state: no entries, nothing kept alive.
    pub fn new() -> (s: State)
        ensures
            s.wf(),
            s.map_view() == Map::<Option<Seq<char>>, int>::empty(),
            s.latest_view() is None,
            s.num_entries() == 0,
    {
        let s = State { entries: Vec::new(), latest: None };
        proof {
            assert(s.map_view() =~= Map::<Option<Seq<char>>, int>::empty());
        }
        s
    }

    /// Looks the key up and tries to upgrade its weak entry. Returns a
    /// handle only to the resource the mapping holds for this key; absent
    /// or dead entries give `None`. Reads only; the keep-alive slot is
    /// untouched.
    pub fn get_config(&self, cert_path: &Key) -> (r: Option<Config>)
        requires
            self.wf(),
        ensures
            r matches Some(c) ==> self.map_view().contains_key(key_view(*cert_path))
                && c.id() == self.map_view()[key_view(*cert_path)],
            !self.map_view().contains_key(key_view(*cert_path)) ==> r is None,
    {
        let n: usize = self.entries.len();
        let mut i: usize = 0;
        while i < n
            invariant
                0 <= i <= n,
                n == self.entries@.len(),
                self.wf(),
                forall|j: int| 0 <= j < i ==> entry_key(self.entries@[j]) != key_view(*cert_path),
            decreases n - i,
        {
            if key_eq(&self.entries[i].0, cert_path) {
                proof {
                    lemma_entry_in_map(self.entries@, i as int);
                }
                return self.entries[i].1.upgrade();
            }
            i = i + 1;
        }
        proof {
            assert(!seq_has_key(self.entries@, key_view(*cert_path)));
        }
        None
    }

    /// Replace the keep-alive slot with this handle. The previous occupant
    /// loses the cache's strong reference, which destroys its resource if
    /// nobody else holds it. The mapping is untouched.
    pub fn keep_alive(&mut self, config: Config)
        ensures
            final(self).map_view() == old(self).map_view(),
            final(self).wf() == old(self).wf(),
            final(self).num_entries() == old(self).num_entries(),
            final(self).latest_view() == Some(config.id()),
    {
        self.latest = Some(config);
    }

    /// Overwrite the mapping entry for this key with a weak handle. The
    /// keep-alive slot is untouched.
    pub fn insert(&mut self, cert_path: &Key, weak: WeakConfig)
        requires
            old(self).wf(),
        ensures
            final(self).wf(),
            final(self).map_view() == old(self).map_view().insert(key_view(*cert_path), weak.id()),
            final(self).latest_view() == old(self).latest_view(),
    {
        let ghost k = key_view(*cert_path);
        let ghost s0 = self.entries@;
        let n: usize = self.entries.len();
        let mut i: usize = 0;
        while i < n
            invariant
                0 <= i <= n,
                n == self.entries@.len(),
                self.entries@ == s0,
                s0 == old(self).entries@,
                self.latest == old(self).latest,
                keys_unique(s0),
                k == key_view(*cert_path),
                forall|j: int| 0 <= j < i ==> entry_key(s0[j]) != k,
            decreases n - i,
        {
            if key_eq(&self.entries[i].0, cert_path) {
                let owned = key_clone(cert_path);
                self.entries[i] = (owned, weak);
                proof {
                    lemma_map_after_update(s0, self.entries@, i as int, k, entry_id(self.entries@[i as int]));
                }
                return;
            }
            i = i + 1;
        }
        let owned = key_clone(cert_path);
        self.entries.push((owned, weak));
        proof {
            lemma_map_after_push(s0, self.entries@, k, entry_id(self.entries@[s0.len() as int]));
        }
    }

    /// Retain only the entries whose resource still has a strong holder at
    /// the instant of the call. Which entries those are depends on what
    /// holders exist outside the cache, so the contract says what holds of
    /// every outcome: no entry is added, no surviving entry is rebound,
    /// and the keep-alive slot is untouched.
    pub fn garbage_collect(&mut self)
        requires
            old(self).wf(),
        ensures
            final(self).wf(),
            forall|k: Option<Seq<char>>| #[trigger] final(self).map_view().contains_key(k)
                ==> old(self).map_view().contains_key(k)
                    && final(self).map_view()[k] == old(self).map_view()[k],
            final(self).latest_view() == old(self).latest_view(),
            final(self).num_entries() <= old(self).num_entries(),
    {
        let ghost s0 = self.entries@;
        let n: usize = self.entries.len();
        let mut kept: Vec<(Key, WeakConfig)> = Vec::new();
        let mut i: usize = 0;
        while i < n
            invariant
                0 <= i <= n,
                n == self.entries@.len(),
                self.entries@ == s0,
                s0 == old(self).entries@,
                self.latest == old(self).latest,
                keys_unique(s0),
                kept@.len() <= i,
                keys_unique(kept@),
                forall|j: int| 0 <= j < kept@.len()
                    ==> #[trigger] seq_has_key(s0, entry_key(kept@[j]))
                        && entries_map(s0)[entry_key(kept@[j])] == entry_id(kept@[j]),
                forall|j: int| 0 <= j < kept@.len()
                    ==> exists|m: int| 0 <= m < i && entry_key(s0[m]) == entry_key(#[trigger] kept@[j]),
            decreases n - i,
        {
            if self.entries[i].1.strong_count() != 0 {
                let ghost kept0 = kept@;
                let entry = (key_clone(&self.entries[i].0), self.entries[i].1.clone());
                proof {
                    lemma_entry_in_map(s0, i as int);
                    assert forall|j: int| 0 <= j < kept0.len()
                        implies entry_key(kept0[j]) != entry_key(s0[i as int]) by {
                        let m: int = choose|m: int| 0 <= m < i && entry_key(s0[m]) == entry_key(kept0[j]);
                        assert(0 <= m < i && entry_key(s0[m]) == entry_key(kept0[j]));
                    }
                }
                kept.push(entry);
            }
            i = i + 1;
        }
        self.entries = kept;
        proof {
            assert forall|k: Option<Seq<char>>| #[trigger] self.map_view().contains_key(k)
                implies entries_map(s0).contains_key(k) && self.map_view()[k] == entries_map(s0)[k] by {
                let j: int = seq_index_of(self.entries@, k);
                assert(0 <= j < self.entries@.len() && entry_key(self.entries@[j]) == k);
                lemma_entry_in_map(self.entries@, j);
            }
        }
    }

    /// Arbitrate a miss with a freshly built handle: if some other fetch
    /// installed an entry for this key in the meantime and its resource is
    /// alive, the fresh handle is discarded in favour of the existing one
    /// and nothing changes; otherwise the fresh resource is installed,
    /// weakly in the mapping and strongly in the keep-alive slot. Either
    /// way the mapping afterwards holds exactly the returned resource for
    /// this key.
    pub fn resolve_miss(&mut self, cert_path: &Key, fresh: Config) -> (r: Config)
        requires
            old(self).wf(),
        ensures
            final(self).wf(),
            resolves(*old(self), *final(self), key_view(*cert_path), fresh.id(), r.id()),
    {
        match self.get_config(cert_path) {
            Some(existing) => existing,
            None => {
                self.keep_alive(fresh.clone());
                self.insert(cert_path, fresh.to_weak());
                fresh
            },
        }
    }

    /// How many entries the mapping holds, dead ones included.
    pub fn entry_count(&self) -> (n: usize)
        ensures
            n == self.num_entries(),
    {
        self.entries.len()
    }
}

/// What a fetch's write-locked arbitration step does to the state: the key
/// afterwards maps to the returned resource, which is either the one an
/// earlier fetch installed (the fresh one is discarded) or the fresh one.
pub open spec fn resolves(pre: State, post: State, k: Option<Seq<char>>, fresh_id: int, r_id: int) -> bool {
    &&& post.map_view().contains_key(k)
    &&& post.map_view()[k] == r_id
    &&& reused(pre, post, k, r_id) || installed(pre, post, k, fresh_id, r_id)
}

/// The arbitration found a live entry: nothing changes and the caller gets
/// the resource the mapping already held.
pub open spec fn reused(pre: State, post: State, k: Option<Seq<char>>, r_id: int) -> bool {
    &&& post == pre
    &&& pre.map_view().contains_key(k)
    &&& r_id == pre.map_view()[k]
}

/// The arbitration installed the fresh resource: the key is bound to it in
/// the mapping and the keep-alive slot now holds it, displacing the
/// previous occupant.
pub open spec fn installed(pre: State, post: State, k: Option<Seq<char>>, fresh_id: int, r_id: int) -> bool {
    &&& r_id == fresh_id
    &&& post.map_view() == pre.map_view().insert(k, fresh_id)
    &&& post.latest_view() == Some(fresh_id)
}

/// Sharing: once a fetch for key `k` has left the state, any lookup that
/// finds the mapping holding a live entry for `k` hands back the very
/// resource that fetch returned — the resource is shared, not rebuilt.
pub proof fn lemma_sharing(
    pre: State,
    post: State,
    k: Option<Seq<char>>,
    fresh_id: int,
    first_id: int,
    second_id: int,
)
    requires
        resolves(pre, post, k, fresh_id, first_id),
        post.map_view().contains_key(k),
        second_id == post.map_view()[k],
    ensures
        second_id == first_id,
{
}

/// Race convergence: when two arbitrations for the same key run in either
/// order, the state afterwards exposes exactly one resource for the key —
/// the later call's result — and if the later call found the earlier
/// call's entry still live, both callers hold the same resource and the
/// later fresh construction was discarded.
pub proof fn lemma_race_convergence(
    s0: State,
    s1: State,
    s2: State,
    k: Option<Seq<char>>,
    fresh1: int,
    fresh2: int,
    r1: int,
    r2: int,
)
    requires
        resolves(s0, s1, k, fresh1, r1),
        resolves(s1, s2, k, fresh2, r2),
    ensures
        s2.map_view().contains_key(k),
        s2.map_view()[k] == r2,
        reused(s1, s2, k, r2) ==> r2 == r1,
{
}

/// Recency keep-alive: after an installing fetch for `k1` and then one
/// for a different key `k2`, the single keep-alive slot holds the second
/// resource alone — the first key stays mapped, but the cache itself no
/// longer holds its resource strongly.
pub proof fn lemma_recency_keep_alive(
    s0: State,
    s1: State,
    s2: State,
    k1: Option<Seq<char>>,
    k2: Option<Seq<char>>,
    r1: int,
    r2: int,
)
    requires
        installed(s0, s1, k1, r1, r1),
        installed(s1, s2, k2, r2, r2),
        k1 != k2,
        r1 != r2,
    ensures
        s2.latest_view() == Some(r2),
        s2.latest_view() != Some(r1),
        s2.map_view().contains_key(k1) && s2.map_view()[k1] == r1,
        s2.map_view().contains_key(k2) && s2.map_view()[k2] == r2,
{
}

/// Updating the entry at the position of key `k` rebinds exactly `k`.
proof fn lemma_map_after_update(s0: Seq<(Key, WeakConfig)>, s1: Seq<(Key, WeakConfig)>, i: int, k: Option<Seq<char>>, id: int)
    requires
        keys_unique(s0),
        0 <= i < s0.len(),
        entry_key(s0[i]) == k,
        s1 == s0.update(i, s1[i]),
        s1.len() == s0.len(),
        entry_key(s1[i]) == k,
        entry_id(s1[i]) == id,
    ensures
        keys_unique(s1),
        entries_map(s1) == entries_map(s0).insert(k, id),
{
    assert forall|a: int, b: int| 0 <= a < b < s1.len() implies entry_key(s1[a]) != entry_key(s1[b]) by {
        assert(entry_key(s1[a]) == entry_key(s0[a]) || a == i);
        assert(entry_key(s1[b]) == entry_key(s0[b]) || b == i);
    }
    assert forall|q: Option<Seq<char>>| true implies
        (entries_map(s1).contains_key(q) <==> entries_map(s0).insert(k, id).contains_key(q)) by {
        if seq_has_key(s0, q) {
            let m: int = seq_index_of(s0, q);
            assert(0 <= m < s0.len() && entry_key(s0[m]) == q);
            assert(entry_key(s1[m]) == q || m == i);
            if m == i {
                assert(q == k);
            } else {
                assert(seq_has_key(s1, q));
            }
        }
        if seq_has_key(s1, q) {
            let m: int = seq_index_of(s1, q);
            assert(0 <= m < s1.len() && entry_key(s1[m]) == q);
            assert(entry_key(s0[m]) == q || m == i);
        }
    }
    assert forall|q: Option<Seq<char>>| entries_map(s1).contains_key(q) implies
        entries_map(s1)[q] == entries_map(s0).insert(k, id)[q] by {
        let m: int = seq_index_of(s1, q);
        assert(0 <= m < s1.len() && entry_key(s1[m]) == q);
        lemma_entry_in_map(s1, m);
        if q == k {
            if m != i {
                assert(entry_key(s1[i]) == k);
                assert(false);
            }
        } else {
            assert(m != i);
            assert(s1[m] == s0[m]);
            lemma_entry_in_map(s0, m);
        }
    }
    assert(entries_map(s1) =~= entries_map(s0).insert(k, id));
}

/// Appending an entry with a key nothing holds yet binds exactly that key.
proof fn lemma_map_after_push(s0: Seq<(Key, WeakConfig)>, s1: Seq<(Key, WeakConfig)>, k: Option<Seq<char>>, id: int)
    requires
        keys_unique(s0),
        !seq_has_key(s0, k),
        s1 == s0.push(s1[s0.len() as int]),
        entry_key(s1[s0.len() as int]) == k,
        entry_id(s1[s0.len() as int]) == id,
    ensures
        keys_unique(s1),
        entries_map(s1) == entries_map(s0).insert(k, id),
{
    assert(s1.len() == s0.len() + 1);
    assert forall|a: int, b: int| 0 <= a < b < s1.len() implies entry_key(s1[a]) != entry_key(s1[b]) by {
        if b == s0.len() {
            assert(entry_key(s1[a]) == entry_key(s0[a]));
            if entry_key(s0[a]) == k {
                assert(seq_has_key(s0, k));
            }
        } else {
            assert(entry_key(s1[a]) == entry_key(s0[a]));
            assert(entry_key(s1[b]) == entry_key(s0[b]));
        }
    }
    assert forall|q: Option<Seq<char>>| true implies
        (entries_map(s1).contains_key(q) <==> entries_map(s0).insert(k, id).contains_key(q)) by {
        if seq_has_key(s0, q) {
            let m: int = seq_index_of(s0, q);
            assert(0 <= m < s0.len() && entry_key(s0[m]) == q);
            assert(entry_key(s1[m]) == q);
        }
        if seq_has_key(s1, q) && q != k {
            let m: int = seq_index_of(s1, q);
            assert(0 <= m < s1.len() && entry_key(s1[m]) == q);
            assert(m != s0.len());
            assert(entry_key(s0[m]) == q);
        }
        assert(entry_key(s1[s0.len() as int]) == k);
        assert(seq_has_key(s1, k));
    }
    assert forall|q: Option<Seq<char>>| entries_map(s1).contains_key(q) implies
        entries_map(s1)[q] == entries_map(s0).insert(k, id)[q] by {
        let m: int = seq_index_of(s1, q);
        assert(0 <= m < s1.len() && entry_key(s1[m]) == q);
        lemma_entry_in_map(s1, m);
        if q == k {
            if m != s0.len() {
                assert(entry_key(s0[m]) == k);
                assert(seq_has_key(s0, k));
            }
        } else {
            assert(m != s0.len());
            assert(s1[m] == s0[m]);
            lemma_entry_in_map(s0, m);
        }
    }
    assert(entries_map(s1) =~= entries_map(s0).insert(k, id));
}

/// Compares two keys by value.
fn key_eq(a: &Key, b: &Key) -> (r: bool)
    ensures
        r == (key_view(*a) == key_view(*b)),
{
    match (a, b) {
        (Some(x), Some(y)) => *x == *y,
        (None, None) => true,
        _ => false,
    }
}

/// Copies a key by value.
fn key_clone(k: &Key) -> (r: Key)
    ensures
        key_view(r) == key_view(*k),
{
    match k {
        Some(s) => Some(s.clone()),
        None => None,
    }
}

} // verus!
