//! The public cache: a cheaply clonable handle to shared, lock-protected
//! bookkeeping, with the fetch and garbage-collection protocol.
//!
//! The bookkeeping sits behind a reader-writer lock whose invariant the
//! verifier enforces at every acquire and release: the mapping's keys are
//! pairwise distinct and every cached key is one that construction
//! accepts. A fetch probes under a read lock, constructs with no lock
//! held, and arbitrates under a short write lock, so one caller's
//! expensive construction never blocks another's.

use vstd::prelude::*;
use vstd::rwlock::RwLock;
use vstd::rwlock::RwLockPredicate;
use std::sync::Arc;
use crate::handle::Config;
use crate::settings::ConstructionError;
use crate::settings::Key;
use crate::settings::key_ok;
use crate::settings::key_view;
use crate::state::State;
use crate::state::installed;
use crate::state::resolves;
use crate::state::reused;

verus! {

/// Every key the mapping holds is one that construction accepts; no other
/// key can ever have been installed.
pub open spec fn all_keys_ok(m: Map<Option<Seq<char>>, int>) -> bool {
    forall|k: Option<Seq<char>>| #[trigger] m.contains_key(k) ==> key_ok(k)
}

/// What the cache's lock protects at all times.
pub struct CachePred;

impl RwLockPredicate<State> for CachePred {
    open spec fn inv(self, v: State) -> bool {
        &&& v.wf()
        &&& all_keys_ok(v.map_view())
    }
}

/// Cache of configuration objects.
///
/// Cloning this cache will create another handle to the same cache.
///
/// Loading a configuration through this caching layer will only keep the
/// latest one loaded alive directly, but will still act as a cache for any
/// configurations still in use - if the returned [`Config`] is still live,
/// queries to `Cache` will not reconstruct it.
pub struct Cache {
    state: Arc<RwLock<State, CachePred>>,
}

impl Cache {
    #[verifier::type_invariant]
    spec fn well_formed(self) -> bool {
        self.state.pred() == (CachePred {  })
    }

    /// Two handles observing and mutating the very same underlying state.
    pub closed spec fn shares_state_with(&self, other: &Cache) -> bool {
        self.state == other.state
    }

    /// Creates a fresh empty cache.
    pub fn new() -> Cache {
        let s = State::new();
        Cache { state: Arc::new(RwLock::new(s, Ghost(CachePred {  }))) }
    }

    /// Behaves as [`Config::from_cert_path`], but with a cache. If any
    /// handle previously given out by this cache is still live, a
    /// duplicate will not be made. Succeeds exactly on the keys
    /// construction accepts; on failure the error is handed through and
    /// the state is left as it was.
    pub fn from_cert_path(&self, cert_path: &Key) -> (r: Result<Config, ConstructionError>)
        ensures
            r is Ok <==> key_ok(key_view(*cert_path)),
    {
        proof {
            use_type_invariant(self);
        }
        // Fast path - read-only access to state retrieves the handle, so
        // concurrent hits proceed together and never wait on construction.
        let read_handle = self.state.acquire_read();
        let hit = read_handle.borrow().get_config(cert_path);
        read_handle.release_read();
        if let Some(config) = hit {
            return Ok(config);
        }

        // Unlocked, construct the resource. If two fetches race to load
        // the same key, the next step arbitrates; this step makes sure a
        // new key being loaded doesn't block other loads.
        let path: Option<&str> = match cert_path {
            Some(s) => Some(s.as_str()),
            None => None,
        };
        let fresh = match Config::from_cert_path(path) {
            Ok(c) => c,
            Err(e) => {
                return Err(e);
            },
        };

        // Exclusive access: if someone else installed an entry for this
        // key in the meantime, ours is discarded in favour of theirs,
        // which results in less total memory used.
        let (mut st, write_handle) = self.state.acquire_write();
        let ghost pre = st;
        let out = st.resolve_miss(cert_path, fresh);
        proof {
            if !reused(pre, st, key_view(*cert_path), out.id()) {
                assert(installed(pre, st, key_view(*cert_path), fresh.id(), out.id()));
                assert forall|k: Option<Seq<char>>| #[trigger] st.map_view().contains_key(k)
                    implies key_ok(k) by {
                    if k != key_view(*cert_path) {
                        assert(pre.map_view().contains_key(k));
                    }
                }
            }
        }
        write_handle.release_write(st);
        Ok(out)
    }

    /// Purges every mapping entry whose resource no longer has a strong
    /// holder. The pruning itself is specified on
    /// [`State::garbage_collect`]; the state it acts on is shared, so
    /// nothing can be promised here about what a concurrent caller sees.
    /// Something external must decide when to call this; the cache has no
    /// timer of its own.
    pub fn garbage_collect(&self) {
        proof {
            use_type_invariant(self);
        }
        let (mut st, write_handle) = self.state.acquire_write();
        let ghost pre = st;
        st.garbage_collect();
        proof {
            assert forall|k: Option<Seq<char>>| #[trigger] st.map_view().contains_key(k)
                implies key_ok(k) by {
                assert(pre.map_view().contains_key(k));
            }
        }
        write_handle.release_write(st);
    }

    /// How many entries the mapping currently holds, dead ones included.
    pub fn entry_count(&self) -> usize {
        proof {
            use_type_invariant(self);
        }
        let read_handle = self.state.acquire_read();
        let n: usize = read_handle.borrow().entry_count();
        read_handle.release_read();
        n
    }
}

impl Clone for Cache {
    /// The clone is another handle to the same underlying state, not a
    /// copy of the cache.
    fn clone(&self) -> (r: Self)
        ensures
            r.shares_state_with(self),
    {
        proof {
            use_type_invariant(self);
        }
        Cache { state: share_state(&self.state) }
    }
}

/// Relies on `Arc::clone`: the clone is a second handle to the very same
/// lock-protected state.
#[verifier::external_body]
fn share_state(state: &Arc<RwLock<State, CachePred>>) -> (r: Arc<RwLock<State, CachePred>>)
    ensures
        r == *state,
{
    Arc::clone(state)
}

} // verus!
