//! The thread-local tier: an in-memory map meant to be owned by a single
//! worker thread (each thread builds its own; there is no cross-thread
//! visibility).  Loads are plain lookups with no lock contention; saves
//! insert or overwrite.  No eviction: the map grows for the thread's
//! lifetime, an accepted tradeoff for the small working set one thread
//! recompiles.

use vstd::prelude::*;

use crate::and_then::AndThen;
use crate::store::Store;
use crate::types::{CacheError, Engine, Module, ModuleCache, ModuleView};

verus! {

/// Per-thread in-memory cache tier; the fastest and least durable.
#[derive(Debug)]
pub struct ThreadLocalCache {
    store: Store,
}

impl ThreadLocalCache {
    pub fn new() -> (r: ThreadLocalCache)
        ensures
            r.wf(),
            r.contents() == Map::<Seq<char>, ModuleView>::empty(),
    {
        ThreadLocalCache { store: Store::new() }
    }

    /// Chain a second cache onto this one.
    ///
    /// The general assumption is that each subsequent cache in the chain
    /// will be significantly slower than the previous one.
    pub fn and_then<C: ModuleCache>(self, other: C) -> (r: AndThen<ThreadLocalCache, C>)
        ensures
            r.primary == self,
            r.secondary == other,
    {
        AndThen::new(self, other)
    }

    /// What a load of this tier can hit is exactly what it holds, for
    /// every engine alike: a memory tier performs no compatibility
    /// re-check, so an entry recorded by a save or a backfill is served to
    /// any later load of its key.
    pub proof fn lemma_visible_is_contents(&self, key: Seq<char>, engine: Engine)
        ensures
            self.contents().dom().contains(key) ==> self.visible(key, engine) == Some(
                self.contents()[key],
            ),
            !self.contents().dom().contains(key) ==> self.visible(key, engine) is None,
    {
    }
}

impl Default for ThreadLocalCache {
    fn default() -> (r: ThreadLocalCache)
        ensures
            r.wf(),
            r.contents() == Map::<Seq<char>, ModuleView>::empty(),
    {
        ThreadLocalCache::new()
    }
}

impl ModuleCache for ThreadLocalCache {
    open spec fn wf(&self) -> bool {
        true
    }

    closed spec fn contents(&self) -> Map<Seq<char>, ModuleView> {
        self.store@
    }

    /// A memory tier does not re-check engine compatibility: entries were
    /// already validated when inserted, transitively, via backfill from a
    /// validating tier.
    closed spec fn visible(&self, key: Seq<char>, engine: Engine) -> Option<ModuleView> {
        if self.store@.dom().contains(key) {
            Some(self.store@[key])
        } else {
            None
        }
    }

    open spec fn keeps(&self) -> bool {
        true
    }

    open spec fn infallible(&self) -> bool {
        true
    }

    proof fn lemma_transient_is_empty(&self) {
    }

    proof fn lemma_empty_misses(&self, key: Seq<char>, engine: Engine) {
    }

    fn load(&mut self, key: &str, engine: &Engine) -> (r: Result<Module, CacheError>)
        ensures
            r matches Err(e) ==> e is NotFound,
    {
        proof {
            assert(self.contents().remove(key@) =~= old(self).contents().remove(key@));
        }
        match self.store.get(key) {
            Some(m) => Ok(m.duplicate()),
            None => Err(CacheError::NotFound),
        }
    }

    fn save(&mut self, key: &str, module: &Module) -> (r: Result<(), CacheError>)
        ensures
            r is Ok,
    {
        self.store.put(key, module.duplicate());
        proof {
            assert(self.contents().remove(key@) =~= old(self).contents().remove(key@));
        }
        Ok(())
    }
}

} // verus!
