//! The process-shared tier: an in-memory map meant to be visible to every
//! thread in the process, durable for the process lifetime.  The assembling
//! runtime shares it behind a lock (or another exclusive handle); exclusive
//! access serializes operations on the same key, and a load is a lookup
//! with no engine-compatibility re-check (entries were validated when
//! inserted, transitively, via backfill from a validating tier).  No
//! eviction: growth is unbounded by design.

use vstd::prelude::*;

use crate::and_then::AndThen;
use crate::store::Store;
use crate::types::{CacheError, Engine, Module, ModuleCache, ModuleView};

verus! {

/// Process-wide in-memory cache tier; slower to reach than the
/// thread-local tier (it is shared), faster than durable storage.
#[derive(Debug)]
pub struct SharedCache {
    store: Store,
}

impl SharedCache {
    pub fn new() -> (r: SharedCache)
        ensures
            r.wf(),
            r.contents() == Map::<Seq<char>, ModuleView>::empty(),
    {
        SharedCache { store: Store::new() }
    }

    /// Chain a second cache onto this one.
    ///
    /// The general assumption is that each subsequent cache in the chain
    /// will be significantly slower than the previous one.
    pub fn and_then<C: ModuleCache>(self, other: C) -> (r: AndThen<SharedCache, C>)
        ensures
            r.primary == self,
            r.secondary == other,
    {
        AndThen::new(self, other)
    }

    /// What a load of this tier can hit is exactly what it holds, for
    /// every engine alike: a memory tier performs no compatibility
    /// re-check, so an entry recorded by a save or a backfill is served to
    /// any later load of its key.
    pub proof fn lemma_visible_is_contents(&self, key: Seq<char>, engine: Engine)
        ensures
            self.contents().dom().contains(key) ==> self.visible(key, engine) == Some(
                self.contents()[key],
            ),
            !self.contents().dom().contains(key) ==> self.visible(key, engine) is None,
    {
    }
}

impl Default for SharedCache {
    fn default() -> (r: SharedCache)
        ensures
            r.wf(),
            r.contents() == Map::<Seq<char>, ModuleView>::empty(),
    {
        SharedCache::new()
    }
}

impl ModuleCache for SharedCache {
    open spec fn wf(&self) -> bool {
        true
    }

    closed spec fn contents(&self) -> Map<Seq<char>, ModuleView> {
        self.store@
    }

    closed spec fn visible(&self, key: Seq<char>, engine: Engine) -> Option<ModuleView> {
        if self.store@.dom().contains(key) {
            Some(self.store@[key])
        } else {
            None
        }
    }

    open spec fn keeps(&self) -> bool {
        true
    }

    open spec fn infallible(&self) -> bool {
        true
    }

    proof fn lemma_transient_is_empty(&self) {
    }

    proof fn lemma_empty_misses(&self, key: Seq<char>, engine: Engine) {
    }

    fn load(&mut self, key: &str, engine: &Engine) -> (r: Result<Module, CacheError>)
        ensures
            r matches Err(e) ==> e is NotFound,
    {
        proof {
            assert(self.contents().remove(key@) =~= old(self).contents().remove(key@));
        }
        match self.store.get(key) {
            Some(m) => Ok(m.duplicate()),
            None => Err(CacheError::NotFound),
        }
    }

    fn save(&mut self, key: &str, module: &Module) -> (r: Result<(), CacheError>)
        ensures
            r is Ok,
    {
        self.store.put(key, module.duplicate());
        proof {
            assert(self.contents().remove(key@) =~= old(self).contents().remove(key@));
        }
        Ok(())
    }
}

} // verus!
