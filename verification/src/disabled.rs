//! The no-op tier: always reports a miss, discards saves.
//!
//! It lets pipeline-assembly code remain uniform even when caching is
//! turned off, and serves as a safe terminal node at the end of a chain:
//! every chain through it ends in either a real hit or a well-defined miss.

use vstd::prelude::*;

use crate::and_then::AndThen;
use crate::types::{CacheError, Engine, Module, ModuleCache, ModuleView};

verus! {

/// A cache tier that stores nothing and never fails.
#[derive(Debug)]
pub struct Disabled;

impl Disabled {
    /// Chain a second cache onto this one.
    ///
    /// The general assumption is that each subsequent cache in the chain
    /// will be significantly slower than the previous one.
    pub fn and_then<C: ModuleCache>(self, other: C) -> (r: AndThen<Disabled, C>)
        ensures
            r.primary == self,
            r.secondary == other,
    {
        AndThen::new(self, other)
    }
}

impl ModuleCache for Disabled {
    open spec fn wf(&self) -> bool {
        true
    }

    open spec fn contents(&self) -> Map<Seq<char>, ModuleView> {
        Map::empty()
    }

    open spec fn visible(&self, key: Seq<char>, engine: Engine) -> Option<ModuleView> {
        None
    }

    open spec fn keeps(&self) -> bool {
        false
    }

    open spec fn infallible(&self) -> bool {
        true
    }

    proof fn lemma_transient_is_empty(&self) {
    }

    proof fn lemma_empty_misses(&self, key: Seq<char>, engine: Engine) {
    }

    /// Unconditionally reports a miss.
    fn load(&mut self, key: &str, engine: &Engine) -> (r: Result<Module, CacheError>)
        ensures
            r matches Err(e) && e is NotFound,
    {
        proof {
            assert(self.contents().remove(key@) =~= old(self).contents().remove(key@));
        }
        Err(CacheError::NotFound)
    }

    /// Unconditionally succeeds, discarding the module.
    fn save(&mut self, key: &str, module: &Module) -> (r: Result<(), CacheError>)
        ensures
            r is Ok,
    {
        proof {
            assert(self.contents().remove(key@) =~= old(self).contents().remove(key@));
        }
        Ok(())
    }
}

} // verus!
