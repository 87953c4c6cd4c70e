//! A layered cache for compiled bytecode modules.
//!
//! Compiling a guest bytecode module into a runnable form is expensive; this
//! crate lets a runtime skip recompilation by storing compiled artifacts in a
//! chain of cache tiers, consulted fastest-first, with backfill on a hit in a
//! slower tier and eager fan-out on an explicit save.

use vstd::prelude::*;

mod and_then;
mod disabled;
mod laws;
mod on_disk;
mod prestat;
mod shared;
mod store;
mod thread_local;
mod types;

pub use and_then::AndThen;
pub use disabled::Disabled;
pub use laws::{lemma_disabled_is_inert, lemma_fresh_chain_misses, lemma_round_trip};
pub use on_disk::{artifact_bytes, decode_artifact, decoded, encode_artifact, file_name_bytes,
    file_name_for_key, lemma_artifact_round_trip, lemma_file_name_injective, read_outcome,
    DiskRead};
pub use prestat::{fd_prestat_dir_name, Errno, InodeKind};
pub use shared::SharedCache;
pub use thread_local::ThreadLocalCache;
pub use types::{compatible, load_conforms, outcome_of, CacheError, ContentsView, Engine, KeyView,
    LoadOutcome, Module, ModuleCache, ModuleView};

verus! {

broadcast use vstd::map_lib::group_map_union;

/// Builds the recommended cache chain: thread-local, then process-shared,
/// then the given durable tier (typically an on-disk store assembled by the
/// surrounding runtime, which owns the actual file access).
///
/// The ordering reflects increasing durability and decreasing speed.  The
/// durable tier is installed unchanged as the chain's last resort; both
/// memory tiers start empty, so the assembled chain retains saves, fails
/// only where the durable tier can fail, and initially shows exactly what
/// the durable tier shows.
pub fn default_cache<D: ModuleCache>(durable: D) -> (r: AndThen<
    AndThen<ThreadLocalCache, SharedCache>,
    D,
>)
    requires
        durable.wf(),
    ensures
        r.wf(),
        r.secondary == durable,
        r.primary.primary.contents() == Map::<Seq<char>, ModuleView>::empty(),
        r.primary.secondary.contents() == Map::<Seq<char>, ModuleView>::empty(),
        r.keeps(),
        r.infallible() == durable.infallible(),
        r.contents() == durable.contents(),
        forall|k: Seq<char>, e: Engine| r.visible(k, e) == durable.visible(k, e),
{
    let r = ThreadLocalCache::default().and_then(SharedCache::default()).and_then(durable);
    proof {
        let ghost inner = r.primary;
        assert forall|k: Seq<char>| !inner.contents().dom().contains(k) by {
            assert(inner.contents().dom().contains(k) == (inner.secondary.contents().dom()
                .contains(k) || inner.primary.contents().dom().contains(k)));
        }
        assert forall|k: Seq<char>|
            r.contents().dom().contains(k) == durable.contents().dom().contains(k) by {
            assert(r.contents().dom().contains(k) == (durable.contents().dom().contains(k)
                || inner.contents().dom().contains(k)));
        }
        assert forall|k: Seq<char>| durable.contents().dom().contains(k) implies r.contents()[k]
            == durable.contents()[k] by {
            assert(!inner.contents().dom().contains(k));
        }
        assert(r.contents() =~= durable.contents());
        assert forall|k: Seq<char>, e: Engine| r.visible(k, e) == durable.visible(k, e) by {
            assert(inner.primary.contents() =~= Map::<Seq<char>, ModuleView>::empty());
            assert(inner.secondary.contents() =~= Map::<Seq<char>, ModuleView>::empty());
            inner.primary.lemma_empty_misses(k, e);
            inner.secondary.lemma_empty_misses(k, e);
        }
    }
    r
}

} // verus!
