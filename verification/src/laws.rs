//! Library-level laws, stated over the specification interface that the
//! tiers' own contracts use.  Each lemma takes the facts the relevant
//! contracts establish and pins down the only outcome they permit.

use vstd::prelude::*;

use crate::and_then::AndThen;
use crate::disabled::Disabled;
use crate::types::{compatible, load_conforms, Engine, LoadOutcome, ModuleCache, ModuleView};

verus! {

/// Round trip: on a tier that cannot fail, a cache state in which a
/// successful `save` has just made module `m` visible under key `k` (which
/// `save`'s postcondition guarantees on every retaining tier, for every
/// engine compatible with `m`) answers a conforming `load` of `k` by a
/// compatible engine with exactly `m`: a miss is impossible.
pub proof fn lemma_round_trip<C: ModuleCache>(
    c: C,
    k: Seq<char>,
    m: ModuleView,
    e: Engine,
    outcome: LoadOutcome,
)
    requires
        c.infallible(),
        compatible(m, e),
        c.visible(k, e) == Some(m),
        load_conforms(c, k, e, outcome),
    ensures
        outcome == LoadOutcome::Hit(m),
{
    match outcome {
        LoadOutcome::Hit(m2) => {
            assert(Some(m2) == Some(m));
        },
        LoadOutcome::Miss => {
            assert(false);
        },
        LoadOutcome::Failed => {
            assert(false);
        },
    }
}

/// The disabled tier is inert: nothing is ever visible in it and it never
/// fails, so a conforming load can only report a miss, whatever was saved
/// before and whichever engine asks.
pub proof fn lemma_disabled_is_inert(d: Disabled, k: Seq<char>, e: Engine, outcome: LoadOutcome)
    requires
        load_conforms(d, k, e, outcome),
    ensures
        outcome is Miss,
{
}

/// Miss propagation: a fresh chain, whose tiers hold no entries and cannot
/// fail, answers a conforming load of any key on behalf of any engine with
/// a miss.
pub proof fn lemma_fresh_chain_misses<P: ModuleCache, S: ModuleCache>(
    c: AndThen<P, S>,
    k: Seq<char>,
    e: Engine,
    outcome: LoadOutcome,
)
    requires
        c.wf(),
        c.primary.infallible(),
        c.secondary.infallible(),
        c.primary.contents() == Map::<Seq<char>, ModuleView>::empty(),
        c.secondary.contents() == Map::<Seq<char>, ModuleView>::empty(),
        load_conforms(c, k, e, outcome),
    ensures
        outcome is Miss,
{
    c.primary.lemma_empty_misses(k, e);
    c.secondary.lemma_empty_misses(k, e);
}

} // verus!
