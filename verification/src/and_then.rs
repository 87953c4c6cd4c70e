//! The chain combinator: composes a primary and a secondary tier into one
//! tier satisfying the same contract, giving an ordered fallback pipeline
//! with backfill-on-hit and eager fan-out on save.
//!
//! Chains nest arbitrarily deep: a three-tier pipeline is built as
//! `(a.and_then(b)).and_then(c)`.

use vstd::prelude::*;

use crate::types::{compatible, CacheError, Engine, Module, ModuleCache, ModuleView};

verus! {

broadcast use vstd::map_lib::group_map_union;

/// A pair of tiers consulted in order: `primary` first (faster), then
/// `secondary` (slower, usually more durable).
#[derive(Debug)]
pub struct AndThen<P, S> {
    pub primary: P,
    pub secondary: S,
}

impl<P: ModuleCache, S: ModuleCache> AndThen<P, S> {
    pub fn new(primary: P, secondary: S) -> (r: AndThen<P, S>)
        ensures
            r.primary == primary,
            r.secondary == secondary,
    {
        AndThen { primary, secondary }
    }

    /// Chain a second cache onto this one.
    ///
    /// The general assumption is that each subsequent cache in the chain
    /// will be significantly slower than the previous one.
    pub fn and_then<C: ModuleCache>(self, other: C) -> (r: AndThen<AndThen<P, S>, C>)
        ensures
            r.primary == self,
            r.secondary == other,
    {
        AndThen::new(self, other)
    }
}

/// Inserting on the secondary side is invisible in the union when the
/// primary shadows the key.
proof fn lemma_union_insert_left_covered(
    s: Map<Seq<char>, ModuleView>,
    p: Map<Seq<char>, ModuleView>,
    k: Seq<char>,
    m: ModuleView,
)
    requires
        p.dom().contains(k),
    ensures
        s.insert(k, m).union_prefer_right(p) == s.union_prefer_right(p),
{
    let u2 = s.insert(k, m).union_prefer_right(p);
    let u1 = s.union_prefer_right(p);
    assert forall|k2: Seq<char>| u2.dom().contains(k2) == u1.dom().contains(k2) by {
        assert(u2.dom().contains(k2) == (s.insert(k, m).dom().contains(k2) || p.dom().contains(
            k2,
        )));
        assert(u1.dom().contains(k2) == (s.dom().contains(k2) || p.dom().contains(k2)));
    }
    assert forall|k2: Seq<char>| u1.dom().contains(k2) implies u2[k2] == u1[k2] by {
        if p.dom().contains(k2) {
            assert(u2[k2] == p[k2]);
            assert(u1[k2] == p[k2]);
        } else {
            assert(k2 != k);
            assert(u2[k2] == s.insert(k, m)[k2]);
            assert(u1[k2] == s[k2]);
        }
    }
    assert(u2 =~= u1);
}

/// The union changes at most at the key both sides changed at most at.
proof fn lemma_union_remove_frame(
    s1: Map<Seq<char>, ModuleView>,
    p1: Map<Seq<char>, ModuleView>,
    s2: Map<Seq<char>, ModuleView>,
    p2: Map<Seq<char>, ModuleView>,
    k: Seq<char>,
)
    requires
        p2.remove(k) == p1.remove(k),
        s2.remove(k) == s1.remove(k),
    ensures
        s2.union_prefer_right(p2).remove(k) == s1.union_prefer_right(p1).remove(k),
{
    let u2 = s2.union_prefer_right(p2);
    let u1 = s1.union_prefer_right(p1);
    assert forall|k2: Seq<char>|
        u2.remove(k).dom().contains(k2) == u1.remove(k).dom().contains(k2) by {
        assert(u2.remove(k).dom().contains(k2) == (u2.dom().contains(k2) && k2 != k));
        assert(u1.remove(k).dom().contains(k2) == (u1.dom().contains(k2) && k2 != k));
        if k2 != k {
            assert(p2.remove(k).dom().contains(k2) == p1.remove(k).dom().contains(k2));
            assert(p2.remove(k).dom().contains(k2) == p2.dom().contains(k2));
            assert(p1.remove(k).dom().contains(k2) == p1.dom().contains(k2));
            assert(s2.remove(k).dom().contains(k2) == s1.remove(k).dom().contains(k2));
            assert(s2.remove(k).dom().contains(k2) == s2.dom().contains(k2));
            assert(s1.remove(k).dom().contains(k2) == s1.dom().contains(k2));
            assert(u2.dom().contains(k2) == (s2.dom().contains(k2) || p2.dom().contains(k2)));
            assert(u1.dom().contains(k2) == (s1.dom().contains(k2) || p1.dom().contains(k2)));
        }
    }
    assert forall|k2: Seq<char>| u1.remove(k).dom().contains(k2) implies u2.remove(k)[k2]
        == u1.remove(k)[k2] by {
        assert(k2 != k);
        assert(u2.remove(k)[k2] == u2[k2]);
        assert(u1.remove(k)[k2] == u1[k2]);
        assert(p2.remove(k).dom().contains(k2) == p1.remove(k).dom().contains(k2));
        assert(p2.remove(k).dom().contains(k2) == p2.dom().contains(k2));
        assert(p1.remove(k).dom().contains(k2) == p1.dom().contains(k2));
        assert(s2.remove(k).dom().contains(k2) == s1.remove(k).dom().contains(k2));
        assert(s2.remove(k).dom().contains(k2) == s2.dom().contains(k2));
        assert(s1.remove(k).dom().contains(k2) == s1.dom().contains(k2));
        if p1.dom().contains(k2) {
            assert(p2.remove(k)[k2] == p1.remove(k)[k2]);
            assert(p2.remove(k)[k2] == p2[k2]);
            assert(p1.remove(k)[k2] == p1[k2]);
            assert(u2[k2] == p2[k2]);
            assert(u1[k2] == p1[k2]);
        } else {
            assert(s1.dom().contains(k2));
            assert(s2.remove(k)[k2] == s1.remove(k)[k2]);
            assert(s2.remove(k)[k2] == s2[k2]);
            assert(s1.remove(k)[k2] == s1[k2]);
            assert(u2[k2] == s2[k2]);
            assert(u1[k2] == s1[k2]);
        }
    }
    assert(u2.remove(k) =~= u1.remove(k));
}

/// Once the preferred (primary) side holds the module under the key and
/// the secondary side changed at most there, the union holds exactly the
/// old union plus that entry.
proof fn lemma_union_after_insert_right(
    s1: Map<Seq<char>, ModuleView>,
    p1: Map<Seq<char>, ModuleView>,
    s2: Map<Seq<char>, ModuleView>,
    p2: Map<Seq<char>, ModuleView>,
    k: Seq<char>,
    m: ModuleView,
)
    requires
        p2 == p1.insert(k, m),
        s2.remove(k) == s1.remove(k),
    ensures
        s2.union_prefer_right(p2) == s1.union_prefer_right(p1).insert(k, m),
{
    let u2 = s2.union_prefer_right(p2);
    let u1 = s1.union_prefer_right(p1);
    assert forall|k2: Seq<char>| u2.dom().contains(k2) == u1.insert(k, m).dom().contains(k2) by {
        assert(u2.dom().contains(k2) == (s2.dom().contains(k2) || p2.dom().contains(k2)));
        assert(u1.dom().contains(k2) == (s1.dom().contains(k2) || p1.dom().contains(k2)));
        if k2 != k {
            assert(p2.dom().contains(k2) == p1.dom().contains(k2));
            assert(s2.remove(k).dom().contains(k2) == s1.remove(k).dom().contains(k2));
            assert(s2.remove(k).dom().contains(k2) == s2.dom().contains(k2));
            assert(s1.remove(k).dom().contains(k2) == s1.dom().contains(k2));
        } else {
            assert(p2.dom().contains(k));
        }
    }
    assert forall|k2: Seq<char>| u1.insert(k, m).dom().contains(k2) implies u2[k2] == u1.insert(
        k,
        m,
    )[k2] by {
        if k2 == k {
            assert(p2.dom().contains(k));
            assert(u2[k] == p2[k]);
            assert(p2[k] == m);
        } else {
            assert(u1.insert(k, m)[k2] == u1[k2]);
            assert(p2.dom().contains(k2) == p1.dom().contains(k2));
            assert(s2.remove(k).dom().contains(k2) == s2.dom().contains(k2));
            assert(s1.remove(k).dom().contains(k2) == s1.dom().contains(k2));
            assert(s2.remove(k).dom().contains(k2) == s1.remove(k).dom().contains(k2));
            if p1.dom().contains(k2) {
                assert(p2[k2] == p1[k2]);
                assert(u2[k2] == p2[k2]);
                assert(u1[k2] == p1[k2]);
            } else if s1.dom().contains(k2) {
                assert(s2.remove(k)[k2] == s1.remove(k)[k2]);
                assert(s2.remove(k)[k2] == s2[k2]);
                assert(s1.remove(k)[k2] == s1[k2]);
                assert(u2[k2] == s2[k2]);
                assert(u1[k2] == s1[k2]);
            }
        }
    }
    assert(u2 =~= u1.insert(k, m));
}

impl<P: ModuleCache, S: ModuleCache> ModuleCache for AndThen<P, S> {
    open spec fn wf(&self) -> bool {
        self.primary.wf() && self.secondary.wf()
    }

    open spec fn contents(&self) -> Map<Seq<char>, ModuleView> {
        self.secondary.contents().union_prefer_right(self.primary.contents())
    }

    open spec fn visible(&self, key: Seq<char>, engine: Engine) -> Option<ModuleView> {
        if self.primary.visible(key, engine) is Some {
            self.primary.visible(key, engine)
        } else {
            self.secondary.visible(key, engine)
        }
    }

    open spec fn keeps(&self) -> bool {
        self.primary.keeps() || self.secondary.keeps()
    }

    open spec fn infallible(&self) -> bool {
        self.primary.infallible() && self.secondary.infallible()
    }

    proof fn lemma_transient_is_empty(&self) {
        self.primary.lemma_transient_is_empty();
        self.secondary.lemma_transient_is_empty();
        assert forall|k: Seq<char>| !self.contents().dom().contains(k) by {
            assert(self.contents().dom().contains(k) == (self.secondary.contents().dom().contains(
                k,
            ) || self.primary.contents().dom().contains(k)));
        }
        assert(self.contents() =~= Map::<Seq<char>, ModuleView>::empty());
    }

    proof fn lemma_empty_misses(&self, key: Seq<char>, engine: Engine) {
        assert forall|k: Seq<char>|
            !self.primary.contents().dom().contains(k) && !self.secondary.contents().dom()
                .contains(k) by {
            assert(self.contents().dom().contains(k) == (self.secondary.contents().dom().contains(
                k,
            ) || self.primary.contents().dom().contains(k)));
        }
        assert(self.primary.contents() =~= Map::<Seq<char>, ModuleView>::empty());
        assert(self.secondary.contents() =~= Map::<Seq<char>, ModuleView>::empty());
        self.primary.lemma_empty_misses(key, engine);
        self.secondary.lemma_empty_misses(key, engine);
    }

    /// Attempts the primary first; on a miss there, falls through to the
    /// secondary, backfilling the primary on a hit.  An `Other` failure of
    /// the primary is propagated immediately, never masked by the
    /// secondary: it signals a real defect, not an empty tier.
    fn load(&mut self, key: &str, engine: &Engine) -> (r: Result<Module, CacheError>)
        ensures
            // Backfill: when the hit came from the secondary and the
            // primary retains entries and cannot fail, the primary now
            // holds the module under the key.
            r matches Ok(m) ==> ((old(self).primary.visible(key@, *engine) is None
                && old(self).primary.keeps() && old(self).primary.infallible())
                ==> final(self).primary.contents()
                == old(self).primary.contents().insert(key@, m@)),
            // Short circuit: anything visible in the primary settles the
            // load there, and the secondary is never touched.
            old(self).primary.visible(key@, *engine) is Some ==> final(self).secondary == old(
                self,
            ).secondary,
    {
        let ghost pre = *self;
        match self.primary.load(key, engine) {
            Ok(m) => {
                proof {
                    lemma_union_remove_frame(
                        pre.secondary.contents(),
                        pre.primary.contents(),
                        self.secondary.contents(),
                        self.primary.contents(),
                        key@,
                    );
                    if self.primary.contents() == pre.primary.contents().insert(key@, m@) {
                        lemma_union_after_insert_right(
                            pre.secondary.contents(),
                            pre.primary.contents(),
                            self.secondary.contents(),
                            self.primary.contents(),
                            key@,
                            m@,
                        );
                    }
                    assert forall|k2: Seq<char>, e2: Engine| k2 != key@ implies self.visible(
                        k2,
                        e2,
                    ) == pre.visible(k2, e2) by {
                        assert(self.primary.visible(k2, e2) == pre.primary.visible(k2, e2));
                    }
                }
                Ok(m)
            },
            Err(CacheError::NotFound) => {
                let ghost p1 = self.primary;
                match self.secondary.load(key, engine) {
                    Ok(m) => {
                        let ghost s1 = self.secondary;
                        // Backfill is best-effort: a failure here is not an
                        // error of the overall load.
                        let _backfill = self.primary.save(key, &m);
                        proof {
                            assert(p1.contents() == pre.primary.contents());
                            assert(self.primary.contents().remove(key@)
                                == pre.primary.contents().remove(key@));
                            lemma_union_remove_frame(
                                pre.secondary.contents(),
                                pre.primary.contents(),
                                self.secondary.contents(),
                                self.primary.contents(),
                                key@,
                            );
                            // The chain's contents either stay put or gain
                            // exactly the returned module under the key.
                            if self.primary.contents() == pre.primary.contents().insert(
                                key@,
                                m@,
                            ) {
                                lemma_union_after_insert_right(
                                    pre.secondary.contents(),
                                    pre.primary.contents(),
                                    self.secondary.contents(),
                                    self.primary.contents(),
                                    key@,
                                    m@,
                                );
                            } else {
                                assert(self.primary.contents() == pre.primary.contents());
                                if self.secondary.contents() == pre.secondary.contents().insert(
                                    key@,
                                    m@,
                                ) {
                                    if pre.primary.contents().dom().contains(key@) {
                                        lemma_union_insert_left_covered(
                                            pre.secondary.contents(),
                                            pre.primary.contents(),
                                            key@,
                                            m@,
                                        );
                                    }
                                }
                            }
                            assert forall|k2: Seq<char>, e2: Engine| k2 != key@ implies
                                self.visible(k2, e2) == pre.visible(k2, e2) by {
                                assert(p1.visible(k2, e2) == pre.primary.visible(k2, e2));
                                assert(self.primary.visible(k2, e2) == p1.visible(k2, e2));
                                assert(self.secondary.visible(k2, e2) == pre.secondary.visible(
                                    k2,
                                    e2,
                                ));
                            }
                        }
                        Ok(m)
                    },
                    Err(e) => {
                        proof {
                            assert(self.contents() == pre.contents());
                            assert forall|k2: Seq<char>, e2: Engine| self.visible(k2, e2)
                                == pre.visible(k2, e2) by {
                                assert(self.primary.visible(k2, e2) == pre.primary.visible(
                                    k2,
                                    e2,
                                ));
                                assert(self.secondary.visible(k2, e2) == pre.secondary.visible(
                                    k2,
                                    e2,
                                ));
                            }
                        }
                        Err(e)
                    },
                }
            },
            Err(e) => {
                proof {
                    assert(self.contents() == pre.contents());
                    assert forall|k2: Seq<char>, e2: Engine| self.visible(k2, e2) == pre.visible(
                        k2,
                        e2,
                    ) by {
                        assert(self.primary.visible(k2, e2) == pre.primary.visible(k2, e2));
                    }
                }
                Err(e)
            },
        }
    }

    /// Writes to the primary first; if that fails, returns the error
    /// immediately without touching the secondary (fail-fast).  If the
    /// primary succeeds, writes to the secondary as well, so every tier is
    /// kept warm on every explicit save; a secondary failure is propagated
    /// even though the primary write already succeeded.
    fn save(&mut self, key: &str, module: &Module) -> (r: Result<(), CacheError>)
        ensures
            // Fail-fast: the secondary is written only after the primary
            // write completed.
            final(self).secondary.contents() != old(self).secondary.contents()
                ==> (old(self).primary.keeps() ==> final(self).primary.contents()
                == old(self).primary.contents().insert(key@, module@)),
            // Eager fan-out: a successful save left the entry in every
            // retaining tier of the chain, the durable one included.
            r is Ok ==> (old(self).primary.keeps() ==> final(self).primary.contents() == old(
                self,
            ).primary.contents().insert(key@, module@)),
            r is Ok ==> (old(self).secondary.keeps() ==> final(self).secondary.contents() == old(
                self,
            ).secondary.contents().insert(key@, module@)),
    {
        let ghost pre = *self;
        match self.primary.save(key, module) {
            Err(e) => {
                proof {
                    lemma_union_remove_frame(
                        pre.secondary.contents(),
                        pre.primary.contents(),
                        self.secondary.contents(),
                        self.primary.contents(),
                        key@,
                    );
                    if self.primary.contents() == pre.primary.contents().insert(key@, module@) {
                        lemma_union_after_insert_right(
                            pre.secondary.contents(),
                            pre.primary.contents(),
                            self.secondary.contents(),
                            self.primary.contents(),
                            key@,
                            module@,
                        );
                    }
                    assert forall|k2: Seq<char>, e2: Engine| k2 != key@ implies self.visible(
                        k2,
                        e2,
                    ) == pre.visible(k2, e2) by {
                        assert(self.primary.visible(k2, e2) == pre.primary.visible(k2, e2));
                    }
                }
                Err(e)
            },
            Ok(()) => {
                let ghost p1 = self.primary;
                let r2 = self.secondary.save(key, module);
                proof {
                    assert(self.primary == p1);
                    lemma_union_remove_frame(
                        pre.secondary.contents(),
                        pre.primary.contents(),
                        self.secondary.contents(),
                        self.primary.contents(),
                        key@,
                    );
                    if pre.primary.keeps() {
                        assert(p1.contents() == pre.primary.contents().insert(key@, module@));
                        lemma_union_after_insert_right(
                            pre.secondary.contents(),
                            pre.primary.contents(),
                            self.secondary.contents(),
                            self.primary.contents(),
                            key@,
                            module@,
                        );
                    } else {
                        pre.primary.lemma_transient_is_empty();
                        assert(p1.contents() == pre.primary.contents());
                        if self.secondary.contents() == pre.secondary.contents().insert(
                            key@,
                            module@,
                        ) {
                            assert(self.contents() =~= pre.contents().insert(key@, module@));
                        } else if self.secondary.contents() == pre.secondary.contents() {
                            assert(self.contents() =~= pre.contents());
                        }
                    }
                    assert forall|k2: Seq<char>, e2: Engine| k2 != key@ implies self.visible(
                        k2,
                        e2,
                    ) == pre.visible(k2, e2) by {
                        assert(p1.visible(k2, e2) == pre.primary.visible(k2, e2));
                        assert(self.secondary.visible(k2, e2) == pre.secondary.visible(k2, e2));
                    }
                    if r2 is Ok {
                        assert forall|e2: Engine| self.visible(key@, e2) is None || self.visible(
                            key@,
                            e2,
                        ) == Some(module@) by {
                            assert(p1.visible(key@, e2) is None || p1.visible(key@, e2) == Some(
                                module@,
                            ));
                            assert(self.secondary.visible(key@, e2) is None
                                || self.secondary.visible(key@, e2) == Some(module@));
                        }
                        if pre.keeps() {
                            assert forall|e2: Engine| compatible(module@, e2) implies self.visible(
                                key@,
                                e2,
                            ) == Some(module@) by {
                                if pre.primary.keeps() {
                                    assert(p1.visible(key@, e2) == Some(module@));
                                } else {
                                    assert(p1.visible(key@, e2) is None || p1.visible(key@, e2)
                                        == Some(module@));
                                    if p1.visible(key@, e2) is None {
                                        assert(self.secondary.visible(key@, e2) == Some(
                                            module@,
                                        ));
                                    }
                                }
                            }
                        }
                    }
                }
                r2
            },
        }
    }
}

} // verus!
