//! The cache capability contract and the data it speaks about: engine
//! handles, compiled modules, and the cache error taxonomy.

use vstd::prelude::*;

verus! {

/// Identifies the compilation target/configuration a module was compiled
/// for (CPU features, ABI).  A compiled module produced for one engine
/// configuration is not guaranteed valid for another, so cached artifacts
/// are validated against the requesting engine before reuse.
#[derive(Clone, Copy, PartialEq, Eq, Structural, Debug)]
pub struct Engine {
    pub config: u64,
}

impl Engine {
    pub fn new(config: u64) -> (r: Engine)
        ensures
            r.config == config,
    {
        Engine { config }
    }
}

/// Mathematical model of a compiled module: the engine configuration it was
/// produced for, plus the opaque serialized artifact.
pub struct ModuleView {
    pub config: u64,
    pub bytes: Seq<u8>,
}

/// A compiled module as the cache stores it: an opaque artifact blob plus
/// the engine-compatibility marker.  The cache never compiles and never
/// inspects the blob; it only checks the marker against a requesting engine.
#[derive(Clone, Debug)]
pub struct Module {
    config: u64,
    bytes: Vec<u8>,
}

impl View for Module {
    type V = ModuleView;

    closed spec fn view(&self) -> ModuleView {
        ModuleView { config: self.config, bytes: self.bytes@ }
    }
}

impl Module {
    pub fn new(config: u64, bytes: Vec<u8>) -> (r: Module)
        ensures
            r@ == (ModuleView { config, bytes: bytes@ }),
    {
        Module { config, bytes }
    }

    pub fn config(&self) -> (r: u64)
        ensures
            r == self@.config,
    {
        self.config
    }

    pub fn bytes(&self) -> (r: &Vec<u8>)
        ensures
            r@ == self@.bytes,
    {
        &self.bytes
    }

    /// An explicit copy whose relation to the original is verified, used
    /// where a tier hands out a module while retaining its own copy.
    pub fn duplicate(&self) -> (r: Module)
        ensures
            r@ == self@,
    {
        let bytes = self.bytes.clone();
        proof {
            assert(bytes@ =~= self.bytes@);
        }
        Module { config: self.config, bytes }
    }
}

/// A module is valid for an engine exactly when it was compiled for that
/// engine's configuration.
pub open spec fn compatible(m: ModuleView, e: Engine) -> bool {
    m.config == e.config
}

/// The cache error taxonomy.  `NotFound` is a first-class, expected outcome
/// (absent, stale for this engine, or unreadable in a way that should
/// trigger regeneration); `Other` wraps an unexpected infrastructure
/// failure the caller should surface rather than silently recompute from.
#[derive(Debug)]
pub enum CacheError {
    /// The item was not found.
    NotFound,
    /// An unexpected failure, with a description of the underlying cause.
    Other(String),
}

impl CacheError {
    /// A human-readable description, in place of a `Display` impl.
    pub fn describe(&self) -> (r: String)
        ensures
            self is NotFound ==> r@ == "Not found"@,
            self matches CacheError::Other(msg) ==> r == msg,
    {
        match self {
            CacheError::NotFound => "Not found".to_string(),
            CacheError::Other(msg) => msg.clone(),
        }
    }
}

/// A cache key as the contracts speak of it.  Exported so that a tier
/// implemented outside the verified library can still write out the
/// trait's specification members.
pub type KeyView = Seq<char>;

/// The mathematical content of a tier: what it holds under which key.
pub type ContentsView = Map<Seq<char>, ModuleView>;

/// The abstract outcome of a load: a hit with a module, an expected miss,
/// or an infrastructure failure.
pub enum LoadOutcome {
    Hit(ModuleView),
    Miss,
    Failed,
}

/// Abstracts an exec load result to its outcome.
pub open spec fn outcome_of(r: Result<Module, CacheError>) -> LoadOutcome {
    match r {
        Ok(m) => LoadOutcome::Hit(m@),
        Err(CacheError::NotFound) => LoadOutcome::Miss,
        Err(CacheError::Other(_)) => LoadOutcome::Failed,
    }
}

/// What `load`'s contract guarantees about its outcome, given the cache
/// state `pre` at the moment of the call: a hit returns exactly what was
/// visible under the key to the requesting engine, a miss means nothing was
/// visible, and a tier that cannot fail never reports a failure.
pub open spec fn load_conforms<C: ModuleCache>(
    pre: C,
    key: Seq<char>,
    engine: Engine,
    outcome: LoadOutcome,
) -> bool {
    &&& (outcome matches LoadOutcome::Hit(m) ==> pre.visible(key, engine) == Some(m))
    &&& (outcome is Miss ==> pre.visible(key, engine) is None)
    &&& (pre.infallible() ==> !(outcome is Failed))
}

/// A cache for compiled bytecode modules.
///
/// ## Assumptions
///
/// Implementations can assume that cache keys are unique and that using the
/// same key to load or save will always result in the "same" module.
///
/// Implementations can also assume that `load` will be called more often
/// than `save` and optimise their caching strategy accordingly.
///
/// ## Specification interface
///
/// * `contents()` is the mapping the tier currently retains.
/// * `visible(k, e)` is what a load of `k` on behalf of engine `e` can hit:
///   a tier that validates artifacts hides entries stale for `e`, while the
///   memory tiers show whatever they hold.
/// * `keeps()` says whether a successful save is retained at all (the
///   disabled tier discards saves).
/// * `infallible()` says the tier never reports an `Other` failure; the
///   in-memory tiers are infallible, a durable tier backed by storage is
///   not.
pub trait ModuleCache {
    spec fn wf(&self) -> bool;

    spec fn contents(&self) -> Map<Seq<char>, ModuleView>;

    spec fn visible(&self, key: Seq<char>, engine: Engine) -> Option<ModuleView>;

    spec fn keeps(&self) -> bool;

    spec fn infallible(&self) -> bool;

    /// Law: a tier that does not retain saves holds nothing.
    proof fn lemma_transient_is_empty(&self)
        requires
            self.wf(),
            !self.keeps(),
        ensures
            self.contents() == Map::<Seq<char>, ModuleView>::empty(),
    ;

    /// Law (miss propagation): a tier without entries can only miss,
    /// whatever the key and whichever engine asks.
    proof fn lemma_empty_misses(&self, key: Seq<char>, engine: Engine)
        requires
            self.wf(),
            self.contents() == Map::<Seq<char>, ModuleView>::empty(),
        ensures
            self.visible(key, engine) is None,
    ;

    /// Returns the cached module for `key` validated against `engine`.
    ///
    /// `NotFound` means absent or stale for this engine, and should trigger
    /// regeneration; `Other` means a genuine defect the caller should
    /// surface.  A load never disturbs entries under other keys; under the
    /// requested key it may at most record the very module it returns (a
    /// chain backfills faster tiers on a hit in a slower one).
    fn load(&mut self, key: &str, engine: &Engine) -> (r: Result<Module, CacheError>)
        requires
            old(self).wf(),
        ensures
            final(self).wf(),
            r matches Ok(m) ==> old(self).visible(key@, *engine) == Some(m@),
            r matches Err(e) && e is NotFound ==> old(self).visible(key@, *engine) is None,
            old(self).infallible() ==> !(r matches Err(e) && e is Other),
            final(self).keeps() == old(self).keeps(),
            final(self).infallible() == old(self).infallible(),
            forall|k2: Seq<char>, e2: Engine|
                k2 != key@ ==> final(self).visible(k2, e2) == old(self).visible(k2, e2),
            final(self).contents().remove(key@) == old(self).contents().remove(key@),
            r matches Ok(m) ==> final(self).contents() == old(self).contents()
                || final(self).contents() == old(self).contents().insert(key@, m@),
            r matches Err(_) ==> final(self).contents() == old(self).contents() && forall|
                k2: Seq<char>,
                e2: Engine,
            | final(self).visible(k2, e2) == old(self).visible(k2, e2),
    ;

    /// Stores `module` under `key`, overwriting any prior entry.
    ///
    /// Safe to call even if no prior `load` occurred for that key.  On
    /// success, a retaining tier records exactly this entry and makes it
    /// visible to every compatible engine; entries under other keys are
    /// never disturbed, even on failure.
    fn save(&mut self, key: &str, module: &Module) -> (r: Result<(), CacheError>)
        requires
            old(self).wf(),
        ensures
            final(self).wf(),
            old(self).infallible() ==> r is Ok,
            final(self).keeps() == old(self).keeps(),
            final(self).infallible() == old(self).infallible(),
            forall|k2: Seq<char>, e2: Engine|
                k2 != key@ ==> final(self).visible(k2, e2) == old(self).visible(k2, e2),
            final(self).contents().remove(key@) == old(self).contents().remove(key@),
            r is Ok && old(self).keeps() ==> final(self).contents() == old(self).contents().insert(
                key@,
                module@,
            ),
            r is Ok && !old(self).keeps() ==> final(self).contents() == old(self).contents(),
            r is Ok ==> forall|e2: Engine|
                final(self).visible(key@, e2) is None || final(self).visible(key@, e2) == Some(
                    module@,
                ),
            r is Ok && old(self).keeps() ==> forall|e2: Engine|
                compatible(module@, e2) ==> final(self).visible(key@, e2) == Some(module@),
            r is Err ==> final(self).contents() == old(self).contents() || final(self).contents()
                == old(self).contents().insert(key@, module@),
    ;

}

/// An exclusive handle to a conforming tier conforms as well, delegating
/// every call through the handle; call sites can then pass tiers around
/// behind pointers without changing their contracts.
impl<C: ModuleCache> ModuleCache for Box<C> {
    open spec fn wf(&self) -> bool {
        (**self).wf()
    }

    open spec fn contents(&self) -> Map<Seq<char>, ModuleView> {
        (**self).contents()
    }

    open spec fn visible(&self, key: Seq<char>, engine: Engine) -> Option<ModuleView> {
        (**self).visible(key, engine)
    }

    open spec fn keeps(&self) -> bool {
        (**self).keeps()
    }

    open spec fn infallible(&self) -> bool {
        (**self).infallible()
    }

    proof fn lemma_transient_is_empty(&self) {
        (**self).lemma_transient_is_empty();
    }

    proof fn lemma_empty_misses(&self, key: Seq<char>, engine: Engine) {
        (**self).lemma_empty_misses(key, engine);
    }

    fn load(&mut self, key: &str, engine: &Engine) -> (r: Result<Module, CacheError>) {
        (&mut **self).load(key, engine)
    }

    fn save(&mut self, key: &str, module: &Module) -> (r: Result<(), CacheError>) {
        (&mut **self).save(key, module)
    }
}

} // verus!
