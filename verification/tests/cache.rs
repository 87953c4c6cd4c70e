use vstd::prelude::*;

use module_cache::{
    default_cache, AndThen, CacheError, Disabled, Engine, Module, ModuleCache, ModuleView,
    SharedCache, ThreadLocalCache,
};

fn module(config: u64, bytes: &[u8]) -> Module {
    Module::new(config, bytes.to_vec())
}

#[test]
fn is_object_safe() {
    let _: Option<Box<dyn ModuleCache>> = None;
}

#[test]
fn round_trip_thread_local() {
    let mut tier = ThreadLocalCache::new();
    let engine = Engine::new(7);
    tier.save("key", &module(7, &[1, 2, 3])).unwrap();
    let loaded = tier.load("key", &engine).unwrap();
    assert_eq!(loaded.config(), 7);
    assert_eq!(loaded.bytes(), &vec![1, 2, 3]);
}

#[test]
fn round_trip_shared() {
    let mut tier = SharedCache::new();
    let engine = Engine::new(7);
    tier.save("key", &module(7, &[4, 5])).unwrap();
    let loaded = tier.load("key", &engine).unwrap();
    assert_eq!(loaded.config(), 7);
    assert_eq!(loaded.bytes(), &vec![4, 5]);
}

#[test]
fn round_trip_default_chain() {
    let mut chain = default_cache(Disabled);
    let engine = Engine::new(3);
    chain.save("wasm/module", &module(3, &[0xde, 0xad])).unwrap();
    let loaded = chain.load("wasm/module", &engine).unwrap();
    assert_eq!(loaded.config(), 3);
    assert_eq!(loaded.bytes(), &vec![0xde, 0xad]);
}

#[test]
fn save_overwrites_previous_entry() {
    let mut tier = SharedCache::new();
    let engine = Engine::new(1);
    tier.save("key", &module(1, &[1])).unwrap();
    tier.save("key", &module(1, &[2])).unwrap();
    let loaded = tier.load("key", &engine).unwrap();
    assert_eq!(loaded.bytes(), &vec![2]);
}

#[test]
fn fresh_tiers_miss() {
    let engine = Engine::new(0);
    let mut tl = ThreadLocalCache::new();
    assert!(matches!(tl.load("k", &engine), Err(CacheError::NotFound)));
    let mut shared = SharedCache::new();
    assert!(matches!(shared.load("k", &engine), Err(CacheError::NotFound)));
    let mut disabled = Disabled;
    assert!(matches!(disabled.load("k", &engine), Err(CacheError::NotFound)));
    let mut chain = default_cache(Disabled);
    assert!(matches!(chain.load("k", &engine), Err(CacheError::NotFound)));
}

#[test]
fn backfill_populates_primary() {
    let engine = Engine::new(9);
    let mut durable = SharedCache::new();
    durable.save("key", &module(9, &[8, 8, 8])).unwrap();
    let mut chain = AndThen::new(ThreadLocalCache::new(), durable);

    let loaded = chain.load("key", &engine).unwrap();
    assert_eq!(loaded.bytes(), &vec![8, 8, 8]);

    // A direct read of the faster tier, bypassing the chain, now hits.
    let direct = chain.primary.load("key", &engine).unwrap();
    assert_eq!(direct.bytes(), &vec![8, 8, 8]);
}

struct FailingTier;

// The specification members of the trait survive compilation as ordinary
// items; a runtime-only tier gives the ghost ones stub bodies, which no
// execution ever reaches.
impl ModuleCache for FailingTier {
    fn wf(&self) -> bool {
        true
    }

    fn contents(&self) -> Map<Seq<char>, ModuleView> {
        unreachable!()
    }

    fn visible(&self, _key: Seq<char>, _engine: Engine) -> Option<ModuleView> {
        unreachable!()
    }

    fn keeps(&self) -> bool {
        false
    }

    fn infallible(&self) -> bool {
        false
    }

    fn lemma_transient_is_empty(&self) {}

    fn lemma_empty_misses(&self, _key: Seq<char>, _engine: Engine) {}

    fn load(&mut self, _key: &str, _engine: &Engine) -> Result<Module, CacheError> {
        Err(CacheError::Other("broken tier".to_string()))
    }

    fn save(&mut self, _key: &str, _module: &Module) -> Result<(), CacheError> {
        Err(CacheError::Other("broken tier".to_string()))
    }
}

#[test]
fn fail_fast_on_save() {
    let engine = Engine::new(2);
    let mut chain = AndThen::new(FailingTier, SharedCache::new());
    let result = chain.save("key", &module(2, &[1]));
    match result {
        Err(CacheError::Other(msg)) => assert_eq!(msg, "broken tier"),
        other => panic!("expected the primary failure, got {:?}", other.err()),
    }
    // The secondary was never written.
    assert!(matches!(chain.secondary.load("key", &engine), Err(CacheError::NotFound)));
}

#[test]
fn other_from_primary_is_not_masked() {
    let engine = Engine::new(2);
    let mut durable = SharedCache::new();
    durable.save("key", &module(2, &[7])).unwrap();
    let mut chain = AndThen::new(FailingTier, durable);
    // The secondary has the entry, but the primary's failure is a real
    // defect and is propagated, not papered over.
    assert!(matches!(chain.load("key", &engine), Err(CacheError::Other(_))));
}

#[test]
fn disabled_tier_is_inert() {
    let engine = Engine::new(5);
    let mut tier = Disabled;
    tier.save("key", &module(5, &[1, 2])).unwrap();
    assert!(matches!(tier.load("key", &engine), Err(CacheError::NotFound)));
}

#[test]
fn boxed_tier_delegates() {
    let engine = Engine::new(4);
    let mut tier = Box::new(ThreadLocalCache::new());
    tier.save("key", &module(4, &[6])).unwrap();
    assert_eq!(tier.load("key", &engine).unwrap().bytes(), &vec![6]);
}

#[test]
fn error_descriptions() {
    assert_eq!(CacheError::NotFound.describe(), "Not found");
    assert_eq!(CacheError::Other("disk on fire".to_string()).describe(), "disk on fire");
}
