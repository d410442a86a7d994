use foldcore::fibonacci::FibonacciCircuit;
use foldcore::keys::CommitmentKey;
use foldcore::keys::CurveKind;
use foldcore::keys::KeyCache;
use foldcore::params::new_default_pp;
use foldcore::trivial::TrivialCircuit;

#[test]
fn generate_persist_and_reload_yield_the_same_key() {
    let mut cache = KeyCache::new();
    let generated = cache.load_or_create(CurveKind::Bn256, 20);
    assert_eq!(generated.curve, CurveKind::Bn256);
    assert_eq!(generated.k, 20);
    // Persist the entries and rebuild the cache, as a later run would.
    let persisted = cache.entries.clone();
    let mut reloaded = KeyCache::from_entries(persisted);
    let loaded = reloaded.load_or_create(CurveKind::Bn256, 20);
    assert_eq!(loaded, generated);
    assert_eq!(reloaded.entries.len(), 1);
}

#[test]
fn loaded_key_gives_identical_verification_outcomes() {
    let sc1 = FibonacciCircuit { elements: 10 };
    let sc2 = TrivialCircuit { width: 1 };
    let mut cache = KeyCache::new();
    let fresh_primary = cache.load_or_create(CurveKind::Bn256, 20);
    let fresh_secondary = cache.load_or_create(CurveKind::Grumpkin, 20);
    let mut reloaded = KeyCache::from_entries(cache.entries.clone());
    let loaded_primary = reloaded.load_or_create(CurveKind::Bn256, 20);
    let loaded_secondary = reloaded.load_or_create(CurveKind::Grumpkin, 20);
    let pp_fresh =
        new_default_pp(17, &fresh_primary, &sc1, 17, &fresh_secondary, &sc2).unwrap();
    let pp_loaded =
        new_default_pp(17, &loaded_primary, &sc1, 17, &loaded_secondary, &sc2).unwrap();
    assert_eq!(pp_fresh.primary_key, pp_loaded.primary_key);
    assert_eq!(pp_fresh.secondary_key, pp_loaded.secondary_key);
    assert_eq!(pp_fresh.primary_cap, pp_loaded.primary_cap);
    assert_eq!(pp_fresh.secondary_cap, pp_loaded.secondary_cap);
}

#[test]
fn cache_hits_do_not_duplicate_entries() {
    let mut cache = KeyCache::new();
    let first = cache.load_or_create(CurveKind::Bn256, 20);
    let second = cache.load_or_create(CurveKind::Bn256, 20);
    assert_eq!(first, second);
    assert_eq!(cache.entries.len(), 1);
}

#[test]
fn distinct_curves_and_sizes_get_distinct_entries() {
    let mut cache = KeyCache::new();
    let a = cache.load_or_create(CurveKind::Bn256, 20);
    let b = cache.load_or_create(CurveKind::Grumpkin, 20);
    let c = cache.load_or_create(CurveKind::Bn256, 21);
    assert_ne!(a, b);
    assert_ne!(a, c);
    assert_eq!(cache.entries.len(), 3);
    assert_eq!(
        cache.entries,
        vec![
            CommitmentKey {
                curve: CurveKind::Bn256,
                k: 20
            },
            CommitmentKey {
                curve: CurveKind::Grumpkin,
                k: 20
            },
            CommitmentKey {
                curve: CurveKind::Bn256,
                k: 21
            },
        ]
    );
}
