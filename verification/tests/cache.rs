use context_info::cache::KubeInfoCache;
use context_info::cache::CACHE_SIZE;
use context_info::kubernetes::KubernetesInfo;

fn entry(n: u64) -> Option<KubernetesInfo> {
    Some(KubernetesInfo {
        time: n,
        context: format!("ctx{}", n),
        user: String::new(),
        namespace: String::new(),
        cluster: String::new(),
    })
}

#[test]
fn cache_size_is_one_hundred() {
    assert_eq!(CACHE_SIZE, 100);
}

#[test]
fn cache_starts_empty() {
    let mut cache = KubeInfoCache::new();
    assert_eq!(cache.get(&"k".to_string()), None);
}

#[test]
fn cache_gives_back_what_was_stored() {
    let mut cache = KubeInfoCache::new();
    cache.set("k1".to_string(), entry(1));
    cache.set("k2".to_string(), None);
    assert_eq!(cache.get(&"k1".to_string()), Some(entry(1)));
    assert_eq!(cache.get(&"k2".to_string()), Some(None));
    assert_eq!(cache.get(&"k3".to_string()), None);
}

#[test]
fn cache_set_replaces_the_value_under_a_key() {
    let mut cache = KubeInfoCache::new();
    cache.set("k".to_string(), entry(1));
    cache.set("k".to_string(), entry(2));
    assert_eq!(cache.get(&"k".to_string()), Some(entry(2)));
}

#[test]
fn cache_holds_one_hundred_entries() {
    let mut cache = KubeInfoCache::new();
    for n in 0..100u64 {
        cache.set(format!("k{}", n), entry(n));
    }
    for n in (0..100u64).rev() {
        assert_eq!(cache.get(&format!("k{}", n)), Some(entry(n)));
    }
}

#[test]
fn cache_evicts_the_least_recently_used() {
    let mut cache = KubeInfoCache::new();
    for n in 0..100u64 {
        cache.set(format!("k{}", n), entry(n));
    }
    cache.set("k100".to_string(), entry(100));
    assert_eq!(cache.get(&"k0".to_string()), None);
    assert_eq!(cache.get(&"k1".to_string()), Some(entry(1)));
    assert_eq!(cache.get(&"k100".to_string()), Some(entry(100)));
}

#[test]
fn cache_lookup_makes_an_entry_recent() {
    let mut cache = KubeInfoCache::new();
    for n in 0..100u64 {
        cache.set(format!("k{}", n), entry(n));
    }
    assert_eq!(cache.get(&"k0".to_string()), Some(entry(0)));
    cache.set("k100".to_string(), entry(100));
    assert_eq!(cache.get(&"k0".to_string()), Some(entry(0)));
    assert_eq!(cache.get(&"k1".to_string()), None);
}

#[test]
fn cache_replacing_a_value_keeps_its_place() {
    let mut cache = KubeInfoCache::new();
    for n in 0..100u64 {
        cache.set(format!("k{}", n), entry(n));
    }
    cache.set("k0".to_string(), entry(1000));
    cache.set("k100".to_string(), entry(100));
    assert_eq!(cache.get(&"k0".to_string()), None);
    assert_eq!(cache.get(&"k1".to_string()), Some(entry(1)));
}
