use url_shortener::cache::AliasCache;
use url_shortener::errors::UrlError;
use url_shortener::model::Url;
use url_shortener::registrar::register;
use url_shortener::resolver::resolve;
use url_shortener::store::RecordStore;

fn seeded_store() -> RecordStore {
    let mut store = RecordStore::new();
    register(
        &mut store,
        "https://example.com/landing".to_string(),
        "go".to_string(),
        true,
    )
    .expect("seed registration");
    store
}

#[test]
fn registered_alias_resolves_to_same_url() {
    let mut store = seeded_store();
    let mut cache = AliasCache::new();
    let r = resolve(&mut cache, &mut store, &"go".to_string());
    let mapping = r.expect("a registered alias must resolve");
    assert_eq!(mapping.url, "https://example.com/landing");
    assert_eq!(mapping.short_url, "go");
    assert_eq!(mapping.location().as_str(), "https://example.com/landing");
}

#[test]
fn unregistered_alias_not_found() {
    let mut store = seeded_store();
    let mut cache = AliasCache::new();
    let r = resolve(&mut cache, &mut store, &"nope".to_string());
    assert_eq!(r.unwrap_err(), UrlError::NotFound);
    // a failed lookup populates nothing
    assert_eq!(cache.len(), 0);
}

#[test]
fn miss_populates_cache_hit_skips_store() {
    let mut store = seeded_store();
    let mut cache = AliasCache::new();
    let after_seed: u64 = store.reads_served();

    let first = resolve(&mut cache, &mut store, &"go".to_string()).unwrap();
    // the miss read the store once and populated the cache
    assert_eq!(store.reads_served(), after_seed + 1);
    assert_eq!(cache.len(), 1);

    let second = resolve(&mut cache, &mut store, &"go".to_string()).unwrap();
    // the hit was served from the cache: no second store read
    assert_eq!(store.reads_served(), after_seed + 1);
    assert_eq!(cache.len(), 1);

    // and the mapping is identical
    assert_eq!(second.id, first.id);
    assert_eq!(second.url, first.url);
    assert_eq!(second.short_url, first.short_url);
    assert_eq!(second.robots_allowed, first.robots_allowed);
}

#[test]
fn resolution_is_idempotent() {
    let mut store = seeded_store();
    let mut cache = AliasCache::new();
    let first = resolve(&mut cache, &mut store, &"go".to_string()).unwrap();
    let second = resolve(&mut cache, &mut store, &"go".to_string()).unwrap();
    // byte-identical destination both times
    assert_eq!(first.url.as_bytes(), second.url.as_bytes());
}

#[test]
fn cache_probe_and_populate() {
    let mut cache = AliasCache::new();
    assert!(cache.get(&"go".to_string()).is_none());
    cache.put(Url {
        id: 7,
        url: "https://example.com/seven".to_string(),
        short_url: "go".to_string(),
        robots_allowed: false,
        robots_html: None,
    });
    let hit = cache.get(&"go".to_string()).expect("cached alias");
    assert_eq!(hit.id, 7);
    assert_eq!(hit.url, "https://example.com/seven");
    assert!(cache.get(&"other".to_string()).is_none());
}

#[test]
fn failed_lookup_reads_store_without_caching() {
    let mut store = seeded_store();
    let mut cache = AliasCache::new();
    let before: u64 = store.reads_served();
    let r = resolve(&mut cache, &mut store, &"miss".to_string());
    assert!(r.is_err());
    assert_eq!(store.reads_served(), before + 1);
    assert_eq!(cache.len(), 0);

    // the alias can still resolve once registered afterwards
    register(
        &mut store,
        "https://example.com/late".to_string(),
        "miss".to_string(),
        false,
    )
    .unwrap();
    let found = resolve(&mut cache, &mut store, &"miss".to_string()).unwrap();
    assert_eq!(found.url, "https://example.com/late");
    assert_eq!(cache.len(), 1);
}
