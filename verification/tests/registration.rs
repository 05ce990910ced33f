use url_shortener::errors::UrlError;
use url_shortener::registrar::register;
use url_shortener::store::RecordStore;
use url_shortener::validate::validate_registration;

#[test]
fn valid_registration_succeeds() {
    let mut store = RecordStore::new();
    let r = register(
        &mut store,
        "https://example.com/docs".to_string(),
        "go".to_string(),
        true,
    );
    let created = r.expect("a fresh alias must register");
    assert_eq!(created.id, 1);
    assert_eq!(created.url, "https://example.com/docs");
    assert_eq!(created.short_url, "go");
    assert!(created.robots_allowed);
    assert!(created.robots_html.is_none());
    assert_eq!(store.len(), 1);
}

#[test]
fn alias_length_one_rejected() {
    let mut store = RecordStore::new();
    let r = register(
        &mut store,
        "https://example.com".to_string(),
        "a".to_string(),
        false,
    );
    assert_eq!(r.unwrap_err(), UrlError::InvalidInput);
    assert_eq!(store.len(), 0);
}

#[test]
fn alias_length_thirteen_rejected() {
    let mut store = RecordStore::new();
    let r = register(
        &mut store,
        "https://example.com".to_string(),
        "abcdefghijklm".to_string(),
        false,
    );
    assert_eq!(r.unwrap_err(), UrlError::InvalidInput);
    assert_eq!(store.len(), 0);
}

#[test]
fn alias_length_bounds_accepted() {
    let mut store = RecordStore::new();
    assert!(register(
        &mut store,
        "https://example.com".to_string(),
        "ab".to_string(),
        false,
    )
    .is_ok());
    assert!(register(
        &mut store,
        "https://example.com".to_string(),
        "abcdefghijkl".to_string(),
        false,
    )
    .is_ok());
    assert_eq!(store.len(), 2);
}

#[test]
fn alias_length_counts_characters_not_bytes() {
    // twelve two-byte characters: within the limit when counted as characters
    let mut store = RecordStore::new();
    let twelve_chars = "éééééééééééé".chars().take(12).collect::<String>();
    assert_eq!(twelve_chars.chars().count(), 12);
    assert!(twelve_chars.len() > 12);
    let r = register(
        &mut store,
        "https://example.com".to_string(),
        twelve_chars,
        false,
    );
    assert!(r.is_ok());
}

#[test]
fn alias_leading_slash_rejected() {
    let mut store = RecordStore::new();
    let r = register(
        &mut store,
        "https://example.com".to_string(),
        "/abc".to_string(),
        false,
    );
    assert_eq!(r.unwrap_err(), UrlError::InvalidInput);
    assert_eq!(store.len(), 0);
}

#[test]
fn malformed_url_rejected() {
    let mut store = RecordStore::new();
    let r = register(&mut store, "http".to_string(), "go".to_string(), false);
    assert_eq!(r.unwrap_err(), UrlError::InvalidInput);
    assert_eq!(store.len(), 0);
}

#[test]
fn url_syntax_distinguishes_inputs() {
    // the validator must accept real URLs and refuse fragments
    assert!(validate_registration(&"https://google.com".to_string(), &"go".to_string()).is_ok());
    assert!(validate_registration(&"ftp://localhost:80".to_string(), &"go".to_string()).is_ok());
    assert!(validate_registration(&"http".to_string(), &"go".to_string()).is_err());
    assert!(validate_registration(&"".to_string(), &"go".to_string()).is_err());
}

#[test]
fn duplicate_alias_conflicts() {
    let mut store = RecordStore::new();
    let first = register(
        &mut store,
        "https://example.com/one".to_string(),
        "go".to_string(),
        true,
    );
    assert!(first.is_ok());
    let second = register(
        &mut store,
        "https://example.com/two".to_string(),
        "go".to_string(),
        true,
    );
    assert_eq!(second.unwrap_err(), UrlError::Conflict);
    assert_eq!(store.count_alias(&"go".to_string()), 1);
    assert_eq!(store.len(), 1);
}

#[test]
fn store_constraint_is_backstop() {
    // an insert that bypasses the registrar's pre-check still cannot
    // duplicate an alias: the store's own constraint refuses it
    let mut store = RecordStore::new();
    assert!(store
        .insert("https://example.com/a".to_string(), "go".to_string(), true)
        .is_ok());
    let clash = store.insert("https://example.com/b".to_string(), "go".to_string(), false);
    assert_eq!(clash.unwrap_err(), UrlError::StoreError);
    assert_eq!(store.count_alias(&"go".to_string()), 1);
}

#[test]
fn ids_assigned_in_insertion_order() {
    let mut store = RecordStore::new();
    let a = register(
        &mut store,
        "https://example.com/a".to_string(),
        "aa".to_string(),
        true,
    )
    .unwrap();
    let b = register(
        &mut store,
        "https://example.com/b".to_string(),
        "bb".to_string(),
        false,
    )
    .unwrap();
    assert_eq!(a.id, 1);
    assert_eq!(b.id, 2);
    let rows = store.all_rows();
    assert_eq!(rows.len(), 2);
    assert_eq!(rows[0].short_url, "aa");
    assert_eq!(rows[1].short_url, "bb");
}

#[test]
fn rejection_leaves_no_side_effect() {
    let mut store = RecordStore::new();
    let before: u64 = store.reads_served();
    let r = register(
        &mut store,
        "not a url".to_string(),
        "go".to_string(),
        false,
    );
    assert!(r.is_err());
    assert_eq!(store.len(), 0);
    // validation failed before any store access
    assert_eq!(store.reads_served(), before);
}
