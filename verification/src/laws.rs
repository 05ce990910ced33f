use vstd::prelude::*;
use crate::errors::UrlError;
use crate::model::{
    alias_count, has_alias, lemma_alias_count, lemma_mapping_at, mapping_of, unique_aliases,
    UrlModel,
};
use crate::registrar::register_spec;
use crate::resolver::resolve_spec;
use crate::validate::alias_ok;

verus! {

/// Whether a mapping is one of the relation's rows.
pub open spec fn appears_in(m: UrlModel, rows: Seq<UrlModel>) -> bool {
    exists|j: int| 0 <= j < rows.len() && rows[j] == m
}

/// The cache is a pure subset of the store's contents: every cached mapping
/// is one of the store's rows, alias and all.
pub open spec fn cache_consistent(cache: Seq<UrlModel>, rows: Seq<UrlModel>) -> bool {
    forall|i: int| 0 <= i < cache.len() ==> appears_in(#[trigger] cache[i], rows)
}

/// Appending a row with a fresh alias keeps aliases unique.
pub proof fn lemma_push_unique(rows: Seq<UrlModel>, m: UrlModel)
    requires
        unique_aliases(rows),
        !has_alias(rows, m.short_url),
    ensures
        unique_aliases(rows.push(m)),
{
    let all = rows.push(m);
    assert forall|i: int, j: int| 0 <= i < j < all.len() implies all[i].short_url
        != all[j].short_url by {
        if j < rows.len() {
            assert(rows[i].short_url != rows[j].short_url);
        } else {
            assert(all[j] == m);
            if all[i].short_url == m.short_url {
                assert(has_alias(rows, m.short_url)) by {
                    assert(0 <= i < rows.len() && rows[i].short_url == m.short_url);
                }
            }
        }
    }
}

/// A consistent cache cannot hold an alias the store lacks.
pub proof fn lemma_consistent_miss(cache: Seq<UrlModel>, rows: Seq<UrlModel>, a: Seq<char>)
    requires
        cache_consistent(cache, rows),
        !has_alias(rows, a),
    ensures
        !has_alias(cache, a),
{
    if has_alias(cache, a) {
        let i = crate::model::alias_index(cache, a);
        assert(0 <= i < cache.len() && cache[i].short_url == a);
        assert(appears_in(cache[i], rows));
        let j = choose|j: int| 0 <= j < rows.len() && rows[j] == cache[i];
        assert(rows[j].short_url == a);
    }
}

/// Law: a registration of a syntactically valid URL under a well-formed,
/// not-yet-used alias succeeds with a mapping carrying the given fields, and
/// a subsequent resolution of that alias returns that very mapping — in
/// particular the identical destination URL.
pub proof fn lemma_register_then_resolve(
    cache: Seq<UrlModel>,
    rows: Seq<UrlModel>,
    url: Seq<char>,
    url_ok: bool,
    alias: Seq<char>,
    robots: bool,
)
    requires
        unique_aliases(rows),
        unique_aliases(cache),
        cache_consistent(cache, rows),
        url_ok,
        alias_ok(alias),
        !has_alias(rows, alias),
    ensures
        ({
            let reg = register_spec(rows, url, url_ok, alias, robots);
            let res = resolve_spec(cache, reg.0, alias);
            &&& reg.1 matches Ok(m) && m.url == url && m.short_url == alias && m.robots_allowed
                == robots
            &&& res.1 == reg.1
            &&& res.1 matches Ok(m2) && m2.url == url
        }),
{
    let reg = register_spec(rows, url, url_ok, alias, robots);
    let m = UrlModel {
        id: rows.len() as int + 1,
        url: url,
        short_url: alias,
        robots_allowed: robots,
        robots_html: None,
    };
    assert(reg.0 == rows.push(m));
    assert(reg.1 == Ok::<UrlModel, UrlError>(m));
    lemma_consistent_miss(cache, rows, alias);
    assert(has_alias(reg.0, alias)) by {
        assert(reg.0[rows.len() as int].short_url == alias);
    }
    lemma_push_unique(rows, m);
    lemma_mapping_at(reg.0, alias, rows.len() as int);
}

/// Law: a registration whose alias is already taken is rejected with
/// `Conflict`, the store's rows are unchanged, and the store still holds
/// exactly one mapping for that alias.
pub proof fn lemma_duplicate_registration_rejected(
    rows: Seq<UrlModel>,
    url: Seq<char>,
    url_ok: bool,
    alias: Seq<char>,
    robots: bool,
)
    requires
        unique_aliases(rows),
        has_alias(rows, alias),
        url_ok,
        alias_ok(alias),
    ensures
        register_spec(rows, url, url_ok, alias, robots).1 == Err::<UrlModel, UrlError>(
            UrlError::Conflict,
        ),
        register_spec(rows, url, url_ok, alias, robots).0 == rows,
        alias_count(rows, alias) == 1,
{
    lemma_alias_count(rows, alias);
}

/// Law: once a successful resolution has populated the cache, resolving the
/// same alias again returns the identical mapping without reading the store.
pub proof fn lemma_cached_resolution(cache: Seq<UrlModel>, rows: Seq<UrlModel>, a: Seq<char>)
    requires
        unique_aliases(cache),
        unique_aliases(rows),
        resolve_spec(cache, rows, a).1 is Ok,
    ensures
        ({
            let first = resolve_spec(cache, rows, a);
            let second = resolve_spec(first.0, rows, a);
            &&& second.1 == first.1
            &&& second.2 == false
            &&& second.0 == first.0
        }),
{
    if has_alias(cache, a) {
    } else {
        let m = mapping_of(rows, a);
        assert(has_alias(rows, a));
        let j = crate::model::alias_index(rows, a);
        assert(0 <= j < rows.len() && rows[j].short_url == a);
        let c2 = cache.push(m);
        assert(has_alias(c2, a)) by {
            assert(c2[cache.len() as int].short_url == a);
        }
        lemma_push_unique(cache, m);
        lemma_mapping_at(c2, a, cache.len() as int);
    }
}

/// Law: resolving an alias twice in succession is idempotent — the second
/// resolution returns the same outcome (in particular a byte-identical
/// destination URL on success) and leaves the cache as the first did.
pub proof fn lemma_resolution_idempotent(cache: Seq<UrlModel>, rows: Seq<UrlModel>, a: Seq<char>)
    requires
        unique_aliases(cache),
        unique_aliases(rows),
    ensures
        ({
            let first = resolve_spec(cache, rows, a);
            let second = resolve_spec(first.0, rows, a);
            &&& second.1 == first.1
            &&& second.0 == first.0
        }),
{
    if resolve_spec(cache, rows, a).1 is Ok {
        lemma_cached_resolution(cache, rows, a);
    }
}

/// Law: a resolution keeps the cache a pure subset of the store's rows.
pub proof fn lemma_resolve_preserves_consistency(
    cache: Seq<UrlModel>,
    rows: Seq<UrlModel>,
    a: Seq<char>,
)
    requires
        cache_consistent(cache, rows),
    ensures
        cache_consistent(resolve_spec(cache, rows, a).0, rows),
{
    let c2 = resolve_spec(cache, rows, a).0;
    if !has_alias(cache, a) && has_alias(rows, a) {
        let j = crate::model::alias_index(rows, a);
        assert(0 <= j < rows.len() && rows[j] == mapping_of(rows, a));
        assert forall|i: int| 0 <= i < c2.len() implies appears_in(#[trigger] c2[i], rows) by {
            if i < cache.len() {
                assert(c2[i] == cache[i]);
                assert(appears_in(cache[i], rows));
            } else {
                assert(c2[i] == mapping_of(rows, a));
                assert(rows[j] == c2[i]);
            }
        }
    }
}

/// Law: a registration keeps any consistent cache consistent — the store's
/// rows only ever grow.
pub proof fn lemma_register_preserves_consistency(
    cache: Seq<UrlModel>,
    rows: Seq<UrlModel>,
    url: Seq<char>,
    url_ok: bool,
    alias: Seq<char>,
    robots: bool,
)
    requires
        cache_consistent(cache, rows),
    ensures
        cache_consistent(cache, register_spec(rows, url, url_ok, alias, robots).0),
{
    let rows2 = register_spec(rows, url, url_ok, alias, robots).0;
    assert forall|i: int| 0 <= i < cache.len() implies appears_in(#[trigger] cache[i], rows2) by {
        assert(appears_in(cache[i], rows));
        let k = choose|k: int| 0 <= k < rows.len() && rows[k] == cache[i];
        assert(0 <= k < rows2.len() && rows2[k] == cache[i]);
    }
}

} // verus!
