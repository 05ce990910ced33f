use vstd::prelude::*;
use crate::cache::AliasCache;
use crate::errors::UrlError;
use crate::model::{has_alias, mapping_of, result_model, Url, UrlModel};
use crate::store::RecordStore;

verus! {

/// What a resolution does: the cache afterwards, the outcome, and whether
/// the store was read.
///
/// A cached alias is served from the cache with no store read. On a miss the
/// store is read once: if it holds the alias the mapping is cached and
/// returned, otherwise the lookup fails with `NotFound` and the cache is
/// left untouched.
pub open spec fn resolve_spec(cache: Seq<UrlModel>, rows: Seq<UrlModel>, a: Seq<char>) -> (
    Seq<UrlModel>,
    Result<UrlModel, UrlError>,
    bool,
) {
    if has_alias(cache, a) {
        (cache, Ok(mapping_of(cache, a)), false)
    } else if has_alias(rows, a) {
        (cache.push(mapping_of(rows, a)), Ok(mapping_of(rows, a)), true)
    } else {
        (cache, Err(UrlError::NotFound), true)
    }
}

/// Resolve an alias to its mapping for redirect purposes: probe the cache,
/// fall back to the store on a miss, and populate the cache from a
/// successful store read.
///
/// The caller holds exclusive access to the cache for the whole
/// probe-and-possibly-populate sequence (the `&mut` borrow is the critical
/// section), so no partial cache state is ever observable. The store's rows
/// are never changed; its lookup counter says whether this resolution read
/// the store.
pub fn resolve(cache: &mut AliasCache, store: &mut RecordStore, short_url: &String) -> (r: Result<
    Url,
    UrlError,
>)
    requires
        old(cache).wf(),
        old(store).wf(),
        old(store).read_count() < u64::MAX,
    ensures
        final(cache).wf(),
        final(store).wf(),
        final(store).rows_model() == old(store).rows_model(),
        final(cache).entries_model() == resolve_spec(
            old(cache).entries_model(),
            old(store).rows_model(),
            short_url@,
        ).0,
        result_model(r) == resolve_spec(
            old(cache).entries_model(),
            old(store).rows_model(),
            short_url@,
        ).1,
        final(store).read_count() == old(store).read_count() + (
        if resolve_spec(old(cache).entries_model(), old(store).rows_model(), short_url@).2 {
            1int
        } else {
            0int
        }),
{
    if let Some(u) = cache.get(short_url) {
        return Ok(u.clone());
    }
    match store.find_by_alias(short_url) {
        Some(u) => {
            let ret = u.clone();
            proof {
                let rows = old(store).rows_model();
                let j = crate::model::alias_index(rows, short_url@);
                assert(0 <= j < rows.len() && rows[j].short_url == short_url@);
            }
            cache.put(u);
            Ok(ret)
        },
        None => Err(UrlError::NotFound),
    }
}

} // verus!
