use vstd::prelude::*;
use crate::errors::UrlError;
use crate::model::{has_alias, result_model, Url, UrlModel};
use crate::store::RecordStore;
use crate::validate::{alias_ok, url_syntax_ok, validate_registration};

verus! {

/// What registration does to the store: the new rows and the outcome.
///
/// Validation short-circuits in order (URL syntax, alias length, alias
/// format), each failure reported as `InvalidInput`; a taken alias is a
/// `Conflict`; otherwise the mapping is appended with the next id. The rows
/// are unchanged on every rejection.
pub open spec fn register_spec(
    rows: Seq<UrlModel>,
    url: Seq<char>,
    url_ok: bool,
    alias: Seq<char>,
    robots: bool,
) -> (Seq<UrlModel>, Result<UrlModel, UrlError>) {
    if !url_ok || !alias_ok(alias) {
        (rows, Err(UrlError::InvalidInput))
    } else if has_alias(rows, alias) {
        (rows, Err(UrlError::Conflict))
    } else {
        let m = UrlModel {
            id: rows.len() as int + 1,
            url: url,
            short_url: alias,
            robots_allowed: robots,
            robots_html: None,
        };
        (rows.push(m), Ok(m))
    }
}

/// Validate a candidate `(url, short_url, robots_allowed)` triple and, when
/// it passes, persist it: query the store for the alias (a fast, friendly
/// conflict answer), then insert.
///
/// Exactly one store insert happens on success and none on a rejection; the
/// uniqueness lookup is made only once validation has passed. Under the
/// exclusive access this function holds on the store, the check-then-insert
/// sequence is atomic, so the store's own constraint backstop cannot fire
/// here; with a store shared by concurrent registrants the backstop is what
/// finally guarantees uniqueness.
pub fn register(
    store: &mut RecordStore,
    url: String,
    short_url: String,
    robots_allowed: bool,
) -> (r: Result<Url, UrlError>)
    requires
        old(store).wf(),
        old(store).read_count() < u64::MAX,
        old(store).rows_model().len() < i32::MAX,
    ensures
        final(store).wf(),
        final(store).rows_model() == register_spec(
            old(store).rows_model(),
            url@,
            url_syntax_ok(url@),
            short_url@,
            robots_allowed,
        ).0,
        result_model(r) == register_spec(
            old(store).rows_model(),
            url@,
            url_syntax_ok(url@),
            short_url@,
            robots_allowed,
        ).1,
        final(store).read_count() == old(store).read_count() + (
        if url_syntax_ok(url@) && alias_ok(short_url@) {
            1int
        } else {
            0int
        }),
{
    if let Err(e) = validate_registration(&url, &short_url) {
        return Err(e);
    }
    match store.find_by_alias(&short_url) {
        Some(_) => Err(UrlError::Conflict),
        None => store.insert(url, short_url, robots_allowed),
    }
}

} // verus!
