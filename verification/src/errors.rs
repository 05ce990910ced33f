use vstd::prelude::*;

verus! {

/// Closed taxonomy of failures the core can report.
///
/// - `InvalidInput`: the destination is not a syntactically valid URL, or the
///   alias breaks the length or format rules. Client-caused, no retry.
/// - `Conflict`: the alias is already registered; the client must pick another.
/// - `NotFound`: a resolution was asked for an alias with no mapping.
/// - `StoreError`: the record store refused an operation (its own uniqueness
///   constraint is the final backstop against concurrent registration races).
#[derive(Clone, Copy, Debug, PartialEq, Eq, Structural)]
pub enum UrlError {
    InvalidInput,
    Conflict,
    NotFound,
    StoreError,
}

} // verus!
