use vstd::prelude::*;
use crate::errors::UrlError;

verus! {

/// A persisted alias mapping: the sole entity of the system.
///
/// `short_url` is the alias a client presents; `url` is the destination the
/// client is redirected to, returned verbatim. `id` is assigned by the store
/// and immutable. `robots_html` is an optional cached representation that the
/// core never populates.
#[derive(Debug)]
pub struct Url {
    pub id: i32,
    pub url: String,
    pub short_url: String,
    pub robots_allowed: bool,
    pub robots_html: Option<String>,
}

/// Mathematical model of a mapping: strings as character sequences,
/// the id as an unbounded integer.
#[verifier::ext_equal]
pub ghost struct UrlModel {
    pub id: int,
    pub url: Seq<char>,
    pub short_url: Seq<char>,
    pub robots_allowed: bool,
    pub robots_html: Option<Seq<char>>,
}

impl View for Url {
    type V = UrlModel;

    open spec fn view(&self) -> UrlModel {
        UrlModel {
            id: self.id as int,
            url: self.url@,
            short_url: self.short_url@,
            robots_allowed: self.robots_allowed,
            robots_html: match self.robots_html {
                Some(s) => Some(s@),
                None => None,
            },
        }
    }
}

impl Url {
    /// The redirect target for this mapping: the destination URL exactly as
    /// stored, unmodified and unnormalized, for the boundary to emit as the
    /// location of a permanent redirect.
    pub fn location(&self) -> (r: &String)
        ensures
            r@ == self@.url,
    {
        &self.url
    }
}

impl Clone for Url {
    fn clone(&self) -> (r: Url)
        ensures
            r@ == self@,
    {
        Url {
            id: self.id,
            url: self.url.clone(),
            short_url: self.short_url.clone(),
            robots_allowed: self.robots_allowed,
            robots_html: match &self.robots_html {
                Some(s) => Some(s.clone()),
                None => None,
            },
        }
    }
}

/// The model of a `Result` carrying a mapping: `Ok` values are abstracted
/// to their model, errors are kept as they are.
pub open spec fn result_model(r: Result<Url, UrlError>) -> Result<UrlModel, UrlError> {
    match r {
        Ok(u) => Ok(u@),
        Err(e) => Err(e),
    }
}

/// Whether some row of the relation carries the alias.
pub open spec fn has_alias(rows: Seq<UrlModel>, a: Seq<char>) -> bool {
    exists|i: int| 0 <= i < rows.len() && rows[i].short_url == a
}

/// The index of a row carrying the alias (the only one, when aliases are
/// unique).
pub open spec fn alias_index(rows: Seq<UrlModel>, a: Seq<char>) -> int {
    choose|i: int| 0 <= i < rows.len() && rows[i].short_url == a
}

/// The mapping stored under the alias.
pub open spec fn mapping_of(rows: Seq<UrlModel>, a: Seq<char>) -> UrlModel {
    rows[alias_index(rows, a)]
}

/// No two rows carry the same alias.
pub open spec fn unique_aliases(rows: Seq<UrlModel>) -> bool {
    forall|i: int, j: int|
        0 <= i < j < rows.len() ==> rows[i].short_url != rows[j].short_url
}

/// How many rows carry the alias.
pub open spec fn alias_count(rows: Seq<UrlModel>, a: Seq<char>) -> nat
    decreases rows.len(),
{
    if rows.len() == 0 {
        0
    } else {
        alias_count(rows.drop_last(), a) + (if rows.last().short_url == a {
            1nat
        } else {
            0nat
        })
    }
}

/// When aliases are unique, a row carrying the alias is the mapping the
/// relation stores under it.
pub proof fn lemma_mapping_at(rows: Seq<UrlModel>, a: Seq<char>, i: int)
    requires
        unique_aliases(rows),
        0 <= i < rows.len(),
        rows[i].short_url == a,
    ensures
        has_alias(rows, a),
        mapping_of(rows, a) == rows[i],
{
    assert(has_alias(rows, a)) by {
        assert(0 <= i < rows.len() && rows[i].short_url == a);
    }
    let j = alias_index(rows, a);
    assert(0 <= j < rows.len() && rows[j].short_url == a);
    if i != j {
        assert(rows[i].short_url != rows[j].short_url);
        assert(false);
    }
}

/// A row carrying the alias makes the count positive; unique aliases cap
/// the count at one.
pub proof fn lemma_alias_count(rows: Seq<UrlModel>, a: Seq<char>)
    ensures
        has_alias(rows, a) <==> alias_count(rows, a) >= 1,
        unique_aliases(rows) ==> alias_count(rows, a) <= 1,
    decreases rows.len(),
{
    if rows.len() == 0 {
        assert(!has_alias(rows, a));
    } else {
        let head = rows.drop_last();
        lemma_alias_count(head, a);
        assert(unique_aliases(rows) ==> unique_aliases(head)) by {
            if unique_aliases(rows) {
                assert(forall|i: int, j: int|
                    0 <= i < j < head.len() ==> head[i].short_url != head[j].short_url);
            }
        }
        if rows.last().short_url == a {
            assert(has_alias(rows, a)) by {
                assert(rows[rows.len() - 1].short_url == a);
            }
            if unique_aliases(rows) {
                assert(!has_alias(head, a)) by {
                    if has_alias(head, a) {
                        let i = alias_index(head, a);
                        assert(rows[i].short_url == a);
                        assert(rows[i].short_url != rows[rows.len() - 1].short_url);
                    }
                }
            }
        } else {
            assert(has_alias(rows, a) <==> has_alias(head, a)) by {
                if has_alias(rows, a) {
                    let i = alias_index(rows, a);
                    assert(i < rows.len() - 1);
                    assert(head[i].short_url == a);
                }
                if has_alias(head, a) {
                    let i = alias_index(head, a);
                    assert(rows[i].short_url == a);
                }
            }
        }
    }
}

} // verus!
