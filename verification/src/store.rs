use vstd::prelude::*;
use crate::errors::UrlError;
use crate::model::{
    alias_count, has_alias, lemma_alias_count, lemma_mapping_at, mapping_of, unique_aliases, Url,
    UrlModel,
};

verus! {

/// The durable record store, modeled as an in-memory relation of mappings.
///
/// It owns two invariants the rest of the core relies on: aliases are unique
/// across rows (the store-level constraint that finally guarantees
/// uniqueness), and ids are assigned by the store in insertion order,
/// starting from 1. A counter records how many point lookups were served, so
/// that callers can account for store traffic.
pub struct RecordStore {
    pub rows: Vec<Url>,
    pub reads: u64,
}

impl RecordStore {
    /// The relation's rows, as models, in insertion order.
    pub open spec fn rows_model(self) -> Seq<UrlModel> {
        self.rows@.map_values(|u: Url| u@)
    }

    /// How many point lookups the store has served.
    pub open spec fn read_count(self) -> u64 {
        self.reads
    }

    /// Well-formedness: aliases unique, ids assigned in insertion order.
    pub open spec fn wf(self) -> bool {
        &&& unique_aliases(self.rows_model())
        &&& forall|i: int|
            0 <= i < self.rows_model().len() ==> (#[trigger] self.rows_model()[i]).id == i + 1
    }

    /// An empty store.
    pub fn new() -> (s: RecordStore)
        ensures
            s.wf(),
            s.rows_model() == Seq::<UrlModel>::empty(),
            s.read_count() == 0,
    {
        let s = RecordStore { rows: Vec::new(), reads: 0 };
        proof {
            assert(s.rows_model() =~= Seq::<UrlModel>::empty());
        }
        s
    }

    /// How many rows the store holds.
    pub fn len(&self) -> (n: usize)
        ensures
            n == self.rows_model().len(),
    {
        self.rows.len()
    }

    /// How many point lookups the store has served so far, for accounting
    /// store traffic.
    pub fn reads_served(&self) -> (n: u64)
        ensures
            n == self.read_count(),
    {
        self.reads
    }

    /// Whether some row carries the alias. This is the store's own
    /// constraint check; it does not count as a served lookup.
    pub fn contains_alias(&self, alias: &String) -> (r: bool)
        ensures
            r == has_alias(self.rows_model(), alias@),
    {
        let n: usize = self.rows.len();
        let mut i: usize = 0;
        while i < n
            invariant
                n == self.rows_model().len(),
                0 <= i <= n,
                forall|j: int| 0 <= j < i ==> (#[trigger] self.rows_model()[j]).short_url != alias@,
            decreases n - i,
        {
            if self.rows[i].short_url == *alias {
                proof {
                    assert(self.rows_model()[i as int].short_url == alias@);
                }
                return true;
            }
            i += 1;
        }
        proof {
            if has_alias(self.rows_model(), alias@) {
                let j = crate::model::alias_index(self.rows_model(), alias@);
                assert(self.rows_model()[j].short_url != alias@);
            }
        }
        false
    }

    /// How many rows carry the alias.
    pub fn count_alias(&self, alias: &String) -> (n: usize)
        ensures
            n == alias_count(self.rows_model(), alias@),
    {
        let len: usize = self.rows.len();
        let mut i: usize = 0;
        let mut c: usize = 0;
        while i < len
            invariant
                len == self.rows_model().len(),
                0 <= i <= len,
                c <= i,
                c == alias_count(self.rows_model().take(i as int), alias@),
            decreases len - i,
        {
            proof {
                let m = self.rows_model();
                assert(m.take(i + 1).drop_last() =~= m.take(i as int));
                assert(m.take(i + 1).last() == m[i as int]);
            }
            if self.rows[i].short_url == *alias {
                c += 1;
            }
            i += 1;
        }
        proof {
            assert(self.rows_model().take(len as int) =~= self.rows_model());
        }
        c
    }

    /// Point lookup by alias: returns the stored mapping, or nothing when
    /// the alias is absent. Counts as one served lookup.
    pub fn find_by_alias(&mut self, alias: &String) -> (r: Option<Url>)
        requires
            old(self).wf(),
            old(self).read_count() < u64::MAX,
        ensures
            final(self).wf(),
            final(self).rows_model() == old(self).rows_model(),
            final(self).read_count() == old(self).read_count() + 1,
            has_alias(old(self).rows_model(), alias@) ==> (r matches Some(u) && u@
                == mapping_of(old(self).rows_model(), alias@)),
            !has_alias(old(self).rows_model(), alias@) ==> r is None,
    {
        self.reads = self.reads + 1;
        let n: usize = self.rows.len();
        let mut i: usize = 0;
        while i < n
            invariant
                self.rows_model() == old(self).rows_model(),
                self.reads == old(self).read_count() + 1,
                n == self.rows_model().len(),
                0 <= i <= n,
                self.wf(),
                forall|j: int| 0 <= j < i ==> (#[trigger] self.rows_model()[j]).short_url != alias@,
            decreases n - i,
        {
            if self.rows[i].short_url == *alias {
                let u = self.rows[i].clone();
                proof {
                    lemma_mapping_at(self.rows_model(), alias@, i as int);
                }
                return Some(u);
            }
            i += 1;
        }
        proof {
            if has_alias(self.rows_model(), alias@) {
                let j = crate::model::alias_index(self.rows_model(), alias@);
                assert(self.rows_model()[j].short_url != alias@);
            }
        }
        None
    }

    /// Insert a new mapping and return the stored record, id included.
    /// The store enforces its uniqueness constraint itself: an insert for an
    /// alias already present fails with `StoreError` and changes nothing.
    pub fn insert(&mut self, url: String, short_url: String, robots_allowed: bool) -> (r: Result<
        Url,
        UrlError,
    >)
        requires
            old(self).wf(),
            old(self).rows_model().len() < i32::MAX,
        ensures
            final(self).wf(),
            final(self).read_count() == old(self).read_count(),
            has_alias(old(self).rows_model(), short_url@) ==> (r == Err::<Url, UrlError>(
                UrlError::StoreError,
            ) && final(self).rows_model() == old(self).rows_model()),
            !has_alias(old(self).rows_model(), short_url@) ==> (r matches Ok(u) && u@ == (UrlModel {
                id: old(self).rows_model().len() as int + 1,
                url: url@,
                short_url: short_url@,
                robots_allowed: robots_allowed,
                robots_html: None::<Seq<char>>,
            }) && final(self).rows_model() == old(self).rows_model().push(u@) && alias_count(
                final(self).rows_model(),
                short_url@,
            ) == 1),
    {
        if self.contains_alias(&short_url) {
            return Err(UrlError::StoreError);
        }
        let id: i32 = (self.rows.len() + 1) as i32;
        let stored = Url { id, url, short_url, robots_allowed, robots_html: None };
        let returned = stored.clone();
        let ghost pre = self.rows_model();
        let ghost m = stored@;
        self.rows.push(stored);
        proof {
            assert(self.rows_model() =~= pre.push(m));
            assert(unique_aliases(self.rows_model())) by {
                let all = self.rows_model();
                assert forall|i: int, j: int| 0 <= i < j < all.len() implies all[i].short_url
                    != all[j].short_url by {
                    if j < pre.len() {
                        assert(pre[i].short_url != pre[j].short_url);
                    } else {
                        assert(all[j] == m);
                        if all[i].short_url == m.short_url {
                            assert(has_alias(pre, m.short_url)) by {
                                assert(0 <= i < pre.len() && pre[i].short_url == m.short_url);
                            }
                        }
                    }
                }
            }
            lemma_alias_count(self.rows_model(), m.short_url);
        }
        Ok(returned)
    }

    /// All stored mappings, in insertion order, for full-scan retrieval.
    pub fn all_rows(&self) -> (r: &Vec<Url>)
        ensures
            r@.map_values(|u: Url| u@) == self.rows_model(),
    {
        &self.rows
    }
}

} // verus!
