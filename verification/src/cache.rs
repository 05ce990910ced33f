use vstd::prelude::*;
use crate::model::{has_alias, lemma_mapping_at, mapping_of, unique_aliases, Url, UrlModel};

verus! {

/// The process-local alias cache: a read-through map from alias to mapping,
/// populated lazily on lookup miss and never evicted.
///
/// The cache itself is single-threaded data; the boundary that shares it
/// between concurrent tasks wraps it in one mutual-exclusion lock and holds
/// the lock across a whole probe-and-possibly-populate sequence.
pub struct AliasCache {
    pub entries: Vec<Url>,
}

impl AliasCache {
    /// The cached mappings, as models, in population order.
    pub open spec fn entries_model(self) -> Seq<UrlModel> {
        self.entries@.map_values(|u: Url| u@)
    }

    /// Well-formedness: no alias is cached twice.
    pub open spec fn wf(self) -> bool {
        unique_aliases(self.entries_model())
    }

    /// An empty cache.
    pub fn new() -> (c: AliasCache)
        ensures
            c.wf(),
            c.entries_model() == Seq::<UrlModel>::empty(),
    {
        let c = AliasCache { entries: Vec::new() };
        proof {
            assert(c.entries_model() =~= Seq::<UrlModel>::empty());
        }
        c
    }

    /// How many aliases are cached.
    pub fn len(&self) -> (n: usize)
        ensures
            n == self.entries_model().len(),
    {
        self.entries.len()
    }

    /// Probe the cache: the mapping cached under the alias, or nothing.
    pub fn get(&self, alias: &String) -> (r: Option<&Url>)
        requires
            self.wf(),
        ensures
            has_alias(self.entries_model(), alias@) ==> (r matches Some(u) && u@ == mapping_of(
                self.entries_model(),
                alias@,
            )),
            !has_alias(self.entries_model(), alias@) ==> r is None,
    {
        let n: usize = self.entries.len();
        let mut i: usize = 0;
        while i < n
            invariant
                self.wf(),
                n == self.entries_model().len(),
                0 <= i <= n,
                forall|j: int|
                    0 <= j < i ==> (#[trigger] self.entries_model()[j]).short_url != alias@,
            decreases n - i,
        {
            if self.entries[i].short_url == *alias {
                proof {
                    lemma_mapping_at(self.entries_model(), alias@, i as int);
                }
                return Some(&self.entries[i]);
            }
            i += 1;
        }
        proof {
            if has_alias(self.entries_model(), alias@) {
                let j = crate::model::alias_index(self.entries_model(), alias@);
                assert(self.entries_model()[j].short_url != alias@);
            }
        }
        None
    }

    /// Populate the cache with a mapping whose alias is not yet cached.
    pub fn put(&mut self, mapping: Url)
        requires
            old(self).wf(),
            !has_alias(old(self).entries_model(), mapping.short_url@),
        ensures
            final(self).wf(),
            final(self).entries_model() == old(self).entries_model().push(mapping@),
    {
        let ghost pre = self.entries_model();
        let ghost m = mapping@;
        self.entries.push(mapping);
        proof {
            assert(self.entries_model() =~= pre.push(m));
            assert(unique_aliases(self.entries_model())) by {
                let all = self.entries_model();
                assert forall|i: int, j: int| 0 <= i < j < all.len() implies all[i].short_url
                    != all[j].short_url by {
                    if j < pre.len() {
                        assert(pre[i].short_url != pre[j].short_url);
                    } else {
                        assert(all[j] == m);
                        if all[i].short_url == m.short_url {
                            assert(has_alias(pre, m.short_url)) by {
                                assert(0 <= i < pre.len() && pre[i].short_url == m.short_url);
                            }
                        }
                    }
                }
            }
        }
    }
}

} // verus!
