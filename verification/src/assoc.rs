//! A name-keyed table: an association vector with pairwise-distinct keys,
//! viewed as a `Map` from key characters to values.  Insertion overwrites an
//! existing entry under the same key, as a hash table would.

use vstd::prelude::*;

verus! {

/// The keys of `entries` are pairwise distinct.
pub open spec fn distinct_keys<V>(entries: Seq<(Seq<char>, V)>) -> bool {
    forall|i: int, j: int|
        0 <= i < j < entries.len() ==> (#[trigger] entries[i]).0 != (#[trigger] entries[j]).0
}

/// The map denoted by an entry sequence; a later entry under the same key
/// wins.
pub open spec fn assoc_view<V>(entries: Seq<(Seq<char>, V)>) -> Map<Seq<char>, V>
    decreases entries.len(),
{
    if entries.len() == 0 {
        Map::empty()
    } else {
        assoc_view(entries.drop_last()).insert(entries.last().0, entries.last().1)
    }
}

/// With distinct keys, the denoted map holds exactly the entries.
pub proof fn lemma_assoc_props<V>(entries: Seq<(Seq<char>, V)>)
    ensures
        forall|k: Seq<char>|
            #[trigger] assoc_view(entries).contains_key(k) ==> exists|j: int|
                0 <= j < entries.len() && (#[trigger] entries[j]).0 == k,
        distinct_keys(entries) ==> forall|j: int|
            0 <= j < entries.len() ==> assoc_view(entries).contains_key((#[trigger] entries[j]).0)
                && assoc_view(entries)[entries[j].0] == entries[j].1,
        assoc_view(entries).dom().finite(),
        distinct_keys(entries) ==> assoc_view(entries).dom().len() == entries.len(),
    decreases entries.len(),
{
    if entries.len() == 0 {
    } else {
        let pre = entries.drop_last();
        lemma_assoc_props(pre);
        assert(forall|j: int| 0 <= j < pre.len() ==> #[trigger] pre[j] == entries[j]);
        if distinct_keys(entries) {
            assert(distinct_keys(pre));
            assert forall|j: int| 0 <= j < entries.len() implies assoc_view(entries).contains_key(
                (#[trigger] entries[j]).0,
            ) && assoc_view(entries)[entries[j].0] == entries[j].1 by {
                if j < entries.len() - 1 {
                    assert(assoc_view(pre).contains_key(pre[j].0));
                    assert(entries[j].0 != entries.last().0);
                }
            }
            assert(!assoc_view(pre).contains_key(entries.last().0)) by {
                if assoc_view(pre).contains_key(entries.last().0) {
                    let j = choose|j: int|
                        0 <= j < pre.len() && (#[trigger] pre[j]).0 == entries.last().0;
                    assert(entries[j].0 == entries[entries.len() - 1].0);
                }
            }
            assert(assoc_view(entries).dom() =~= assoc_view(pre).dom().insert(entries.last().0));
            vstd::set::axiom_set_insert_len(assoc_view(pre).dom(), entries.last().0);
        } else {
            assert(assoc_view(entries).dom() =~= assoc_view(pre).dom().insert(entries.last().0));
            vstd::set::axiom_set_insert_len(assoc_view(pre).dom(), entries.last().0);
        }
    }
}

proof fn lemma_assoc_remove<V>(entries: Seq<(Seq<char>, V)>, j: int)
    requires
        distinct_keys(entries),
        0 <= j < entries.len(),
    ensures
        assoc_view(entries) == assoc_view(entries.remove(j)).insert(entries[j].0, entries[j].1),
    decreases entries.len(),
{
    if j == entries.len() - 1 {
        assert(entries.remove(j) =~= entries.drop_last());
    } else {
        let pre = entries.drop_last();
        assert(forall|i: int| 0 <= i < pre.len() ==> #[trigger] pre[i] == entries[i]);
        assert(distinct_keys(pre));
        lemma_assoc_remove(pre, j);
        assert(entries.remove(j).drop_last() =~= pre.remove(j));
        assert(entries.remove(j).last() == entries.last());
        assert(assoc_view(entries.remove(j)) == assoc_view(pre.remove(j)).insert(
            entries.last().0,
            entries.last().1,
        ));
        assert(entries[j].0 != entries.last().0);
        assert(assoc_view(pre.remove(j)).insert(entries.last().0, entries.last().1).insert(
            entries[j].0,
            entries[j].1,
        ) =~= assoc_view(pre.remove(j)).insert(entries[j].0, entries[j].1).insert(
            entries.last().0,
            entries.last().1,
        ));
    }
}

/// A table keyed by names, with at most one entry per name.
#[derive(Debug)]
pub struct AssocVec<T> {
    entries: Vec<(String, T)>,
}

impl<T: DeepView> View for AssocVec<T> {
    type V = Map<Seq<char>, T::V>;

    closed spec fn view(&self) -> Map<Seq<char>, T::V> {
        assoc_view(self.kv())
    }
}

impl<T: DeepView> AssocVec<T> {
    /// The entry sequence, with keys and values taken to their views.
    pub closed spec fn kv(&self) -> Seq<(Seq<char>, T::V)> {
        self.entries@.map_values(|e: (String, T)| (e.0@, e.1.deep_view()))
    }

    /// The table's invariant: no two entries share a key.
    pub open spec fn wf(&self) -> bool {
        distinct_keys(self.kv())
    }

    /// An empty table.
    pub fn new() -> (r: AssocVec<T>)
        ensures
            r.wf(),
            r@ == Map::<Seq<char>, T::V>::empty(),
            r.kv() == Seq::<(Seq<char>, T::V)>::empty(),
    {
        let r = AssocVec { entries: Vec::new() };
        proof {
            assert(r.kv() =~= Seq::<(Seq<char>, T::V)>::empty());
        }
        r
    }

    /// The number of entries, which is the size of the denoted map.
    pub fn len(&self) -> (r: usize)
        requires
            self.wf(),
        ensures
            r == self@.dom().len(),
    {
        proof {
            lemma_assoc_props(self.kv());
        }
        self.entries.len()
    }

    /// Insert a value under a name, overwriting any entry with that name.
    pub fn insert(&mut self, key: String, value: T)
        requires
            old(self).wf(),
        ensures
            final(self).wf(),
            final(self)@ == old(self)@.insert(key@, value.deep_view()),
    {
        let ghost old_kv = self.kv();
        let n = self.entries.len();
        let mut j: usize = 0;
        while j < n
            invariant
                0 <= j <= n,
                n == self.entries@.len(),
                old_kv == self.kv(),
                old_kv == old(self).kv(),
                distinct_keys(old_kv),
                forall|m: int| 0 <= m < j ==> (#[trigger] self.kv()[m]).0 != key@,
            decreases n - j,
        {
            if self.entries[j].0.eq(&key) {
                proof {
                    lemma_assoc_remove(old_kv, j as int);
                    assert(old_kv[j as int].0 == key@);
                }
                let _ = self.entries.remove(j);
                self.entries.push((key, value));
                proof {
                    assert(self.kv() =~= old_kv.remove(j as int).push(
                        (key@, value.deep_view()),
                    )) by {
                        assert(forall|m: int|
                            0 <= m < old_kv.len() - 1 ==> (#[trigger] old_kv.remove(j as int)[m])
                                == if m < j {
                                old_kv[m]
                            } else {
                                old_kv[m + 1]
                            });
                    }
                    assert(distinct_keys(old_kv.remove(j as int)));
                    assert forall|i1: int, i2: int|
                        0 <= i1 < i2 < self.kv().len() implies (#[trigger] self.kv()[i1]).0 != (
                    #[trigger] self.kv()[i2]).0 by {
                        if i2 == self.kv().len() - 1 {
                            let m1 = if i1 < j {
                                i1
                            } else {
                                i1 + 1
                            };
                            assert(old_kv[m1].0 != key@);
                        }
                    }
                    assert(self.kv().len() > 0);
                    assert(self.kv().drop_last() =~= old_kv.remove(j as int));
                    assert(self.kv().last() == (key@, value.deep_view()));
                    assert(assoc_view(self.kv()) == assoc_view(old_kv.remove(j as int)).insert(
                        key@,
                        value.deep_view(),
                    ));
                    assert(assoc_view(old_kv.remove(j as int)).insert(
                        old_kv[j as int].0,
                        old_kv[j as int].1,
                    ).insert(key@, value.deep_view()) =~= assoc_view(
                        old_kv.remove(j as int),
                    ).insert(key@, value.deep_view()));
                    assert(assoc_view(old_kv).insert(key@, value.deep_view()) == assoc_view(
                        self.kv(),
                    ));
                    assert(old(self)@ == assoc_view(old_kv));
                }
                return ;
            }
            j = j + 1;
        }
        self.entries.push((key, value));
        proof {
            assert(self.kv() =~= old_kv.push((key@, value.deep_view())));
            assert(forall|m: int| 0 <= m < old_kv.len() ==> (#[trigger] old_kv[m]).0 != key@);
            assert(self.kv().drop_last() =~= old_kv);
        }
    }

    /// Look a name up.
    pub fn get(&self, key: &str) -> (r: Option<&T>)
        requires
            self.wf(),
        ensures
            match r {
                Some(v) => self@.contains_key(key@) && self@[key@] == v.deep_view(),
                None => !self@.contains_key(key@),
            },
    {
        proof {
            lemma_assoc_props(self.kv());
        }
        let n = self.entries.len();
        let mut j: usize = 0;
        while j < n
            invariant
                0 <= j <= n,
                n == self.entries@.len(),
                self.wf(),
                forall|m: int| 0 <= m < j ==> (#[trigger] self.kv()[m]).0 != key@,
            decreases n - j,
        {
            if self.entries[j].0.eq(&key.to_owned()) {
                proof {
                    lemma_assoc_props(self.kv());
                    assert(self.kv()[j as int].0 == key@);
                }
                return Some(&self.entries[j].1);
            }
            j = j + 1;
        }
        proof {
            if self@.contains_key(key@) {
                lemma_assoc_props(self.kv());
                let m = choose|m: int|
                    0 <= m < self.kv().len() && (#[trigger] self.kv()[m]).0 == key@;
                assert(false);
            }
        }
        None
    }
}

} // verus!
