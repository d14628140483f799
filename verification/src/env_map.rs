//! Environment-variable maps.
//!
//! A small association map from variable names to values, viewed in
//! specifications as a `Map<Seq<char>, Seq<char>>`. Merging one map into
//! another overwrites matching keys with the incoming value, which is the
//! precedence rule of the mod-set environment merge.

use vstd::prelude::*;

verus! {

/// A value keyed by the view of the last entry carrying that key.
pub open spec fn spec_entry_get(s: Seq<(String, String)>, k: Seq<char>) -> Option<Seq<char>>
    decreases s.len(),
{
    if s.len() == 0 {
        None
    } else if s.last().0@ == k {
        Some(s.last().1@)
    } else {
        spec_entry_get(s.drop_last(), k)
    }
}

/// The map an entry list denotes.
pub open spec fn spec_map_of(s: Seq<(String, String)>) -> Map<Seq<char>, Seq<char>> {
    Map::new(
        |k: Seq<char>| spec_entry_get(s, k) is Some,
        |k: Seq<char>| spec_entry_get(s, k).unwrap(),
    )
}

/// No two entries carry the same key.
pub open spec fn spec_unique_keys(s: Seq<(String, String)>) -> bool {
    forall|i: int, j: int| 0 <= i < j < s.len() ==> s[i].0@ != s[j].0@
}

proof fn lemma_get_present(s: Seq<(String, String)>, i: int)
    requires
        spec_unique_keys(s),
        0 <= i < s.len(),
    ensures
        spec_entry_get(s, s[i].0@) == Some(s[i].1@),
    decreases s.len(),
{
    if i == s.len() - 1 {
    } else {
        assert(s.last().0@ != s[i].0@);
        assert(s.drop_last()[i] == s[i]);
        lemma_get_present(s.drop_last(), i);
    }
}

proof fn lemma_get_absent(s: Seq<(String, String)>, k: Seq<char>)
    requires
        forall|i: int| 0 <= i < s.len() ==> s[i].0@ != k,
    ensures
        spec_entry_get(s, k) == None::<Seq<char>>,
    decreases s.len(),
{
    if s.len() > 0 {
        lemma_get_absent(s.drop_last(), k);
    }
}

proof fn lemma_get_update(s: Seq<(String, String)>, i: int, e: (String, String), k: Seq<char>)
    requires
        spec_unique_keys(s),
        0 <= i < s.len(),
        e.0@ == s[i].0@,
    ensures
        spec_entry_get(s.update(i, e), k) == (if k == e.0@ {
            Some(e.1@)
        } else {
            spec_entry_get(s, k)
        }),
    decreases s.len(),
{
    let s2 = s.update(i, e);
    if i == s.len() - 1 {
        assert(s2.last() == e);
        assert(s2.drop_last() =~= s.drop_last());
    } else {
        assert(s2.last() == s.last());
        assert(s2.drop_last() =~= s.drop_last().update(i, e));
        assert(s.drop_last()[i] == s[i]);
        lemma_get_update(s.drop_last(), i, e, k);
        if k == e.0@ {
            assert(s.last().0@ != s[i].0@);
        }
    }
}

proof fn lemma_get_push(s: Seq<(String, String)>, e: (String, String), k: Seq<char>)
    ensures
        spec_entry_get(s.push(e), k) == (if k == e.0@ {
            Some(e.1@)
        } else {
            spec_entry_get(s, k)
        }),
{
    assert(s.push(e).drop_last() =~= s);
    assert(s.push(e).last() == e);
}

/// Environment-variable map with insertion-overwrites semantics.
pub struct EnvMap {
    entries: Vec<(String, String)>,
}

impl View for EnvMap {
    type V = Map<Seq<char>, Seq<char>>;

    closed spec fn view(&self) -> Map<Seq<char>, Seq<char>> {
        spec_map_of(self.entries@)
    }
}

impl EnvMap {
    #[verifier::type_invariant]
    closed spec fn wf(&self) -> bool {
        spec_unique_keys(self.entries@)
    }

    /// The empty environment.
    pub fn new() -> (r: EnvMap)
        ensures
            r@ == Map::<Seq<char>, Seq<char>>::empty(),
    {
        let r = EnvMap { entries: Vec::new() };
        proof {
            assert(r@ =~= Map::<Seq<char>, Seq<char>>::empty());
        }
        r
    }

    /// Set `k` to `v`, overwriting any earlier value of `k`.
    pub fn insert(&mut self, k: String, v: String)
        ensures
            final(self)@ == old(self)@.insert(k@, v@),
    {
        proof {
            use_type_invariant(&*self);
        }
        let mut work: Vec<(String, String)> = Vec::new();
        std::mem::swap(&mut work, &mut self.entries);
        let ghost s0 = work@;
        let mut idx: usize = 0;
        let len = work.len();
        while idx < len
            invariant
                spec_unique_keys(s0),
                work@ == s0,
                s0 == old(self).entries@,
                len == s0.len(),
                idx <= len,
                forall|j: int| 0 <= j < idx ==> s0[j].0@ != k@,
            decreases len - idx,
        {
            if work[idx].0 == k {
                let e = (k, v);
                proof {
                    assert forall|kk: Seq<char>| #[trigger] spec_entry_get(
                        s0.update(idx as int, e),
                        kk,
                    ) == (if kk == e.0@ {
                        Some(e.1@)
                    } else {
                        spec_entry_get(s0, kk)
                    }) by {
                        lemma_get_update(s0, idx as int, e, kk);
                    }
                }
                work[idx] = e;
                self.entries = work;
                proof {
                    assert(self@ =~= old(self)@.insert(e.0@, e.1@));
                }
                return;
            }
            idx = idx + 1;
        }
        let e = (k, v);
        proof {
            assert forall|kk: Seq<char>| #[trigger] spec_entry_get(s0.push(e), kk) == (if kk
                == e.0@ {
                Some(e.1@)
            } else {
                spec_entry_get(s0, kk)
            }) by {
                lemma_get_push(s0, e, kk);
            }
        }
        work.push(e);
        self.entries = work;
        proof {
            assert(self@ =~= old(self)@.insert(e.0@, e.1@));
        }
    }

    /// Look the variable `k` up.
    pub fn get(&self, k: &str) -> (r: Option<&String>)
        ensures
            match r {
                Some(v) => self@.contains_key(k@) && v@ == self@[k@],
                None => !self@.contains_key(k@),
            },
    {
        proof {
            use_type_invariant(self);
        }
        let key = k.to_owned();
        let mut idx: usize = 0;
        let len = self.entries.len();
        while idx < len
            invariant
                spec_unique_keys(self.entries@),
                key@ == k@,
                len == self.entries@.len(),
                idx <= len,
                forall|j: int| 0 <= j < idx ==> self.entries@[j].0@ != k@,
            decreases len - idx,
        {
            if self.entries[idx].0 == key {
                proof {
                    lemma_get_present(self.entries@, idx as int);
                }
                return Some(&self.entries[idx].1);
            }
            idx = idx + 1;
        }
        proof {
            lemma_get_absent(self.entries@, k@);
        }
        None
    }

    /// Merge `other` into `self`; on a key collision the value from `other`
    /// wins.
    pub fn merge_from(&mut self, other: &EnvMap)
        ensures
            final(self)@ == old(self)@.union_prefer_right(other@),
    {
        proof {
            use_type_invariant(other);
        }
        let mut idx: usize = 0;
        let len = other.entries.len();
        proof {
            assert(self@ =~= old(self)@.union_prefer_right(spec_map_of(other.entries@.take(0))));
        }
        while idx < len
            invariant
                spec_unique_keys(other.entries@),
                len == other.entries@.len(),
                idx <= len,
                self@ == old(self)@.union_prefer_right(spec_map_of(other.entries@.take(idx as int))),
            decreases len - idx,
        {
            let k = other.entries[idx].0.clone();
            let v = other.entries[idx].1.clone();
            let ghost prefix = other.entries@.take(idx as int);
            self.insert(k, v);
            proof {
                let e = other.entries@[idx as int];
                assert(other.entries@.take(idx + 1 as int).drop_last() =~= prefix);
                assert(other.entries@.take(idx + 1 as int).last() == e);
                assert(forall|kk: Seq<char>| #[trigger] spec_entry_get(
                    other.entries@.take(idx + 1 as int),
                    kk,
                ) == (if kk == e.0@ {
                    Some(e.1@)
                } else {
                    spec_entry_get(prefix, kk)
                }));
                assert(spec_map_of(other.entries@.take(idx + 1 as int)) =~= spec_map_of(
                    prefix,
                ).insert(e.0@, e.1@));
                assert(self@ =~= old(self)@.union_prefer_right(
                    spec_map_of(other.entries@.take(idx + 1 as int)),
                ));
            }
            idx = idx + 1;
        }
        proof {
            assert(other.entries@.take(len as int) =~= other.entries@);
        }
    }

    /// The entries as plain pairs, each bound in the map.
    pub fn entries(&self) -> (r: &Vec<(String, String)>)
        ensures
            forall|i: int|
                0 <= i < r@.len() ==> self@.contains_key(#[trigger] r@[i].0@) && self@[r@[i].0@]
                    == r@[i].1@,
    {
        proof {
            use_type_invariant(self);
            assert forall|i: int|
                0 <= i < self.entries@.len() implies self@.contains_key(
                #[trigger] self.entries@[i].0@,
            ) && self@[self.entries@[i].0@] == self.entries@[i].1@ by {
                lemma_get_present(self.entries@, i);
            }
        }
        &self.entries
    }
}

impl Clone for EnvMap {
    /// An exact copy: the clone denotes the same map.
    fn clone(&self) -> (res: Self)
        ensures
            res@ == self@,
    {
        proof {
            use_type_invariant(self);
        }
        let mut copied: Vec<(String, String)> = Vec::new();
        let mut idx: usize = 0;
        let len = self.entries.len();
        while idx < len
            invariant
                len == self.entries@.len(),
                idx <= len,
                copied@ == self.entries@.take(idx as int),
            decreases len - idx,
        {
            let k = self.entries[idx].0.clone();
            let v = self.entries[idx].1.clone();
            copied.push((k, v));
            proof {
                assert(copied@ =~= self.entries@.take(idx + 1 as int));
            }
            idx = idx + 1;
        }
        proof {
            assert(copied@ =~= self.entries@);
        }
        EnvMap { entries: copied }
    }
}

} // verus!
