//! Selection keys and the multi-select set.

use crate::types::Section;
use crate::types::VisibleRow;
use vstd::prelude::*;

verus! {

/// A selection key's value: its section and the text of its path.
pub open spec fn key_view(k: (Section, String)) -> (Section, Seq<char>) {
    (k.0, k.1@)
}

pub open spec fn keys_view(ks: Seq<(Section, String)>) -> Seq<(Section, Seq<char>)> {
    ks.map_values(|k: (Section, String)| key_view(k))
}

pub open spec fn row_key(r: VisibleRow) -> (Section, Seq<char>) {
    (r.section, r.path@)
}

pub open spec fn rows_view(rs: Seq<VisibleRow>) -> Seq<(Section, Seq<char>)> {
    rs.map_values(|r: VisibleRow| row_key(r))
}

/// Whether two keys are equal.
pub fn same_key(a: &(Section, String), b: &(Section, String)) -> (r: bool)
    ensures
        r == (key_view(*a) == key_view(*b)),
{
    a.0 == b.0 && a.1 == b.1
}

/// A copy of a key.
pub fn clone_key(k: &(Section, String)) -> (r: (Section, String))
    ensures
        key_view(r) == key_view(*k),
{
    (k.0, k.1.clone())
}

/// The set of multi-selected keys, in the order they were added.
#[derive(Debug, Clone)]
pub struct MultiSelectSet {
    keys: Vec<(Section, String)>,
}

impl View for MultiSelectSet {
    type V = Set<(Section, Seq<char>)>;

    closed spec fn view(&self) -> Set<(Section, Seq<char>)> {
        keys_view(self.keys@).to_set()
    }
}

impl MultiSelectSet {
    /// No key is held twice.
    pub closed spec fn wf(&self) -> bool {
        keys_view(self.keys@).no_duplicates()
    }

    pub closed spec fn spec_keys(&self) -> Seq<(Section, Seq<char>)> {
        keys_view(self.keys@)
    }

    pub fn new() -> (r: MultiSelectSet)
        ensures
            r.wf(),
            r@ == Set::<(Section, Seq<char>)>::empty(),
    {
        let r = MultiSelectSet { keys: Vec::new() };
        assert(r@ =~= Set::<(Section, Seq<char>)>::empty());
        r
    }

    pub fn len(&self) -> (r: usize)
        requires
            self.wf(),
        ensures
            r == self@.len(),
    {
        proof {
            keys_view(self.keys@).unique_seq_to_set();
        }
        self.keys.len()
    }

    pub fn is_empty(&self) -> (r: bool)
        ensures
            r == (self@.len() == 0),
            r == (self@ == Set::<(Section, Seq<char>)>::empty()),
    {
        proof {
            keys_view(self.keys@).lemma_cardinality_of_set();
            if self.keys@.len() > 0 {
                assert(self@.contains(keys_view(self.keys@)[0]));
            } else {
                assert(keys_view(self.keys@) =~= Seq::<(Section, Seq<char>)>::empty());
                assert(self@ =~= Set::<(Section, Seq<char>)>::empty());
            }
        }
        self.keys.len() == 0
    }

    fn position(&self, key: &(Section, String)) -> (r: Option<usize>)
        ensures
            match r {
                Some(i) => i < self.keys@.len() && keys_view(self.keys@)[i as int] == key_view(*key),
                None => !self@.contains(key_view(*key)),
            },
    {
        let mut i: usize = 0;
        while i < self.keys.len()
            invariant
                i <= self.keys@.len(),
                forall|j: int| 0 <= j < i ==> keys_view(self.keys@)[j] != key_view(*key),
            decreases self.keys@.len() - i,
        {
            if same_key(&self.keys[i], key) {
                return Some(i);
            }
            i = i + 1;
        }
        None
    }

    pub fn contains(&self, key: &(Section, String)) -> (r: bool)
        ensures
            r == self@.contains(key_view(*key)),
    {
        self.position(key).is_some()
    }

    /// Adds `key`; `true` when it was not there.
    pub fn insert(&mut self, key: (Section, String)) -> (r: bool)
        requires
            old(self).wf(),
        ensures
            final(self).wf(),
            final(self)@ == old(self)@.insert(key_view(key)),
            r == !old(self)@.contains(key_view(key)),
    {
        match self.position(&key) {
            Some(_) => {
                assert(self@ =~= self@.insert(key_view(key)));
                false
            },
            None => {
                let ghost before = keys_view(self.keys@);
                self.keys.push(key);
                proof {
                    let after = keys_view(self.keys@);
                    assert(after =~= before.push(key_view(key)));
                    before.lemma_push_to_set_commute(key_view(key));
                    assert forall|a: int, b: int| 0 <= a < after.len() && 0 <= b < after.len() && a != b implies after[a] != after[b] by {
                        if b == after.len() - 1 {
                            assert(before.contains(before[a]));
                        } else if a == after.len() - 1 {
                            assert(before.contains(before[b]));
                        }
                    }
                }
                true
            },
        }
    }

    /// Removes `key`; `true` when it was there.
    pub fn remove(&mut self, key: &(Section, String)) -> (r: bool)
        requires
            old(self).wf(),
        ensures
            final(self).wf(),
            final(self)@ == old(self)@.remove(key_view(*key)),
            r == old(self)@.contains(key_view(*key)),
    {
        match self.position(key) {
            None => {
                assert(self@ =~= self@.remove(key_view(*key)));
                false
            },
            Some(i) => {
                let ghost before = keys_view(self.keys@);
                self.keys.remove(i);
                proof {
                    let after = keys_view(self.keys@);
                    assert(after =~= before.remove(i as int));
                    assert forall|x| after.to_set().contains(x) <==> before.to_set().remove(key_view(*key)).contains(x) by {
                        if after.contains(x) {
                            let j = choose|j: int| 0 <= j < after.len() && after[j] == x;
                            if j < i {
                                assert(before[j] == x);
                            } else {
                                assert(before[j + 1] == x);
                            }
                        }
                        if x != key_view(*key) && before.contains(x) {
                            let j = choose|j: int| 0 <= j < before.len() && before[j] == x;
                            if j < i {
                                assert(after[j] == x);
                            } else {
                                assert(j != i);
                                assert(after[j - 1] == x);
                            }
                        }
                    }
                    assert(after.to_set() =~= before.to_set().remove(key_view(*key)));
                }
                true
            },
        }
    }

    pub fn clear(&mut self)
        ensures
            final(self).wf(),
            final(self)@ == Set::<(Section, Seq<char>)>::empty(),
    {
        self.keys = Vec::new();
        assert(self@ =~= Set::<(Section, Seq<char>)>::empty());
    }

    /// The keys, in the order they were added.
    pub fn keys(&self) -> (r: Vec<(Section, String)>)
        requires
            self.wf(),
        ensures
            keys_view(r@) == self.spec_keys(),
            keys_view(r@).no_duplicates(),
            keys_view(r@).to_set() == self@,
    {
        let mut out: Vec<(Section, String)> = Vec::new();
        let mut i: usize = 0;
        while i < self.keys.len()
            invariant
                i <= self.keys@.len(),
                keys_view(out@) =~= keys_view(self.keys@).subrange(0, i as int),
            decreases self.keys@.len() - i,
        {
            let ghost before = keys_view(out@);
            out.push(clone_key(&self.keys[i]));
            assert(keys_view(out@) =~= before.push(keys_view(self.keys@)[i as int]));
            assert(keys_view(self.keys@).subrange(0, i + 1) =~= keys_view(self.keys@).subrange(0, i as int).push(
                keys_view(self.keys@)[i as int],
            ));
            i = i + 1;
        }
        assert(keys_view(self.keys@).subrange(0, i as int) =~= keys_view(self.keys@));
        out
    }

    /// Keeps only the keys that name one of `rows`.
    pub fn retain_rows(&mut self, rows: &Vec<VisibleRow>)
        requires
            old(self).wf(),
        ensures
            final(self).wf(),
            final(self)@ == old(self)@.filter(|k: (Section, Seq<char>)| rows_view(rows@).contains(k)),
    {
        let ghost before = keys_view(self.keys@);
        let ghost p = |k: (Section, Seq<char>)| rows_view(rows@).contains(k);
        let mut kept: Vec<(Section, String)> = Vec::new();
        let mut i: usize = 0;
        assert(before.subrange(0, 0).to_set() =~= Set::<(Section, Seq<char>)>::empty());
        assert(keys_view(kept@).to_set() =~= Set::<(Section, Seq<char>)>::empty());
        while i < self.keys.len()
            invariant
                before == keys_view(self.keys@),
                before.no_duplicates(),
                i <= before.len(),
                p == (|k: (Section, Seq<char>)| rows_view(rows@).contains(k)),
                keys_view(kept@).no_duplicates(),
                keys_view(kept@).to_set() == before.subrange(0, i as int).to_set().filter(p),
            decreases before.len() - i,
        {
            let k = &self.keys[i];
            let mut found = false;
            let mut j: usize = 0;
            while j < rows.len()
                invariant
                    j <= rows@.len(),
                    found == exists|q: int| 0 <= q < j && #[trigger] rows_view(rows@)[q] == key_view(*k),
                decreases rows@.len() - j,
            {
                assert(rows_view(rows@)[j as int] == row_key(rows@[j as int]));
                if rows[j].section == k.0 && rows[j].path == k.1 {
                    found = true;
                }
                j = j + 1;
            }
            let ghost x = before[i as int];
            let ghost pre = before.subrange(0, i as int);
            proof {
                assert(x == key_view(*k));
                assert(before.subrange(0, i + 1) =~= pre.push(x));
                pre.lemma_push_to_set_commute(x);
                assert(!pre.contains(x)) by {
                    if pre.contains(x) {
                        let q = choose|q: int| 0 <= q < pre.len() && pre[q] == x;
                        assert(before[q] == before[i as int]);
                    }
                }
            }
            let ghost kv = keys_view(kept@);
            if found {
                kept.push(clone_key(k));
                proof {
                    assert(keys_view(kept@) =~= kv.push(x));
                    kv.lemma_push_to_set_commute(x);
                    assert(!kv.contains(x)) by {
                        if kv.contains(x) {
                            assert(kv.to_set().contains(x));
                        }
                    }
                    let after = keys_view(kept@);
                    assert forall|a: int, b: int| 0 <= a < after.len() && 0 <= b < after.len() && a != b implies after[a] != after[b] by {
                        if b == after.len() - 1 {
                            assert(kv.contains(kv[a]));
                        } else if a == after.len() - 1 {
                            assert(kv.contains(kv[b]));
                        }
                    }
                    assert(after.to_set() =~= before.subrange(0, i + 1).to_set().filter(p));
                }
            } else {
                proof {
                    assert(kv.to_set() =~= before.subrange(0, i + 1).to_set().filter(p));
                }
            }
            i = i + 1;
        }
        proof {
            assert(before.subrange(0, i as int) =~= before);
            assert(keys_view(kept@).to_set() =~= before.to_set().filter(p));
        }
        self.keys = kept;
    }
}

} // verus!
