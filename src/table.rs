use vstd::prelude::*;

use crate::attribute::SdfPath;

verus! {

/// Entries in insertion order, read as a map from path text to value: a later
/// entry for a key hides an earlier one.
pub open spec fn entries_map<R>(s: Seq<(SdfPath, R)>) -> Map<Seq<char>, R>
    decreases s.len(),
{
    if s.len() == 0 {
        Map::empty()
    } else {
        entries_map(s.drop_last()).insert(s.last().0@, s.last().1)
    }
}

pub open spec fn unique_keys<R>(s: Seq<(SdfPath, R)>) -> bool {
    forall|i: int, j: int| 0 <= i < j < s.len() ==> s[i].0@ != s[j].0@
}

proof fn lemma_entries_absent<R>(s: Seq<(SdfPath, R)>, k: Seq<char>)
    requires
        forall|i: int| 0 <= i < s.len() ==> s[i].0@ != k,
    ensures
        !entries_map(s).contains_key(k),
    decreases s.len(),
{
    if s.len() > 0 {
        lemma_entries_absent(s.drop_last(), k);
    }
}

proof fn lemma_entries_index<R>(s: Seq<(SdfPath, R)>, i: int)
    requires
        unique_keys(s),
        0 <= i < s.len(),
    ensures
        entries_map(s).contains_key(s[i].0@),
        entries_map(s)[s[i].0@] == s[i].1,
    decreases s.len(),
{
    if i < s.len() - 1 {
        lemma_entries_index(s.drop_last(), i);
    }
}

proof fn lemma_entries_dom<R>(s: Seq<(SdfPath, R)>, k: Seq<char>)
    requires
        entries_map(s).contains_key(k),
    ensures
        exists|i: int| 0 <= i < s.len() && s[i].0@ == k,
    decreases s.len(),
{
    if s.len() > 0 && s.last().0@ != k {
        lemma_entries_dom(s.drop_last(), k);
        let i = choose|i: int| 0 <= i < s.len() - 1 && s.drop_last()[i].0@ == k;
        assert(s[i].0@ == k);
    }
}

proof fn lemma_entries_remove<R>(s: Seq<(SdfPath, R)>, i: int)
    requires
        unique_keys(s),
        0 <= i < s.len(),
    ensures
        entries_map(s.remove(i)) == entries_map(s).remove(s[i].0@),
    decreases s.len(),
{
    let k = s[i].0@;
    if i == s.len() - 1 {
        assert(s.remove(i) =~= s.drop_last());
        lemma_entries_absent(s.drop_last(), k);
        assert(entries_map(s.drop_last()) =~= entries_map(s).remove(k));
    } else {
        let t = s.drop_last();
        lemma_entries_remove(t, i);
        assert(s.remove(i).drop_last() =~= t.remove(i));
        assert(s.remove(i).last() == s.last());
        assert(entries_map(s.remove(i)) =~= entries_map(s).remove(k));
    }
}

/// A table of records keyed by scene path.
#[derive(Debug)]
pub struct PathTable<R> {
    entries: Vec<(SdfPath, R)>,
}

impl<R> View for PathTable<R> {
    type V = Map<Seq<char>, R>;

    closed spec fn view(&self) -> Map<Seq<char>, R> {
        entries_map(self.entries@)
    }
}

impl<R> PathTable<R> {
    pub closed spec fn wf(&self) -> bool {
        unique_keys(self.entries@)
    }

    pub fn new() -> (r: PathTable<R>)
        ensures
            r.wf(),
            r@ == Map::<Seq<char>, R>::empty(),
    {
        PathTable { entries: Vec::new() }
    }

    fn find(&self, k: &SdfPath) -> (r: Option<usize>)
        requires
            self.wf(),
        ensures
            r is Some ==> r->0 < self.entries@.len() && self.entries@[r->0 as int].0@ == k@,
            r is None ==> !self@.contains_key(k@),
            r is Some ==> self@.contains_key(k@) && self@[k@] == self.entries@[r->0 as int].1,
    {
        let mut i: usize = 0;
        while i < self.entries.len()
            invariant
                self.wf(),
                i <= self.entries@.len(),
                forall|j: int| 0 <= j < i ==> self.entries@[j].0@ != k@,
            decreases self.entries@.len() - i,
        {
            if self.entries[i].0.same(k) {
                proof {
                    lemma_entries_index(self.entries@, i as int);
                }
                return Some(i);
            }
            i = i + 1;
        }
        proof {
            lemma_entries_absent(self.entries@, k@);
        }
        None
    }

    pub fn contains(&self, k: &SdfPath) -> (r: bool)
        requires
            self.wf(),
        ensures
            r == self@.contains_key(k@),
    {
        self.find(k).is_some()
    }

    pub fn get(&self, k: &SdfPath) -> (r: Option<&R>)
        requires
            self.wf(),
        ensures
            r is Some == self@.contains_key(k@),
            r is Some ==> *r->0 == self@[k@],
    {
        match self.find(k) {
            Some(i) => Some(&self.entries[i].1),
            None => None,
        }
    }

    pub fn remove(&mut self, k: &SdfPath) -> (r: Option<R>)
        requires
            old(self).wf(),
        ensures
            final(self).wf(),
            final(self)@ == old(self)@.remove(k@),
            r is Some == old(self)@.contains_key(k@),
            r is Some ==> r->0 == old(self)@[k@],
    {
        match self.find(k) {
            Some(i) => {
                proof {
                    lemma_entries_remove(self.entries@, i as int);
                }
                let (_, v) = self.entries.remove(i);
                assert(unique_keys(self.entries@)) by {
                    assert forall|a: int, b: int| 0 <= a < b < self.entries@.len() implies self.entries@[a].0@
                        != self.entries@[b].0@ by {
                        let a2 = if a < i { a } else { a + 1 };
                        let b2 = if b < i { b } else { b + 1 };
                        assert(self.entries@[a] == old(self).entries@[a2]);
                        assert(self.entries@[b] == old(self).entries@[b2]);
                    }
                }
                Some(v)
            },
            None => {
                assert(old(self)@.remove(k@) =~= old(self)@);
                None
            },
        }
    }

    pub fn insert(&mut self, k: SdfPath, v: R)
        requires
            old(self).wf(),
        ensures
            final(self).wf(),
            final(self)@ == old(self)@.insert(k@, v),
    {
        let _ = self.remove(&k);
        let ghost before = self.entries@;
        proof {
            assert forall|i: int| 0 <= i < before.len() implies before[i].0@ != k@ by {
                lemma_entries_index(before, i);
            }
        }
        self.entries.push((k, v));
        assert(self.entries@.drop_last() =~= before);
        assert(self@ =~= old(self)@.insert(k@, v));
    }

    pub fn len(&self) -> (r: usize)
        requires
            self.wf(),
        ensures
            r == self@.len(),
    {
        proof {
            self.lemma_len();
        }
        self.entries.len()
    }

    proof fn lemma_len(&self)
        requires
            self.wf(),
        ensures
            self@.len() == self.entries@.len(),
            self@.dom().finite(),
    {
        lemma_entries_len(self.entries@);
    }

    /// The paths of the table, each once.
    pub fn keys(&self) -> (r: Vec<SdfPath>)
        requires
            self.wf(),
        ensures
            forall|i: int| 0 <= i < r@.len() ==> self@.contains_key(#[trigger] r@[i]@),
            forall|k: Seq<char>| self@.contains_key(k) ==> exists|i: int| 0 <= i < r@.len() && #[trigger] r@[i]@ == k,
            forall|i: int, j: int| 0 <= i < j < r@.len() ==> r@[i]@ != r@[j]@,
    {
        let mut out: Vec<SdfPath> = Vec::new();
        let mut i: usize = 0;
        while i < self.entries.len()
            invariant
                self.wf(),
                i <= self.entries@.len(),
                out@.len() == i,
                forall|j: int| 0 <= j < i ==> #[trigger] out@[j]@ == self.entries@[j].0@,
            decreases self.entries@.len() - i,
        {
            out.push(self.entries[i].0.duplicate());
            i = i + 1;
        }
        proof {
            assert forall|j: int| 0 <= j < out@.len() implies self@.contains_key(#[trigger] out@[j]@) by {
                lemma_entries_index(self.entries@, j);
            }
            assert forall|k: Seq<char>| self@.contains_key(k) implies exists|j: int|
                0 <= j < out@.len() && #[trigger] out@[j]@ == k by {
                lemma_entries_dom(self.entries@, k);
                let j = choose|j: int| 0 <= j < self.entries@.len() && self.entries@[j].0@ == k;
                assert(out@[j]@ == k);
            }
        }
        out
    }
}

proof fn lemma_entries_len<R>(s: Seq<(SdfPath, R)>)
    requires
        unique_keys(s),
    ensures
        entries_map(s).dom().finite(),
        entries_map(s).len() == s.len(),
    decreases s.len(),
{
    if s.len() > 0 {
        let t = s.drop_last();
        lemma_entries_len(t);
        assert forall|i: int| 0 <= i < t.len() implies t[i].0@ != s.last().0@ by {}
        lemma_entries_absent(t, s.last().0@);
    }
}

} // verus!
