//! Insertion-ordered maps and sets keyed by strings. Rule sets, property
//! maps, variable tables and usage records all keep the order in which their
//! entries were first inserted; later inserts of an existing key replace the
//! value in place, keeping the original position.

use vstd::prelude::*;
use crate::strutil::str_eq;

verus! {

/// Insertion-ordered map from strings to values.
#[derive(Debug)]
pub struct OrdMap<V> {
    entries: Vec<(String, V)>,
}

impl<V: View> View for OrdMap<V> {
    type V = Seq<(Seq<char>, <V as View>::V)>;

    closed spec fn view(&self) -> Seq<(Seq<char>, <V as View>::V)> {
        Seq::new(self.entries@.len(), |i: int| (self.entries@[i].0@, self.entries@[i].1@))
    }
}

/// Every key occurs at most once.
pub open spec fn m_wf<V>(m: Seq<(Seq<char>, V)>) -> bool {
    forall|i: int, j: int| 0 <= i < j < m.len() ==> (#[trigger] m[i]).0 != (#[trigger] m[j]).0
}

pub open spec fn m_contains<V>(m: Seq<(Seq<char>, V)>, k: Seq<char>) -> bool {
    exists|i: int| 0 <= i < m.len() && (#[trigger] m[i]).0 == k
}

/// Position of a key; meaningful when the key is present and keys are unique.
pub open spec fn m_index_of<V>(m: Seq<(Seq<char>, V)>, k: Seq<char>) -> int {
    choose|i: int| 0 <= i < m.len() && (#[trigger] m[i]).0 == k
}

pub open spec fn m_val<V>(m: Seq<(Seq<char>, V)>, k: Seq<char>) -> V {
    m[m_index_of(m, k)].1
}

pub open spec fn m_get<V>(m: Seq<(Seq<char>, V)>, k: Seq<char>) -> Option<V> {
    if m_contains(m, k) {
        Some(m_val(m, k))
    } else {
        None
    }
}

/// The map after an insert: an existing key keeps its position and takes the
/// new value; a new key goes to the end.
pub open spec fn m_insert<V>(m: Seq<(Seq<char>, V)>, k: Seq<char>, v: V) -> Seq<(Seq<char>, V)> {
    if m_contains(m, k) {
        m.update(m_index_of(m, k), (k, v))
    } else {
        m.push((k, v))
    }
}

/// The map after an insert that yields to an existing entry.
pub open spec fn m_or_insert<V>(m: Seq<(Seq<char>, V)>, k: Seq<char>, v: V) -> Seq<
    (Seq<char>, V),
> {
    if m_contains(m, k) {
        m
    } else {
        m.push((k, v))
    }
}

/// Inserting preserves key uniqueness.
pub broadcast proof fn lemma_m_insert_wf<V>(m: Seq<(Seq<char>, V)>, k: Seq<char>, v: V)
    requires
        m_wf(m),
    ensures
        m_wf(#[trigger] m_insert(m, k, v)),
{
    if m_contains(m, k) {
        let out = m.update(m_index_of(m, k), (k, v));
        lemma_m_index_of(m, k);
        assert forall|i: int, j: int|
            0 <= i < j < out.len() implies (#[trigger] out[i]).0 != (#[trigger] out[j]).0 by {
            assert(out[i].0 == m[i].0 && out[j].0 == m[j].0);
        }
    } else {
        let out = m.push((k, v));
        assert forall|i: int, j: int|
            0 <= i < j < out.len() implies (#[trigger] out[i]).0 != (#[trigger] out[j]).0 by {
            if j < out.len() - 1 {
                assert(out[i] == m[i] && out[j] == m[j]);
            } else {
                assert(out[i] == m[i]);
                assert(!m_contains(m, k));
            }
        }
    }
}

pub proof fn lemma_m_index_of<V>(m: Seq<(Seq<char>, V)>, k: Seq<char>)
    requires
        m_contains(m, k),
    ensures
        0 <= m_index_of(m, k) < m.len(),
        m[m_index_of(m, k)].0 == k,
{
}

pub proof fn lemma_m_index_unique<V>(m: Seq<(Seq<char>, V)>, k: Seq<char>, i: int)
    requires
        m_wf(m),
        0 <= i < m.len(),
        m[i].0 == k,
    ensures
        m_contains(m, k),
        m_index_of(m, k) == i,
{
    assert(m_contains(m, k));
    let j = m_index_of(m, k);
    lemma_m_index_of(m, k);
    if i != j {
        assert(m[i].0 != m[j].0);
    }
}

impl<V: View> OrdMap<V> {
    pub fn new() -> (r: Self)
        ensures
            r@ == Seq::<(Seq<char>, <V as View>::V)>::empty(),
    {
        let r = OrdMap { entries: Vec::new() };
        proof {
            assert(r@ =~= Seq::<(Seq<char>, <V as View>::V)>::empty());
        }
        r
    }

    pub fn len(&self) -> (r: usize)
        ensures
            r == self@.len(),
    {
        self.entries.len()
    }

    pub fn is_empty(&self) -> (r: bool)
        ensures
            r == (self@.len() == 0),
    {
        self.entries.len() == 0
    }

    pub fn key_at(&self, i: usize) -> (r: &String)
        requires
            i < self@.len(),
        ensures
            r@ == self@[i as int].0,
    {
        &self.entries[i].0
    }

    pub fn value_at(&self, i: usize) -> (r: &V)
        requires
            i < self@.len(),
        ensures
            r@ == self@[i as int].1,
    {
        &self.entries[i].1
    }

    /// Position of the first entry holding the key, scanned front to back.
    fn find(&self, k: &str) -> (r: Option<usize>)
        ensures
            match r {
                Some(i) => i < self@.len() && self@[i as int].0 == k@ && forall|j: int|
                    0 <= j < i ==> (#[trigger] self@[j]).0 != k@,
                None => !m_contains(self@, k@),
            },
    {
        let mut i: usize = 0;
        while i < self.entries.len()
            invariant
                i <= self@.len(),
                self@.len() == self.entries@.len(),
                forall|j: int| 0 <= j < i ==> (#[trigger] self@[j]).0 != k@,
            decreases self@.len() - i,
        {
            if str_eq(self.entries[i].0.as_str(), k) {
                return Some(i);
            }
            proof {
                assert(self@[i as int].0 == self.entries@[i as int].0@);
            }
            i += 1;
        }
        proof {
            assert forall|j: int| 0 <= j < self@.len() implies (#[trigger] self@[j]).0 != k@ by {}
        }
        None
    }

    pub fn contains_key(&self, k: &str) -> (r: bool)
        ensures
            r == m_contains(self@, k@),
    {
        match self.find(k) {
            Some(_) => true,
            None => false,
        }
    }

    pub fn get(&self, k: &str) -> (r: Option<&V>)
        requires
            m_wf(self@),
        ensures
            match r {
                Some(v) => m_contains(self@, k@) && v@ == m_val(self@, k@),
                None => !m_contains(self@, k@),
            },
    {
        match self.find(k) {
            Some(i) => {
                proof {
                    lemma_m_index_unique(self@, k@, i as int);
                }
                Some(&self.entries[i].1)
            },
            None => None,
        }
    }

    pub fn insert(&mut self, k: String, v: V)
        requires
            m_wf(old(self)@),
        ensures
            final(self)@ == m_insert(old(self)@, k@, v@),
            m_wf(final(self)@),
    {
        match self.find(&k) {
            Some(i) => {
                proof {
                    lemma_m_index_unique(self@, k@, i as int);
                }
                self.entries[i] = (k, v);
                proof {
                    assert(self@ =~= m_insert(old(self)@, k@, v@));
                }
            },
            None => {
                self.entries.push((k, v));
                proof {
                    assert(self@ =~= old(self)@.push((k@, v@)));
                    assert forall|i: int, j: int|
                        0 <= i < j < self@.len() implies (#[trigger] self@[i]).0 != (
                    #[trigger] self@[j]).0 by {
                        if j < self@.len() - 1 {
                            assert(old(self)@[i].0 != old(self)@[j].0);
                        } else {
                            assert(!m_contains(old(self)@, k@));
                            assert(old(self)@[i].0 != k@);
                        }
                    }
                }
            },
        }
    }

    /// Insert only when the key is absent, as a map entry's `or_insert`.
    pub fn insert_if_absent(&mut self, k: String, v: V)
        requires
            m_wf(old(self)@),
        ensures
            final(self)@ == m_or_insert(old(self)@, k@, v@),
            m_wf(final(self)@),
    {
        match self.find(&k) {
            Some(_) => {},
            None => {
                self.entries.push((k, v));
                proof {
                    assert(self@ =~= old(self)@.push((k@, v@)));
                    assert forall|i: int, j: int|
                        0 <= i < j < self@.len() implies (#[trigger] self@[i]).0 != (
                    #[trigger] self@[j]).0 by {
                        if j < self@.len() - 1 {
                            assert(old(self)@[i].0 != old(self)@[j].0);
                        } else {
                            assert(!m_contains(old(self)@, k@));
                            assert(old(self)@[i].0 != k@);
                        }
                    }
                }
            },
        }
    }

    /// Move the key to the front with the given value, as an index map's
    /// shift-insert at position zero.
    pub fn insert_front(&mut self, k: String, v: V)
        requires
            m_wf(old(self)@),
        ensures
            final(self)@ == if m_contains(old(self)@, k@) {
                seq![(k@, v@)] + old(self)@.remove(m_index_of(old(self)@, k@))
            } else {
                seq![(k@, v@)] + old(self)@
            },
            m_wf(final(self)@),
    {
        let ghost oldv = self@;
        match self.find(&k) {
            Some(i) => {
                proof {
                    lemma_m_index_unique(self@, k@, i as int);
                }
                self.entries.remove(i);
                self.entries.insert(0, (k, v));
                proof {
                    assert(self@ =~= seq![(k@, v@)] + oldv.remove(i as int));
                    assert forall|a: int, b: int|
                        0 <= a < b < self@.len() implies (#[trigger] self@[a]).0 != (
                    #[trigger] self@[b]).0 by {
                        let r = oldv.remove(i as int);
                        if a == 0 {
                            let bo = if b - 1 < i { b - 1 } else { b };
                            assert(r[b - 1] == oldv[bo]);
                            assert(oldv[bo].0 != k@);
                        } else {
                            let ao = if a - 1 < i { a - 1 } else { a };
                            let bo = if b - 1 < i { b - 1 } else { b };
                            assert(r[a - 1] == oldv[ao]);
                            assert(r[b - 1] == oldv[bo]);
                            assert(oldv[ao].0 != oldv[bo].0);
                        }
                    }
                }
            },
            None => {
                self.entries.insert(0, (k, v));
                proof {
                    assert(self@ =~= seq![(k@, v@)] + oldv);
                    assert forall|a: int, b: int|
                        0 <= a < b < self@.len() implies (#[trigger] self@[a]).0 != (
                    #[trigger] self@[b]).0 by {
                        if a == 0 {
                            assert(oldv[b - 1].0 != k@);
                        } else {
                            assert(oldv[a - 1].0 != oldv[b - 1].0);
                        }
                    }
                }
            },
        }
    }

    /// Replace the value at a position, keeping the key.
    pub fn set_value_at(&mut self, i: usize, v: V)
        requires
            i < old(self)@.len(),
    ensures
            final(self)@ == old(self)@.update(i as int, (old(self)@[i as int].0, v@)),
            m_wf(old(self)@) ==> m_wf(final(self)@),
    {
        let k = self.entries[i].0.clone();
        self.entries[i] = (k, v);
        proof {
            assert(self@ =~= old(self)@.update(i as int, (old(self)@[i as int].0, v@)));
        }
    }
}

/// Insertion-ordered set of strings.
#[derive(Debug)]
pub struct OrdSet {
    items: Vec<String>,
}

impl View for OrdSet {
    type V = Seq<Seq<char>>;

    closed spec fn view(&self) -> Seq<Seq<char>> {
        Seq::new(self.items@.len(), |i: int| self.items@[i]@)
    }
}

pub open spec fn s_wf(s: Seq<Seq<char>>) -> bool {
    forall|i: int, j: int| 0 <= i < j < s.len() ==> s[i] != s[j]
}

pub open spec fn s_contains(s: Seq<Seq<char>>, x: Seq<char>) -> bool {
    exists|i: int| 0 <= i < s.len() && s[i] == x
}

pub open spec fn s_add(s: Seq<Seq<char>>, x: Seq<char>) -> Seq<Seq<char>> {
    if s_contains(s, x) {
        s
    } else {
        s.push(x)
    }
}

impl OrdSet {
    pub fn new() -> (r: Self)
        ensures
            r@ == Seq::<Seq<char>>::empty(),
    {
        let r = OrdSet { items: Vec::new() };
        proof {
            assert(r@ =~= Seq::<Seq<char>>::empty());
        }
        r
    }

    pub fn len(&self) -> (r: usize)
        ensures
            r == self@.len(),
    {
        self.items.len()
    }

    pub fn at(&self, i: usize) -> (r: &String)
        requires
            i < self@.len(),
        ensures
            r@ == self@[i as int],
    {
        &self.items[i]
    }

    pub fn contains(&self, x: &str) -> (r: bool)
        ensures
            r == s_contains(self@, x@),
    {
        let mut i: usize = 0;
        while i < self.items.len()
            invariant
                i <= self@.len(),
                self@.len() == self.items@.len(),
                forall|j: int| 0 <= j < i ==> self@[j] != x@,
            decreases self@.len() - i,
        {
            if str_eq(self.items[i].as_str(), x) {
                proof {
                    assert(self@[i as int] == x@);
                }
                return true;
            }
            i += 1;
        }
        false
    }

    pub fn insert(&mut self, x: String)
        ensures
            final(self)@ == s_add(old(self)@, x@),
            s_wf(old(self)@) ==> s_wf(final(self)@),
    {
        if !self.contains(x.as_str()) {
            let ghost oldv = self@;
            self.items.push(x);
            proof {
                assert(self@ =~= oldv.push(x@));
                if s_wf(oldv) {
                    assert forall|i: int, j: int|
                        0 <= i < j < self@.len() implies self@[i] != self@[j] by {
                        if j < self@.len() - 1 {
                            assert(oldv[i] != oldv[j]);
                        } else {
                            assert(!s_contains(oldv, x@));
                            assert(oldv[i] != x@);
                        }
                    }
                }
            }
        }
    }

    pub fn clear(&mut self)
        ensures
            final(self)@ == Seq::<Seq<char>>::empty(),
    {
        self.items.clear();
        proof {
            assert(self@ =~= Seq::<Seq<char>>::empty());
        }
    }

    /// A copy holding the same strings in the same order.
    pub fn duplicate(&self) -> (r: Self)
        ensures
            r@ == self@,
    {
        let mut items: Vec<String> = Vec::new();
        let mut i: usize = 0;
        while i < self.items.len()
            invariant
                i <= self.items@.len(),
                items@.len() == i,
                forall|j: int| 0 <= j < i ==> items@[j] == self.items@[j],
            decreases self.items@.len() - i,
        {
            items.push(self.items[i].clone());
            i += 1;
        }
        let r = OrdSet { items };
        proof {
            assert(r@ =~= self@);
        }
        r
    }
}

} // verus!
