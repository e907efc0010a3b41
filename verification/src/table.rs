//! A table of values by name.

use vstd::prelude::*;

use crate::text::same;

verus! {

/// Values by name: a finite map whose keys are strings.
#[derive(Debug)]
pub struct Table<V> {
    entries: Vec<(String, V)>,
}

spec fn named<V>(key: Seq<char>) -> spec_fn((String, V)) -> bool {
    |e: (String, V)| e.0@ == key
}

spec fn position<V>(entries: Seq<(String, V)>, key: Seq<char>) -> int {
    crate::seqs::first_index(entries, named(key))
}

spec fn distinct<V>(entries: Seq<(String, V)>) -> bool {
    forall|i: int, j: int|
        0 <= i < j < entries.len() ==> (#[trigger] entries[i]).0@ != (#[trigger] entries[j]).0@
}

spec fn contents<V: View>(entries: Seq<(String, V)>) -> Map<Seq<char>, V::V> {
    Map::new(
        |k: Seq<char>| position(entries, k) < entries.len(),
        |k: Seq<char>| entries[position(entries, k)].1@,
    )
}

impl<V: View> View for Table<V> {
    type V = Map<Seq<char>, V::V>;

    closed spec fn view(&self) -> Map<Seq<char>, V::V> {
        contents(self.entries@)
    }
}

proof fn lemma_position<V>(entries: Seq<(String, V)>, i: int)
    requires
        distinct(entries),
        0 <= i < entries.len(),
    ensures
        position(entries, entries[i].0@) == i,
{
    crate::seqs::lemma_first_index(entries, named(entries[i].0@), i);
}

proof fn lemma_no_position<V>(entries: Seq<(String, V)>, key: Seq<char>)
    requires
        forall|i: int| 0 <= i < entries.len() ==> (#[trigger] entries[i]).0@ != key,
    ensures
        position(entries, key) == entries.len(),
{
    crate::seqs::lemma_first_index(
        entries,
        named(key),
        entries.len() as int,
    );
}

proof fn lemma_position_holds<V>(entries: Seq<(String, V)>, key: Seq<char>)
    ensures
        0 <= position(entries, key) <= entries.len(),
        position(entries, key) < entries.len() ==> entries[position(entries, key)].0@ == key,
{
    crate::seqs::lemma_first_index_holds(entries, named(key));
}

impl<V> Table<V> {
    #[verifier::type_invariant]
    spec fn fine(self) -> bool {
        distinct(self.entries@)
    }
}

impl<V: View> Table<V> {
    /// The empty table.
    pub fn new() -> (r: Self)
        ensures
            r@ == Map::<Seq<char>, V::V>::empty(),
    {
        let r = Table { entries: Vec::new() };
        proof {
            assert forall|k: Seq<char>| !(r@.dom().contains(k)) by {
                lemma_no_position(r.entries@, k);
            }
            assert(r@ =~= Map::<Seq<char>, V::V>::empty());
        }
        r
    }

    fn find(&self, key: &str) -> (r: usize)
        ensures
            r == position(self.entries@, key@),
            r <= self.entries.len(),
            r < self.entries.len() ==> self.entries@[r as int].0@ == key@,
    {
        let mut i: usize = 0;
        let ghost p = named::<V>(key@);
        while i < self.entries.len()
            invariant
                i <= self.entries.len(),
                p == named::<V>(key@),
                forall|k: int| 0 <= k < i ==> !p(#[trigger] self.entries@[k]),
            decreases self.entries.len() - i,
        {
            if same(self.entries[i].0.as_str(), key) {
                proof {
                    crate::seqs::lemma_first_index(self.entries@, p, i as int);
                }
                return i;
            }
            i = i + 1;
        }
        proof {
            crate::seqs::lemma_first_index(self.entries@, p, i as int);
        }
        i
    }

    /// The value named `key`.
    pub fn get(&self, key: &str) -> (r: Option<&V>)
        ensures
            match r {
                Some(v) => self@.dom().contains(key@) && self@[key@] == v@,
                None => !self@.dom().contains(key@),
            },
    {
        let i = self.find(key);
        if i < self.entries.len() {
            Some(&self.entries[i].1)
        } else {
            None
        }
    }

    /// Whether there is a value named `key`.
    pub fn has(&self, key: &str) -> (r: bool)
        ensures
            r == self@.dom().contains(key@),
    {
        self.find(key) < self.entries.len()
    }

    /// The number of values.
    pub fn len(&self) -> (r: usize)
        ensures
            r == self.size(),
            r == 0 <==> self@ == Map::<Seq<char>, V::V>::empty(),
    {
        proof {
            use_type_invariant(self);
            if self.entries@.len() == 0 {
                assert forall|k: Seq<char>| !(self@.dom().contains(k)) by {
                    lemma_no_position(self.entries@, k);
                }
                assert(self@ =~= Map::<Seq<char>, V::V>::empty());
            } else {
                lemma_position(self.entries@, 0);
                assert(self@.dom().contains(self.entries@[0].0@));
            }
        }
        self.entries.len()
    }

    /// Names a value `key`; the value that had the name is replaced.
    pub fn insert(&mut self, key: String, value: V)
        ensures
            final(self)@ == old(self)@.insert(key@, value@),
    {
        proof {
            use_type_invariant(&*self);
        }
        let ghost before = self.entries@;
        let mut entries: Vec<(String, V)> = Vec::new();
        let i = self.find(key.as_str());
        std::mem::swap(&mut entries, &mut self.entries);
        let ghost name = key@;
        let ghost v = value@;
        if i < entries.len() {
            entries.set(i, (key, value));
        } else {
            proof {
                assert forall|k: int| 0 <= k < before.len() implies (#[trigger] before[k]).0@
                    != name by {
                    lemma_position(before, k);
                }
            }
            entries.push((key, value));
        }
        proof {
            let after = entries@;
            assert forall|k: Seq<char>| #[trigger]
                contents(after).dom().contains(k) == contents(before).insert(name, v).dom().contains(
                    k,
                ) by {
                lemma_position_holds(before, k);
                lemma_position_holds(after, k);
                if position(before, k) < before.len() {
                    lemma_position(after, position(before, k));
                }
                if k == name {
                    lemma_position(after, i as int);
                }
                if position(after, k) < after.len() && position(after, k) < before.len() {
                    lemma_position(before, position(after, k));
                }
            }
            assert forall|k: Seq<char>| #[trigger]
                contents(after).dom().contains(k) implies contents(after)[k] == contents(
                before,
            ).insert(name, v)[k] by {
                lemma_position_holds(before, k);
                lemma_position_holds(after, k);
                if k == name {
                    lemma_position(after, i as int);
                } else {
                    lemma_position(before, position(after, k));
                }
            }
            assert(contents(after) =~= contents(before).insert(name, v));
        }
        self.entries = entries;
    }

    /// Takes the value named `key` out.
    pub fn remove(&mut self, key: &str) -> (r: Option<V>)
        ensures
            final(self)@ == old(self)@.remove(key@),
            match r {
                Some(v) => old(self)@.dom().contains(key@) && old(self)@[key@] == v@,
                None => !old(self)@.dom().contains(key@),
            },
    {
        proof {
            use_type_invariant(&*self);
        }
        let ghost before = self.entries@;
        let i = self.find(key);
        if i == self.entries.len() {
            proof {
                assert(old(self)@.remove(key@) =~= old(self)@);
            }
            return None;
        }
        let mut entries: Vec<(String, V)> = Vec::new();
        std::mem::swap(&mut entries, &mut self.entries);
        let (_, value) = entries.remove(i);
        proof {
            let after = entries@;
            assert forall|k: int| 0 <= k < after.len() implies (#[trigger] after[k])
                == before[if k < i {
                k
            } else {
                k + 1
            }] by {}
            assert(distinct(after));
            assert forall|k: Seq<char>| #[trigger]
                contents(after).dom().contains(k) == contents(before).remove(key@).dom().contains(
                    k,
                ) && (contents(after).dom().contains(k) ==> contents(after)[k] == contents(
                before,
            )[k]) by {
                lemma_position_holds(before, k);
                lemma_position_holds(after, k);
                let b = position(before, k);
                let a = position(after, k);
                if b < before.len() && k != key@ {
                    let moved = if b < i {
                        b
                    } else {
                        b - 1
                    };
                    lemma_position(after, moved);
                }
                if a < after.len() {
                    lemma_position(
                        before,
                        if a < i {
                            a
                        } else {
                            a + 1
                        },
                    );
                }
            }
            assert(contents(after) =~= contents(before).remove(key@));
        }
        self.entries = entries;
        Some(value)
    }

    /// Takes some value out, with its name.
    pub fn pop(&mut self) -> (r: Option<(String, V)>)
        ensures
            match r {
                Some((k, v)) => old(self)@.dom().contains(k@) && old(self)@[k@] == v@
                    && final(self)@ == old(self)@.remove(k@),
                None => old(self)@ == Map::<Seq<char>, V::V>::empty() && final(self)@ == old(self)@,
            },
            r is Some ==> final(self).size() < old(self).size(),
    {
        let n = self.len();
        if n == 0 {
            return None;
        }
        proof {
            use_type_invariant(&*self);
            lemma_position(self.entries@, self.entries@.len() - 1);
        }
        let key = self.entries[n - 1].0.clone();
        match self.remove_last() {
            Some(v) => Some((key, v)),
            None => None,
        }
    }

    /// How many values there are.
    pub closed spec fn size(&self) -> nat {
        self.entries@.len()
    }

    fn remove_last(&mut self) -> (r: Option<V>)
        requires
            old(self).entries@.len() > 0,
        ensures
            r is Some,
            old(self)@.dom().contains(old(self).entries@.last().0@),
            old(self)@[old(self).entries@.last().0@] == r->0@,
            final(self)@ == old(self)@.remove(old(self).entries@.last().0@),
            final(self).entries@.len() == old(self).entries@.len() - 1,
    {
        proof {
            use_type_invariant(&*self);
        }
        let ghost before = self.entries@;
        let ghost name = before.last().0@;
        let mut entries: Vec<(String, V)> = Vec::new();
        std::mem::swap(&mut entries, &mut self.entries);
        let last = entries.pop();
        proof {
            let after = entries@;
            lemma_position(before, before.len() - 1);
            assert forall|k: Seq<char>| #[trigger]
                contents(after).dom().contains(k) == contents(before).remove(name).dom().contains(k)
                    && (contents(after).dom().contains(k) ==> contents(after)[k] == contents(
                    before,
                )[k]) by {
                lemma_position_holds(before, k);
                lemma_position_holds(after, k);
                let b = position(before, k);
                let a = position(after, k);
                if b < before.len() && k != name {
                    lemma_position(after, b);
                }
                if a < after.len() {
                    lemma_position(before, a);
                }
            }
            assert(contents(after) =~= contents(before).remove(name));
        }
        self.entries = entries;
        match last {
            Some((_, v)) => Some(v),
            None => None,
        }
    }
}

} // verus!
