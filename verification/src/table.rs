//! A table of values by name, in the order the names came in.

use crate::text::same;
use vstd::prelude::*;

verus! {

/// A table of values by name. Each name is in it at most once.
///
/// A list rather than vstd's `StringHashMap`, which cannot be walked: the capture thread
/// closes the sessions of every window that has gone, a benchmark prints every source, and a
/// value that leaves is handed back. The tables hold a screen's windows, so looking a name up
/// from the front is no burden.
pub struct Table<V> {
    /// The names and their values, oldest name first.
    pub entries: Vec<(String, V)>,
}

/// What a list of entries holds: the later of two entries of one name counts.
pub open spec fn contents<V>(s: Seq<(String, V)>) -> Map<Seq<char>, V>
    decreases s.len(),
{
    if s.len() == 0 {
        Map::empty()
    } else {
        contents(s.drop_last()).insert(s.last().0@, s.last().1)
    }
}

/// No name twice.
pub open spec fn distinct<V>(s: Seq<(String, V)>) -> bool {
    forall|i: int, j: int|
        0 <= i < j < s.len() ==> (#[trigger] s[i]).0@ != (#[trigger] s[j]).0@
}

/// The names in a list of entries.
pub open spec fn names<V>(s: Seq<(String, V)>) -> Seq<Seq<char>> {
    s.map_values(|e: (String, V)| e.0@)
}

impl<V> View for Table<V> {
    type V = Map<Seq<char>, V>;

    open spec fn view(&self) -> Map<Seq<char>, V> {
        contents(self.entries@)
    }
}

/// The entry at `i` is of that name.
pub open spec fn named<V>(s: Seq<(String, V)>, key: Seq<char>, i: int) -> bool {
    0 <= i < s.len() && s[i].0@ == key
}

/// A name is in the contents where an entry has it, with that entry's value.
pub proof fn contents_are_the_entries<V>(s: Seq<(String, V)>)
    requires
        distinct(s),
    ensures
        forall|key: Seq<char>|
            #[trigger] contents(s).contains_key(key) <==> exists|i: int| named(s, key, i),
        forall|i: int|
            0 <= i < s.len() ==> contents(s).contains_key((#[trigger] s[i]).0@) && contents(
                s,
            )[s[i].0@] == s[i].1,
    decreases s.len(),
{
    if s.len() > 0 {
        let t = s.drop_last();
        contents_are_the_entries(t);
        assert forall|key: Seq<char>| #[trigger] contents(s).contains_key(key) implies exists|
            i: int,
        | named(s, key, i) by {
            if key == s.last().0@ {
                assert(named(s, key, s.len() - 1));
            } else {
                assert(contents(t).contains_key(key));
                let i = choose|i: int| named(t, key, i);
                assert(named(s, key, i));
            }
        }
        assert forall|i: int| 0 <= i < s.len() implies contents(s).contains_key(
            (#[trigger] s[i]).0@,
        ) && contents(s)[s[i].0@] == s[i].1 by {
            if i < s.len() - 1 {
                assert(t[i] == s[i]);
                assert(s[i].0@ != s[s.len() - 1].0@);
            }
        }
        assert forall|key: Seq<char>| exists|i: int| named(s, key, i) implies #[trigger] contents(
            s,
        ).contains_key(key) by {
            let i = choose|i: int| named(s, key, i);
            assert(contents(s).contains_key(s[i].0@));
        }
    }
}

impl<V> Table<V> {
    /// No name twice.
    pub open spec fn wf(&self) -> bool {
        distinct(self.entries@)
    }

    /// A table with nothing in it.
    pub fn new() -> (r: Table<V>)
        ensures
            r.wf(),
            r.entries@.len() == 0,
            r@ == Map::<Seq<char>, V>::empty(),
    {
        Table { entries: Vec::new() }
    }

    /// Where the entry of that name stands.
    pub fn position(&self, key: &str) -> (r: Option<usize>)
        requires
            self.wf(),
        ensures
            match r {
                Some(i) => named(self.entries@, key@, i as int) && self@.contains_key(key@)
                    && self@[key@] == self.entries@[i as int].1,
                None => !self@.contains_key(key@) && forall|i: int|
                    !named(self.entries@, key@, i),
            },
    {
        proof {
            contents_are_the_entries(self.entries@);
        }
        for i in 0..self.entries.len()
            invariant
                forall|j: int| 0 <= j < i ==> !named(self.entries@, key@, j),
                forall|j: int|
                    0 <= j < self.entries@.len() ==> self@.contains_key(
                        (#[trigger] self.entries@[j]).0@,
                    ) && self@[self.entries@[j].0@] == self.entries@[j].1,
        {
            if same(self.entries[i].0.as_str(), key) {
                assert(self.entries@[i as int].0@ == key@);
                return Some(i);
            }
        }
        None
    }

    /// Whether that name is in the table.
    pub fn contains(&self, key: &str) -> (r: bool)
        requires
            self.wf(),
        ensures
            r == self@.contains_key(key@),
    {
        self.position(key).is_some()
    }

    /// The value under that name.
    pub fn get(&self, key: &str) -> (r: Option<&V>)
        requires
            self.wf(),
        ensures
            match r {
                Some(v) => self@.contains_key(key@) && self@[key@] == *v,
                None => !self@.contains_key(key@),
            },
    {
        match self.position(key) {
            Some(i) => Some(&self.entries[i].1),
            None => None,
        }
    }

    /// Put a value under a name, in place of the one that is there.
    pub fn insert(&mut self, key: String, value: V)
        requires
            old(self).wf(),
        ensures
            final(self).wf(),
            final(self)@ == old(self)@.insert(key@, value),
            !old(self)@.contains_key(key@) ==> final(self).entries@ == old(self).entries@.push(
                (key, value),
            ),
            old(self)@.contains_key(key@) ==> names(final(self).entries@) == names(
                old(self).entries@,
            ),
    {
        let ghost before = self.entries@;
        let ghost k = key@;
        proof {
            contents_are_the_entries(before);
        }
        match self.position(key.as_str()) {
            Some(i) => {
                self.entries.set(i, (key, value));
                proof {
                    let after = self.entries@;
                    assert forall|a: int, b: int| 0 <= a < b < after.len() implies (
                    #[trigger] after[a]).0@ != (#[trigger] after[b]).0@ by {
                        assert(before[a].0@ != before[b].0@);
                    }
                    contents_are_the_entries(after);
                    assert(after[i as int] == (key, value));
                    assert forall|x: Seq<char>|
                        contents(after).contains_key(x) == contents(before).insert(
                            k,
                            value,
                        ).contains_key(x) by {
                        if contents(after).contains_key(x) {
                            let j = choose|j: int| named(after, x, j);
                            assert(named(before, x, j));
                        }
                        if contents(before).contains_key(x) {
                            let j = choose|j: int| named(before, x, j);
                            assert(named(after, x, j));
                        }
                    }
                    assert forall|x: Seq<char>| contents(after).contains_key(x) implies contents(
                        after,
                    )[x] == contents(before).insert(k, value)[x] by {
                        let j = choose|j: int| named(after, x, j);
                        assert(contents(after)[after[j].0@] == after[j].1);
                        if j != i {
                            assert(after[j] == before[j]);
                            assert(contents(before)[before[j].0@] == before[j].1);
                            assert(before[j].0@ != before[i as int].0@);
                        }
                    }
                    assert(contents(after) =~= contents(before).insert(k, value));
                    assert(names(after) =~= names(before));
                }
            },
            None => {
                self.entries.push((key, value));
                proof {
                    let after = self.entries@;
                    assert(after.drop_last() =~= before);
                    assert forall|a: int, b: int| 0 <= a < b < after.len() implies (
                    #[trigger] after[a]).0@ != (#[trigger] after[b]).0@ by {
                        if b == after.len() - 1 {
                            assert(!named(before, k, a));
                        }
                    }
                }
            },
        }
    }

    /// Take a name and its value out.
    pub fn remove(&mut self, key: &str) -> (r: Option<V>)
        requires
            old(self).wf(),
        ensures
            final(self).wf(),
            final(self)@ == old(self)@.remove(key@),
            match r {
                Some(v) => old(self)@.contains_key(key@) && old(self)@[key@] == v,
                None => !old(self)@.contains_key(key@) && final(self).entries@ == old(
                    self,
                ).entries@,
            },
    {
        let ghost before = self.entries@;
        proof {
            contents_are_the_entries(before);
        }
        match self.position(key) {
            Some(i) => {
                let (_, v) = self.entries.remove(i);
                proof {
                    let after = self.entries@;
                    assert(after == before.remove(i as int));
                    assert forall|a: int, b: int| 0 <= a < b < after.len() implies (
                    #[trigger] after[a]).0@ != (#[trigger] after[b]).0@ by {
                        let x = if a < i {
                            a
                        } else {
                            a + 1
                        };
                        let y = if b < i {
                            b
                        } else {
                            b + 1
                        };
                        assert(before[x].0@ != before[y].0@);
                    }
                    contents_are_the_entries(after);
                    assert forall|x: Seq<char>|
                        contents(after).contains_key(x) == contents(before).remove(
                            key@,
                        ).contains_key(x) by {
                        if contents(after).contains_key(x) {
                            let j = choose|j: int| named(after, x, j);
                            let o = if j < i {
                                j
                            } else {
                                j + 1
                            };
                            assert(named(before, x, o));
                            assert(before[o].0@ != before[i as int].0@);
                        }
                        if contents(before).contains_key(x) && x != key@ {
                            let j = choose|j: int| named(before, x, j);
                            let n = if j < i {
                                j
                            } else {
                                j - 1
                            };
                            assert(named(after, x, n));
                        }
                    }
                    assert forall|x: Seq<char>| contents(after).contains_key(x) implies contents(
                        after,
                    )[x] == contents(before)[x] by {
                        let j = choose|j: int| named(after, x, j);
                        let o = if j < i {
                            j
                        } else {
                            j + 1
                        };
                        assert(after[j] == before[o]);
                        assert(contents(after)[after[j].0@] == after[j].1);
                        assert(contents(before)[before[o].0@] == before[o].1);
                    }
                    assert(contents(after) =~= contents(before).remove(key@));
                }
                Some(v)
            },
            None => {
                assert(contents(before).remove(key@) =~= contents(before));
                None
            },
        }
    }
}

} // verus!
