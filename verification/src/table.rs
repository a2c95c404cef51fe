//! Values by name.

use vstd::prelude::*;
use vstd::string::*;

use crate::text::str_eq;

verus! {

/// Values by name. No name stands twice; names stay in the order in which they first came.
#[derive(Clone)]
pub struct NameTable<V> {
    rows: Vec<(String, V)>,
}

/// Whether no name stands twice.
pub open spec fn distinct_names<V>(rows: Seq<(String, V)>) -> bool {
    forall|i: int, j: int|
        0 <= i < rows.len() && 0 <= j < rows.len() && (#[trigger] rows[i]).0@ == (
        #[trigger] rows[j]).0@ ==> i == j
}

pub open spec fn has_name<V>(rows: Seq<(String, V)>, name: Seq<char>) -> bool {
    exists|i: int| 0 <= i < rows.len() && (#[trigger] rows[i]).0@ == name
}

pub open spec fn place_of<V>(rows: Seq<(String, V)>, name: Seq<char>) -> int {
    choose|i: int| 0 <= i < rows.len() && (#[trigger] rows[i]).0@ == name
}

proof fn lemma_same_names<V>(a: Seq<(String, V)>, b: Seq<(String, V)>, name: Seq<char>)
    requires
        distinct_names(a),
        a.len() == b.len(),
        forall|j: int| 0 <= j < a.len() ==> (#[trigger] b[j]).0@ == a[j].0@,
    ensures
        has_name(a, name) == has_name(b, name),
        has_name(b, name) ==> place_of(b, name) == place_of(a, name),
        distinct_names(b),
{
    assert forall|x: int, y: int|
        0 <= x < b.len() && 0 <= y < b.len() && (#[trigger] b[x]).0@ == (
        #[trigger] b[y]).0@ implies x == y by {
        assert(a[x].0@ == a[y].0@);
    }
    if has_name(a, name) {
        let j = place_of(a, name);
        assert(b[j].0@ == name);
    }
    if has_name(b, name) {
        let j = place_of(b, name);
        assert(b[j].0@ == name);
        assert(a[j].0@ == name);
    }
}

impl<V> NameTable<V> {
    /// The values by name.
    pub closed spec fn view(&self) -> Map<Seq<char>, V> {
        Map::new(
            |name: Seq<char>| has_name(self.rows@, name),
            |name: Seq<char>| self.rows@[place_of(self.rows@, name)].1,
        )
    }

    /// No name stands twice.
    pub closed spec fn wf(&self) -> bool {
        distinct_names(self.rows@)
    }

    pub fn new() -> (t: Self)
        ensures
            t.wf(),
            t@ == Map::<Seq<char>, V>::empty(),
    {
        let t = NameTable { rows: Vec::new() };
        assert(t@ =~= Map::<Seq<char>, V>::empty());
        t
    }

    fn find(&self, name: &str) -> (r: Option<usize>)
        requires
            self.wf(),
        ensures
            match r {
                Some(i) => i < self.rows@.len() && self.rows@[i as int].0@ == name@ && has_name(
                    self.rows@,
                    name@,
                ) && place_of(self.rows@, name@) == i,
                None => !has_name(self.rows@, name@),
            },
    {
        let mut i: usize = 0;
        while i < self.rows.len()
            invariant
                i <= self.rows.len(),
                self.wf(),
                forall|j: int| 0 <= j < i ==> (#[trigger] self.rows@[j]).0@ != name@,
            decreases self.rows.len() - i,
        {
            if str_eq(self.rows[i].0.as_str(), name) {
                assert(self.rows@[i as int].0@ == name@);
                assert(self.rows@[place_of(self.rows@, name@)].0@ == name@);
                return Some(i);
            }
            i = i + 1;
        }
        None
    }

    /// The value of a name, where it has one.
    pub fn get(&self, name: &str) -> (r: Option<&V>)
        requires
            self.wf(),
        ensures
            match r {
                Some(v) => self@.contains_key(name@) && *v == self@[name@],
                None => !self@.contains_key(name@),
            },
    {
        match self.find(name) {
            Some(i) => Some(&self.rows[i].1),
            None => None,
        }
    }

    /// Sets the value of a name.
    pub fn set(&mut self, name: &str, value: V)
        requires
            old(self).wf(),
        ensures
            final(self).wf(),
            final(self)@ == old(self)@.insert(name@, value),
    {
        let ghost before = self.rows@;
        match self.find(name) {
            Some(i) => {
                let key = self.rows[i].0.clone();
                self.rows.set(i, (key, value));
                proof {
                    let after = self.rows@;
                    assert forall|n: Seq<char>| has_name(before, n) == has_name(after, n) by {
                        lemma_same_names(before, after, n);
                    }
                    assert forall|n: Seq<char>| has_name(after, n) implies place_of(after, n)
                        == place_of(before, n) by {
                        lemma_same_names(before, after, n);
                    }
                    lemma_same_names(before, after, name@);
                }
            },
            None => {
                self.rows.push((String::from_str(name), value));
                proof {
                    let after = self.rows@;
                    let k = before.len() as int;
                    assert(after[k].0@ == name@);
                    assert(has_name(after, name@));
                    assert forall|n: Seq<char>| n != name@ implies has_name(before, n) == has_name(
                        after,
                        n,
                    ) by {
                        if has_name(before, n) {
                            let j = place_of(before, n);
                            assert(after[j].0@ == n);
                        }
                        if has_name(after, n) {
                            let j = place_of(after, n);
                            assert(before[j].0@ == n);
                        }
                    }
                    assert forall|n: Seq<char>| n != name@ && has_name(before, n) implies place_of(
                        after,
                        n,
                    ) == place_of(before, n) by {
                        let j = place_of(before, n);
                        assert(after[j].0@ == n);
                        assert(after[place_of(after, n)].0@ == n);
                    }
                }
            },
        }
        assert(self@ =~= old(self)@.insert(name@, value));
    }

    /// The rows, in the order in which the names first came.
    pub fn rows(&self) -> (r: &Vec<(String, V)>)
        requires
            self.wf(),
        ensures
            distinct_names(r@),
            forall|i: int|
                0 <= i < r@.len() ==> self@.contains_key((#[trigger] r@[i]).0@)
                    && self@[r@[i].0@] == r@[i].1,
            forall|name: Seq<char>| #[trigger]
                self@.contains_key(name) ==> exists|i: int|
                    0 <= i < r@.len() && (#[trigger] r@[i]).0@ == name,
    {
        proof {
            assert forall|i: int| 0 <= i < self.rows@.len() implies self@.contains_key(
                (#[trigger] self.rows@[i]).0@,
            ) && self@[self.rows@[i].0@] == self.rows@[i].1 by {
                let name = self.rows@[i].0@;
                assert(has_name(self.rows@, name));
                assert(self.rows@[place_of(self.rows@, name)].0@ == name);
            }
        }
        &self.rows
    }
}

} // verus!
