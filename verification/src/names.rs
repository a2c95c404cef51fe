//! Names in the order of their characters.

use vstd::prelude::*;
use vstd::string::*;

use crate::json::texts;
use crate::text::{chars_of, str_eq};

verus! {

/// Whether a text comes before another: at the first character in which they differ the
/// smaller one decides, and a text comes before its continuations.
pub open spec fn text_lt(a: Seq<char>, b: Seq<char>) -> bool
    decreases a.len(),
{
    if b.len() == 0 {
        false
    } else if a.len() == 0 {
        true
    } else if a[0] == b[0] {
        text_lt(a.skip(1), b.skip(1))
    } else {
        (a[0] as int) < b[0] as int
    }
}

/// Of two different texts one comes first, and the order goes over in chains.
pub proof fn law_text_order(a: Seq<char>, b: Seq<char>, c: Seq<char>)
    ensures
        !text_lt(a, a),
        a != b ==> text_lt(a, b) || text_lt(b, a),
        !(text_lt(a, b) && text_lt(b, a)),
        text_lt(a, b) && text_lt(b, c) ==> text_lt(a, c),
    decreases a.len(),
{
    if a.len() > 0 {
        let b1 = if b.len() > 0 { b.skip(1) } else { b };
        let c1 = if c.len() > 0 { c.skip(1) } else { c };
        law_text_order(a.skip(1), b1, c1);
        if b.len() > 0 && a[0] == b[0] && a.skip(1) == b.skip(1) {
            assert forall|i: int| 0 <= i < a.len() implies i < b.len() && a[i] == b[i] by {
                if i > 0 {
                    assert(a.skip(1)[i - 1] == b.skip(1)[i - 1]);
                }
            }
            assert(a.len() == a.skip(1).len() + 1);
            assert(b.len() == b.skip(1).len() + 1);
            assert(a =~= b);
        }
    } else if b.len() == 0 {
        assert(a =~= b);
    }
}

fn text_before(a: &str, b: &str) -> (r: bool)
    ensures
        r == text_lt(a@, b@),
{
    let x = chars_of(a);
    let y = chars_of(b);
    let mut i: usize = 0;
    assert(x@.skip(0) =~= x@ && y@.skip(0) =~= y@);
    while i < x.len() && i < y.len() && x[i] == y[i]
        invariant
            i <= x.len(),
            i <= y.len(),
            text_lt(x@, y@) == text_lt(x@.skip(i as int), y@.skip(i as int)),
        decreases x.len() - i,
    {
        assert(x@.skip(i as int).skip(1) =~= x@.skip(i + 1));
        assert(y@.skip(i as int).skip(1) =~= y@.skip(i + 1));
        i = i + 1;
    }
    proof {
        if i < x.len() {
            assert(x@.skip(i as int)[0] == x@[i as int]);
        }
        if i < y.len() {
            assert(y@.skip(i as int)[0] == y@[i as int]);
        }
    }
    if i >= y.len() {
        false
    } else if i >= x.len() {
        true
    } else {
        x[i] < y[i]
    }
}

/// Whether names stand in the order of their characters, none twice.
pub open spec fn increasing(names: Seq<Seq<char>>) -> bool {
    forall|i: int, j: int|
        0 <= i < j < names.len() ==> text_lt(#[trigger] names[i], #[trigger] names[j])
}

fn insert_name(names: &mut Vec<String>, name: &str)
    requires
        increasing(texts(old(names)@)),
    ensures
        increasing(texts(final(names)@)),
        forall|t: Seq<char>| #[trigger]
            texts(final(names)@).contains(t) <==> texts(old(names)@).contains(t) || t == name@,
{
    let ghost before = texts(names@);
    let mut p: usize = 0;
    while p < names.len() && text_before(names[p].as_str(), name)
        invariant
            p <= names@.len(),
            names@ == old(names)@,
            before == texts(names@),
            forall|i: int| 0 <= i < p ==> text_lt(#[trigger] before[i], name@),
        decreases names@.len() - p,
    {
        assert(before[p as int] == names@[p as int]@);
        p = p + 1;
    }
    if p < names.len() && str_eq(names[p].as_str(), name) {
        assert(before[p as int] == name@);
        return;
    }
    let s = String::from_str(name);
    names.insert(p, s);
    proof {
        let after = texts(names@);
        assert(after =~= before.insert(p as int, name@));
        assert forall|i: int| p <= i < before.len() implies text_lt(name@, #[trigger] before[i]) by {
            law_text_order(name@, before[p as int], before[i]);
            if i > p {
                assert(text_lt(before[p as int], before[i]));
            }
        }
        assert forall|i: int, j: int| 0 <= i < j < after.len() implies text_lt(
            #[trigger] after[i],
            #[trigger] after[j],
        ) by {
            if i != p && j != p {
                let x = if i < p { i } else { i - 1 };
                let y = if j < p { j } else { j - 1 };
                assert(after[i] == before[x] && after[j] == before[y]);
            } else if i == p {
                assert(after[j] == before[j - 1]);
            } else {
                assert(after[i] == before[i]);
            }
        }
        assert forall|t: Seq<char>| #[trigger] after.contains(t) <==> before.contains(t) || t
            == name@ by {
            if before.contains(t) {
                let i = choose|i: int| 0 <= i < before.len() && before[i] == t;
                let j = if i < p { i } else { i + 1 };
                assert(after[j] == t);
            }
            if t == name@ {
                assert(after[p as int] == t);
            }
            if after.contains(t) && t != name@ {
                let j = choose|j: int| 0 <= j < after.len() && after[j] == t;
                let i = if j < p { j } else { j - 1 };
                assert(before[i] == t);
            }
        }
    }
}

/// The different names of a list, in the order of their characters.
pub fn sorted_names(list: &Vec<String>) -> (names: Vec<String>)
    ensures
        increasing(texts(names@)),
        forall|t: Seq<char>| #[trigger] texts(names@).contains(t) <==> texts(list@).contains(t),
{
    let ghost all = texts(list@);
    let mut names: Vec<String> = Vec::new();
    let mut i: usize = 0;
    while i < list.len()
        invariant
            i <= list.len(),
            all == texts(list@),
            increasing(texts(names@)),
            forall|t: Seq<char>| #[trigger]
                texts(names@).contains(t) <==> all.take(i as int).contains(t),
        decreases list.len() - i,
    {
        let ghost before = texts(names@);
        insert_name(&mut names, list[i].as_str());
        proof {
            let a = all.take(i as int);
            let b = all.take(i + 1);
            assert(b =~= a.push(all[i as int]));
            assert(all[i as int] == list@[i as int]@);
            assert forall|t: Seq<char>| #[trigger]
                texts(names@).contains(t) <==> b.contains(t) by {
                if a.contains(t) {
                    let k = choose|k: int| 0 <= k < a.len() && a[k] == t;
                    assert(b[k] == t);
                }
                if t == all[i as int] {
                    assert(b[i as int] == t);
                }
                if b.contains(t) {
                    let k = choose|k: int| 0 <= k < b.len() && b[k] == t;
                    if k < i {
                        assert(a[k] == t);
                    }
                }
                assert(before.contains(t) <==> a.contains(t));
            }
        }
        i = i + 1;
    }
    assert(all.take(i as int) =~= all);
    names
}

/// At the first character in which two texts differ the smaller one decides, and a text comes
/// before its continuations.
pub proof fn law_first_difference(
    p: Seq<char>,
    a: char,
    b: char,
    x: Seq<char>,
    y: Seq<char>,
)
    ensures
        a != b ==> (text_lt(p + (seq![a] + x), p + (seq![b] + y)) <==> (a as int) < b as int),
        text_lt(p, p + (seq![a] + x)),
        !text_lt(p + (seq![a] + x), p),
    decreases p.len(),
{
    let s = seq![a] + x;
    let t = seq![b] + y;
    if p.len() == 0 {
        assert(p + s =~= s);
        assert(p + t =~= t);
    } else {
        let q = p.skip(1);
        law_first_difference(q, a, b, x, y);
        assert((p + s).skip(1) =~= q + s);
        assert((p + t).skip(1) =~= q + t);
        assert((p + s)[0] == p[0]);
        assert((p + t)[0] == p[0]);
    }
}

} // verus!
