//! A finite set of names, kept as a strictly ascending vector. The order is
//! that of the standard library on strings. Its ordered set is not used, as
//! vstd states what that set holds only for keys whose order Verus knows, and
//! those are the integers.

use crate::text::{precedes, text_less, texts};
use vstd::prelude::*;

verus! {

/// `s` is strictly ascending.
pub open spec fn ascending_texts(s: Seq<Seq<char>>) -> bool {
    forall|i: int, j: int| 0 <= i < j < s.len() ==> text_less(s[i], s[j])
}

/// A set of names, presented in ascending order.
#[derive(Debug, PartialEq, Eq)]
pub struct NameSet {
    names: Vec<String>,
}

impl View for NameSet {
    type V = Set<Seq<char>>;

    open spec fn view(&self) -> Set<Seq<char>> {
        self.seq().to_set()
    }
}

/// Putting `x` at place `at` of an ascending sequence, between what comes
/// before it and what comes after it in the order, gives an ascending sequence
/// with `x` as its one new member.
proof fn lemma_insert_ascending(before: Seq<Seq<char>>, at: int, x: Seq<char>)
    requires
        ascending_texts(before),
        0 <= at <= before.len(),
        forall|k: int| at <= k < before.len() ==> text_less(x, before[k]),
        forall|k: int| 0 <= k < at ==> text_less(before[k], x),
    ensures
        ascending_texts(before.insert(at, x)),
        before.insert(at, x).to_set() == before.to_set().insert(x),
        !before.contains(x),
{
    let after = before.insert(at, x);
    assert forall|k: int| 0 <= k < before.len() implies before[k] != x by {
        crate::text::lemma_less_irreflexive(x);
    }
    assert forall|e: Seq<char>| after.to_set().contains(e) <==> before.to_set().insert(x).contains(
        e,
    ) by {
        if after.to_set().contains(e) {
            let k = choose|k: int| 0 <= k < after.len() && after[k] == e;
            if k < at {
                assert(before[k] == e);
            } else if k > at {
                assert(before[k - 1] == e);
            }
        }
        if before.to_set().contains(e) {
            let k = choose|k: int| 0 <= k < before.len() && before[k] == e;
            if k < at {
                assert(after[k] == e);
            } else {
                assert(after[k + 1] == e);
            }
        }
        if e == x {
            assert(after[at] == x);
        }
    }
    assert(after.to_set() =~= before.to_set().insert(x));
    assert forall|a: int, b: int| 0 <= a < b < after.len() implies text_less(
        after[a],
        after[b],
    ) by {
        let pa = if a < at { a } else { a - 1 };
        let pb = if b < at { b } else { b - 1 };
        if a != at && b != at {
            assert(after[a] == before[pa]);
            assert(after[b] == before[pb]);
        } else if a == at {
            assert(after[b] == before[pb]);
        } else {
            assert(after[a] == before[pa]);
        }
    }
}

/// In an ascending sequence no name occurs twice.
pub proof fn lemma_ascending_texts_no_repeats(s: Seq<Seq<char>>)
    requires
        ascending_texts(s),
    ensures
        s.no_duplicates(),
{
    assert forall|i: int, j: int| 0 <= i < s.len() && 0 <= j < s.len() && i != j implies s[i]
        != s[j] by {
        crate::text::lemma_less_irreflexive(s[i]);
        if i < j {
            assert(text_less(s[i], s[j]));
        } else {
            assert(text_less(s[j], s[i]));
        }
    }
}

/// A set of names has one presentation only: two strictly ascending sequences
/// with the same members are the same sequence.
pub proof fn lemma_ascending_texts_unique(a: Seq<Seq<char>>, b: Seq<Seq<char>>)
    requires
        ascending_texts(a),
        ascending_texts(b),
        a.to_set() == b.to_set(),
    ensures
        a == b,
    decreases a.len(),
{
    if a.len() == 0 {
        if b.len() > 0 {
            assert(b.to_set().contains(b[0]));
            assert(a.contains(b[0]));
        }
        assert(a =~= b);
    } else {
        let x = a.last();
        assert(a.to_set().contains(x));
        assert(b.contains(x));
        let j = choose|j: int| 0 <= j < b.len() && b[j] == x;
        let y = b.last();
        assert(b.to_set().contains(y));
        assert(a.contains(y));
        let i = choose|i: int| 0 <= i < a.len() && a[i] == y;
        assert(x == y) by {
            if x != y {
                assert(text_less(a[i], a[a.len() - 1]));
                assert(text_less(b[j], b[b.len() - 1]));
                crate::text::lemma_less_transitive(x, y, x);
                crate::text::lemma_less_irreflexive(x);
            }
        }
        crate::text::lemma_less_irreflexive(x);
        let a0 = a.drop_last();
        let b0 = b.drop_last();
        assert forall|c: Seq<char>| a0.to_set().contains(c) <==> b0.to_set().contains(c) by {
            if a0.to_set().contains(c) {
                let k = choose|k: int| 0 <= k < a0.len() && a0[k] == c;
                assert(a[k] == c && text_less(a[k], a[a.len() - 1]));
                assert(a.to_set().contains(c));
                assert(b.contains(c));
                let m = choose|m: int| 0 <= m < b.len() && b[m] == c;
                assert(m < b.len() - 1);
                assert(b0[m] == c);
            }
            if b0.to_set().contains(c) {
                let k = choose|k: int| 0 <= k < b0.len() && b0[k] == c;
                assert(b[k] == c && text_less(b[k], b[b.len() - 1]));
                assert(b.to_set().contains(c));
                assert(a.contains(c));
                let m = choose|m: int| 0 <= m < a.len() && a[m] == c;
                assert(m < a.len() - 1);
                assert(a0[m] == c);
            }
        }
        assert(a0.to_set() =~= b0.to_set());
        lemma_ascending_texts_unique(a0, b0);
        assert(a =~= a0.push(x));
        assert(b =~= b0.push(y));
    }
}

impl NameSet {
    /// The members in the order in which they are presented.
    pub closed spec fn seq(&self) -> Seq<Seq<char>> {
        texts(self.names@)
    }

    /// The members are held in strictly ascending order, so that none occurs
    /// twice.
    pub open spec fn wf(&self) -> bool {
        ascending_texts(self.seq())
    }

    /// The empty set.
    pub fn new() -> (r: NameSet)
        ensures
            r.wf(),
            r.seq() == Seq::<Seq<char>>::empty(),
            r@ == Set::<Seq<char>>::empty(),
    {
        let r = NameSet { names: Vec::new() };
        assert(r.seq() =~= Seq::<Seq<char>>::empty());
        assert(r.seq().to_set() =~= Set::<Seq<char>>::empty());
        r
    }

    /// The number of members.
    pub fn len(&self) -> (n: usize)
        ensures
            n == self.seq().len(),
    {
        self.names.len()
    }

    /// Whether the set has no member.
    pub fn is_empty(&self) -> (b: bool)
        ensures
            b == (self.seq().len() == 0),
    {
        self.names.len() == 0
    }

    /// The members in ascending order.
    pub fn as_slice(&self) -> (r: &[String])
        ensures
            texts(r@) == self.seq(),
    {
        self.names.as_slice()
    }

    /// Adds `name`; says whether it was new.
    pub fn insert(&mut self, name: String) -> (added: bool)
        requires
            old(self).wf(),
        ensures
            final(self).wf(),
            final(self)@ == old(self)@.insert(name@),
            added == !old(self)@.contains(name@),
    {
        let ghost before = self.seq();
        let mut i: usize = self.names.len();
        while i > 0 && precedes(name.as_str(), self.names[i - 1].as_str())
            invariant
                i <= self.names.len(),
                self.seq() == before,
                before.len() == self.names.len(),
                forall|k: int| i <= k < before.len() ==> text_less(name@, before[k]),
            decreases i,
        {
            assert(before[i - 1] == self.names@[i - 1]@);
            i -= 1;
        }
        if i > 0 && self.names[i - 1].eq(&name) {
            assert(before[i - 1] == name@);
            assert(before.to_set().insert(name@) =~= before.to_set());
            false
        } else {
            proof {
                if i > 0 {
                    assert(before[i - 1] == self.names@[i - 1]@);
                    crate::text::lemma_less_total(before[i - 1], name@);
                    assert forall|k: int| 0 <= k < i implies text_less(before[k], name@) by {
                        if k < i - 1 {
                            crate::text::lemma_less_transitive(before[k], before[i - 1], name@);
                        }
                    }
                }
                lemma_insert_ascending(before, i as int, name@);
            }
            self.names.insert(i, name);
            assert(self.seq() =~= before.insert(i as int, name@));
            true
        }
    }

    /// The set of the given names.
    pub fn from_names(names: Vec<String>) -> (r: NameSet)
        ensures
            r.wf(),
            r@ == texts(names@).to_set(),
    {
        let mut set = NameSet::new();
        let mut i: usize = 0;
        let ghost all = texts(names@);
        assert(all.subrange(0, 0).to_set() =~= Set::<Seq<char>>::empty());
        while i < names.len()
            invariant
                i <= names@.len(),
                all == texts(names@),
                set.wf(),
                set@ == all.subrange(0, i as int).to_set(),
            decreases names@.len() - i,
        {
            let name = names[i].clone();
            set.insert(name);
            proof {
                let done = all.subrange(0, i as int);
                let next = all.subrange(0, i + 1);
                assert(next =~= done.push(all[i as int]));
                assert forall|e: Seq<char>| next.to_set().contains(e) <==> done.to_set().insert(
                    all[i as int],
                ).contains(e) by {
                    if next.to_set().contains(e) {
                        let k = choose|k: int| 0 <= k < next.len() && next[k] == e;
                        if k < i {
                            assert(done[k] == e);
                        }
                    }
                    if done.to_set().contains(e) {
                        let k = choose|k: int| 0 <= k < done.len() && done[k] == e;
                        assert(next[k] == e);
                    }
                    if e == all[i as int] {
                        assert(next[i as int] == e);
                    }
                }
                assert(set@ =~= next.to_set());
            }
            i += 1;
        }
        assert(all.subrange(0, i as int) =~= all);
        set
    }
}

} // verus!
