//! A finite set of characters, kept as a strictly ascending vector. The
//! standard library's ordered set is not used, as vstd states what that set
//! holds only for keys whose order Verus knows, and those are the integers.

use vstd::prelude::*;

verus! {

/// `s` is strictly ascending by code point.
pub open spec fn strictly_ascending(s: Seq<char>) -> bool {
    forall|i: int, j: int| 0 <= i < j < s.len() ==> s[i] < s[j]
}

/// The scalar value with code point `v`, if there is one.
pub open spec fn scalar_value(v: u32) -> Option<char> {
    if v <= 0xD7FF || (0xE000 <= v && v <= 0x10FFFF) {
        Some(v as char)
    } else {
        None
    }
}

/// The characters whose code points lie between those of `start` and `end`,
/// both included.
pub open spec fn char_range(start: char, end: char) -> Set<char> {
    Set::new(|c: char| start <= c && c <= end)
}

/// The code point of a character is the character taken as a number, and is
/// that of a scalar value.
pub proof fn lemma_code_point(c: char)
    ensures
        (c as u32) as int == c as int,
        scalar_value(c as u32) == Some(c),
{
    vstd::utf8::char_is_scalar(c);
    vstd::utf8::char_u32_cast(c, c as u32);
}

/// A set of characters has one presentation only: two strictly ascending
/// sequences with the same members are the same sequence.
pub proof fn lemma_ascending_unique(a: Seq<char>, b: Seq<char>)
    requires
        strictly_ascending(a),
        strictly_ascending(b),
        a.to_set() == b.to_set(),
    ensures
        a == b,
    decreases a.len(),
{
    if a.len() == 0 {
        if b.len() > 0 {
            assert(b.to_set().contains(b[0]));
            assert(a.contains(b[0]));
        }
        assert(a =~= b);
    } else {
        let x = a.last();
        assert(a.to_set().contains(x));
        assert(b.contains(x));
        let j = choose|j: int| 0 <= j < b.len() && b[j] == x;
        let y = b.last();
        assert(b.to_set().contains(y));
        assert(a.contains(y));
        let i = choose|i: int| 0 <= i < a.len() && a[i] == y;
        assert(x == y) by {
            if i < a.len() - 1 {
                assert(a[i] < a[a.len() - 1]);
            }
            if j < b.len() - 1 {
                assert(b[j] < b[b.len() - 1]);
            }
        }
        let a0 = a.drop_last();
        let b0 = b.drop_last();
        assert forall|c: char| a0.to_set().contains(c) <==> b0.to_set().contains(c) by {
            if a0.to_set().contains(c) {
                let k = choose|k: int| 0 <= k < a0.len() && a0[k] == c;
                assert(a[k] == c && a[k] < a[a.len() - 1]);
                assert(a.to_set().contains(c));
                assert(b.contains(c));
                let m = choose|m: int| 0 <= m < b.len() && b[m] == c;
                assert(m < b.len() - 1);
                assert(b0[m] == c);
            }
            if b0.to_set().contains(c) {
                let k = choose|k: int| 0 <= k < b0.len() && b0[k] == c;
                assert(b[k] == c && b[k] < b[b.len() - 1]);
                assert(b.to_set().contains(c));
                assert(a.contains(c));
                let m = choose|m: int| 0 <= m < a.len() && a[m] == c;
                assert(m < a.len() - 1);
                assert(a0[m] == c);
            }
        }
        assert(a0.to_set() =~= b0.to_set());
        lemma_ascending_unique(a0, b0);
        assert(a =~= a0.push(x));
        assert(b =~= b0.push(y));
    }
}

/// `std::char::from_u32`: the character with the given code point, or `None`
/// where the number is a surrogate or lies beyond `0x10FFFF`.
#[verifier::external_body]
fn char_from_u32(v: u32) -> (r: Option<char>)
    ensures
        r == scalar_value(v),
{
    char::from_u32(v)
}

/// A set of characters, presented in ascending order.
#[derive(Debug)]
pub struct CharSet {
    chars: Vec<char>,
}

impl View for CharSet {
    type V = Set<char>;

    open spec fn view(&self) -> Set<char> {
        self.seq().to_set()
    }
}

impl CharSet {
    /// The members in the order in which they are presented.
    pub closed spec fn seq(&self) -> Seq<char> {
        self.chars@
    }

    /// The members are held in strictly ascending order.
    pub open spec fn wf(&self) -> bool {
        strictly_ascending(self.seq())
    }

    /// The empty set.
    pub fn new() -> (r: CharSet)
        ensures
            r.wf(),
            r.seq() == Seq::<char>::empty(),
            r@ == Set::<char>::empty(),
    {
        let r = CharSet { chars: Vec::new() };
        assert(r.seq().to_set() =~= Set::<char>::empty());
        r
    }

    /// The number of members.
    pub fn len(&self) -> (n: usize)
        ensures
            n == self.seq().len(),
    {
        self.chars.len()
    }

    /// Whether the set has no member.
    pub fn is_empty(&self) -> (b: bool)
        ensures
            b == (self.seq().len() == 0),
    {
        self.chars.len() == 0
    }

    /// The members in ascending order.
    pub fn as_slice(&self) -> (r: &[char])
        ensures
            r@ == self.seq(),
    {
        self.chars.as_slice()
    }

    /// Whether `c` is a member.
    pub fn contains(&self, c: char) -> (b: bool)
        requires
            self.wf(),
        ensures
            b == self@.contains(c),
    {
        let mut lo: usize = 0;
        let mut hi: usize = self.chars.len();
        while lo < hi
            invariant
                self.wf(),
                lo <= hi <= self.chars.len(),
                forall|k: int| 0 <= k < lo ==> self.chars@[k] < c,
                forall|k: int| hi <= k < self.chars.len() ==> c < self.chars@[k],
            decreases hi - lo,
        {
            let mid: usize = lo + (hi - lo) / 2;
            let m: char = self.chars[mid];
            if m == c {
                assert(self.seq()[mid as int] == c);
                return true;
            } else if m < c {
                lo = mid + 1;
            } else {
                hi = mid;
            }
        }
        assert(!self.seq().contains(c));
        false
    }

    /// Adds `c`; says whether it was new.
    pub fn insert(&mut self, c: char) -> (added: bool)
        requires
            old(self).wf(),
        ensures
            final(self).wf(),
            final(self)@ == old(self)@.insert(c),
            added == !old(self)@.contains(c),
    {
        let mut i: usize = self.chars.len();
        while i > 0 && self.chars[i - 1] > c
            invariant
                i <= self.chars.len(),
                forall|k: int| i <= k < self.chars.len() ==> c < self.chars@[k],
            decreases i,
        {
            i -= 1;
        }
        let ghost before = self.chars@;
        if i > 0 && self.chars[i - 1] == c {
            assert(before[i - 1] == c);
            assert(before.to_set().insert(c) =~= before.to_set());
            false
        } else {
            self.chars.insert(i, c);
            proof {
                let after = self.chars@;
                assert forall|k: int| 0 <= k < before.len() implies before[k] != c by {
                    if k < i {
                        if i > 0 {
                            assert(before[k] <= before[i - 1]) by {
                                if k < i - 1 {
                                }
                            }
                        }
                    }
                }
                assert(!before.contains(c));
                assert forall|x: char| after.to_set().contains(x) <==> before.to_set().insert(
                    c,
                ).contains(x) by {
                    if after.to_set().contains(x) {
                        let k = choose|k: int| 0 <= k < after.len() && after[k] == x;
                        if k < i {
                            assert(before[k] == x);
                        } else if k > i {
                            assert(before[k - 1] == x);
                        }
                    }
                    if before.to_set().contains(x) {
                        let k = choose|k: int| 0 <= k < before.len() && before[k] == x;
                        if k < i {
                            assert(after[k] == x);
                        } else {
                            assert(after[k + 1] == x);
                        }
                    }
                    if x == c {
                        assert(after[i as int] == c);
                    }
                }
                assert(after.to_set() =~= before.to_set().insert(c));
                assert forall|a: int, b: int| 0 <= a < b < after.len() implies after[a] < after[b] by {
                    let pa = if a < i { a } else { a - 1 };
                    let pb = if b < i { b } else { b - 1 };
                    if a != i && b != i {
                        assert(after[a] == before[pa]);
                        assert(after[b] == before[pb]);
                    } else if a == i {
                        assert(after[b] == before[pb]);
                    } else {
                        assert(after[a] == before[pa]);
                        if i > 0 {
                            assert(before[pa] <= before[i - 1]) by {
                                if pa < i - 1 {
                                }
                            }
                        }
                    }
                }
            }
            true
        }
    }

    /// Adds every character from `start` to `end`, both included.
    pub fn insert_range(&mut self, start: char, end: char)
        requires
            old(self).wf(),
        ensures
            final(self).wf(),
            final(self)@ == old(self)@.union(char_range(start, end)),
    {
        let first: u32 = start as u32;
        let last: u32 = end as u32;
        if first > last {
            assert(self@.union(char_range(start, end)) =~= self@);
            return ;
        }
        let mut v: u32 = first;
        let ghost before = self@;
        assert(self@ =~= before.union(Set::new(|c: char| first <= c as u32 && (c as u32) < v)));
        while v <= last
            invariant
                self.wf(),
                first <= v,
                v <= last + 1,
                last <= 0x10FFFF,
                self@ == before.union(Set::new(|c: char| first <= c as u32 && (c as u32) < v)),
            decreases last + 1 - v,
        {
            match char_from_u32(v) {
                Some(c) => {
                    self.insert(c);
                },
                None => {},
            }
            proof {
                let now = before.union(
                    Set::new(|c: char| first <= c as u32 && (c as u32) < v + 1),
                );
                assert forall|x: char| self@.contains(x) <==> now.contains(x) by {
                    lemma_code_point(x);
                    if scalar_value(v) is Some {
                        lemma_code_point(scalar_value(v)->0);
                    }
                }
                assert(self@ =~= now);
            }
            v += 1;
        }
        assert forall|x: char|
            (first <= x as u32 && (x as u32) < v) <==> char_range(start, end).contains(x) by {
            lemma_code_point(x);
            lemma_code_point(start);
            lemma_code_point(end);
        }
        assert(self@ =~= before.union(char_range(start, end)));
    }
}

} // verus!
