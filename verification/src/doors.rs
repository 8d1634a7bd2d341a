//! The door identities and the small ordered set of doors that a round
//! draws from.

use vstd::prelude::*;
use vstd::assert_seqs_equal;
use crate::rng::draw_raw;

verus! {

/// One of the three doors a prize can hide behind.
#[derive(Copy, Clone, PartialEq, Eq, Hash, Debug, Structural)]
pub enum Door {
    DoorOne,
    DoorTwo,
    DoorThree,
}

/// The fixed three-door universe, in its conventional order.
pub open spec fn universe() -> Seq<Door> {
    seq![Door::DoorOne, Door::DoorTwo, Door::DoorThree]
}

/// `s` with its first occurrence of `d` taken out; `s` unchanged when `d`
/// is absent.
pub open spec fn remove_first(s: Seq<Door>, d: Door) -> Seq<Door>
    decreases s.len(),
{
    if s.len() == 0 {
        s
    } else if s[0] == d {
        s.drop_first()
    } else {
        seq![s[0]] + remove_first(s.drop_first(), d)
    }
}

/// An ordered collection of doors. The simulator only ever builds it from
/// the duplicate-free universe, and never asks an empty one for a random
/// draw.
pub struct Doors {
    doors: Vec<Door>,
}

impl View for Doors {
    type V = Seq<Door>;

    closed spec fn view(&self) -> Seq<Door> {
        self.doors@
    }
}

/// The full three-door universe as a concrete collection.
pub fn all_doors() -> (r: Doors)
    ensures
        r@ == universe(),
{
    let data: [Door; 3] = [Door::DoorOne, Door::DoorTwo, Door::DoorThree];
    let r = Doors::from_slice(data.as_slice());
    proof {
        assert_seqs_equal!(r@, universe());
    }
    r
}

impl Doors {
    pub fn index(&self, index: usize) -> (d: Door)
        requires
            index < self@.len(),
        ensures
            d == self@[index as int],
    {
        self.doors[index]
    }

    pub fn len(&self) -> (n: usize)
        ensures
            n == self@.len(),
    {
        self.doors.len()
    }

    pub fn from_slice(data: &[Door]) -> (r: Doors)
        ensures
            r@ == data@,
    {
        let n = data.len();
        let mut doors: Vec<Door> = Vec::new();
        let mut i: usize = 0;
        while i < n
            invariant
                i <= n,
                n == data@.len(),
                doors@ == data@.subrange(0, i as int),
            decreases n - i,
        {
            doors.push(data[i]);
            proof {
                assert_seqs_equal!(doors@, data@.subrange(0, i + 1 as int));
            }
            i = i + 1;
        }
        proof {
            assert_seqs_equal!(doors@, data@);
        }
        Doors { doors }
    }

    /// A fresh collection without the first occurrence of `door`; an
    /// equivalent copy when `door` is absent. The receiver is unchanged.
    pub fn without(&self, door: Door) -> (r: Doors)
        ensures
            r@ == remove_first(self@, door),
    {
        let n = self.doors.len();
        let mut i: usize = 0;
        while i < n && self.doors[i] != door
            invariant
                i <= n,
                n == self@.len(),
                forall|j: int| 0 <= j < i ==> self@[j] != door,
            decreases n - i,
        {
            i = i + 1;
        }
        let mut doors: Vec<Door> = Vec::new();
        if i == n {
            let mut k: usize = 0;
            while k < n
                invariant
                    k <= n,
                    n == self@.len(),
                    doors@ == self@.subrange(0, k as int),
                decreases n - k,
            {
                doors.push(self.doors[k]);
                proof {
                    assert_seqs_equal!(doors@, self@.subrange(0, k + 1 as int));
                }
                k = k + 1;
            }
            proof {
                assert(forall|j: int| 0 <= j < self@.len() ==> self@[j] != door);
                assert(!self@.contains(door));
                lemma_remove_first_absent(self@, door);
                assert_seqs_equal!(doors@, remove_first(self@, door));
            }
        } else {
            let mut k: usize = 0;
            while k < n
                invariant
                    k <= n,
                    n == self@.len(),
                    i < n,
                    self@[i as int] == door,
                    forall|j: int| 0 <= j < i ==> self@[j] != door,
                    k <= i ==> doors@ == self@.subrange(0, k as int),
                    k > i ==> doors@ == self@.subrange(0, i as int) + self@.subrange(
                        i + 1 as int,
                        k as int,
                    ),
                decreases n - k,
            {
                if k != i {
                    doors.push(self.doors[k]);
                    proof {
                        if k < i {
                            assert_seqs_equal!(doors@, self@.subrange(0, k + 1 as int));
                        } else {
                            assert_seqs_equal!(
                                doors@,
                                self@.subrange(0, i as int) + self@.subrange(i + 1 as int, k + 1 as int)
                            );
                        }
                    }
                } else {
                    proof {
                        assert_seqs_equal!(
                            doors@,
                            self@.subrange(0, i as int) + self@.subrange(i + 1 as int, k + 1 as int)
                        );
                    }
                }
                k = k + 1;
            }
            proof {
                lemma_remove_first_found(self@, door, i as int);
                assert_seqs_equal!(doors@, remove_first(self@, door));
            }
        }
        Doors { doors }
    }

    /// One door of the collection, chosen by the generator; every element
    /// may come back.
    pub fn random(&self, rng: &mut rand::rngs::StdRng) -> (d: Door)
        requires
            self@.len() > 0,
        ensures
            self@.contains(d),
    {
        let raw = draw_raw(rng);
        let ix = raw % self.len();
        let d = self.index(ix);
        proof {
            assert(self@.contains(d)) by {
                assert(self@[ix as int] == d);
            }
        }
        d
    }
}

/// Removing an absent door changes nothing.
pub proof fn lemma_remove_first_absent(s: Seq<Door>, d: Door)
    requires
        !s.contains(d),
    ensures
        remove_first(s, d) == s,
    decreases s.len(),
{
    if s.len() == 0 {
        assert_seqs_equal!(remove_first(s, d), s);
    } else {
        assert(s[0] != d);
        assert(!s.drop_first().contains(d)) by {
            assert(forall|j: int| 0 <= j < s.drop_first().len() ==> s.drop_first()[j] == s[j + 1]);
        }
        lemma_remove_first_absent(s.drop_first(), d);
        assert_seqs_equal!(remove_first(s, d), s);
    }
}

/// Removal shortens the sequence by one exactly when the door was present.
pub proof fn lemma_remove_first_len(s: Seq<Door>, d: Door)
    ensures
        s.contains(d) ==> remove_first(s, d).len() == s.len() - 1,
        !s.contains(d) ==> remove_first(s, d).len() == s.len(),
    decreases s.len(),
{
    if s.len() == 0 {
    } else if s[0] == d {
        assert(s.contains(d));
    } else {
        lemma_remove_first_len(s.drop_first(), d);
        if s.contains(d) {
            let w = choose|w: int| 0 <= w < s.len() && s[w] == d;
            assert(s.drop_first()[w - 1] == d);
            assert(s.drop_first().contains(d));
        } else {
            assert(forall|j: int| 0 <= j < s.drop_first().len() ==> s.drop_first()[j] == s[j + 1]);
            assert(!s.drop_first().contains(d));
        }
    }
}

/// Every door of the removal's result already stood in the sequence.
pub proof fn lemma_remove_first_subset(s: Seq<Door>, d: Door, x: Door)
    requires
        remove_first(s, d).contains(x),
    ensures
        s.contains(x),
    decreases s.len(),
{
    if s.len() == 0 {
    } else if s[0] == d {
        let w = choose|w: int| 0 <= w < s.drop_first().len() && s.drop_first()[w] == x;
        assert(s[w + 1] == x);
    } else {
        let r = remove_first(s, d);
        let w = choose|w: int| 0 <= w < r.len() && r[w] == x;
        if w == 0 {
            assert(s[0] == x);
        } else {
            assert(remove_first(s.drop_first(), d)[w - 1] == x);
            assert(remove_first(s.drop_first(), d).contains(x));
            lemma_remove_first_subset(s.drop_first(), d, x);
            let v = choose|v: int| 0 <= v < s.drop_first().len() && s.drop_first()[v] == x;
            assert(s[v + 1] == x);
        }
    }
}

/// Removal of one door keeps every other door that was present.
pub proof fn lemma_remove_first_keeps_others(s: Seq<Door>, d: Door, x: Door)
    requires
        s.contains(x),
        x != d,
    ensures
        remove_first(s, d).contains(x),
    decreases s.len(),
{
    let t = s.drop_first();
    assert(forall|j: int| 0 <= j < t.len() ==> t[j] == s[j + 1]);
    if s[0] == d {
        let w = choose|w: int| 0 <= w < s.len() && s[w] == x;
        assert(w != 0);
        assert(t[w - 1] == x);
        assert(t.contains(x));
    } else if s[0] == x {
        assert(remove_first(s, d)[0] == x);
        assert(remove_first(s, d).contains(x));
    } else {
        let w = choose|w: int| 0 <= w < s.len() && s[w] == x;
        assert(w != 0);
        assert(t[w - 1] == x);
        assert(t.contains(x));
        lemma_remove_first_keeps_others(t, d, x);
        let r = remove_first(s, d);
        let rt = remove_first(t, d);
        let v = choose|v: int| 0 <= v < rt.len() && rt[v] == x;
        assert(r[v + 1] == x);
        assert(r.contains(x));
    }
}

/// On a duplicate-free sequence, removal leaves a duplicate-free sequence
/// that no longer holds the removed door at all.
pub proof fn lemma_remove_first_no_duplicates(s: Seq<Door>, d: Door)
    requires
        s.no_duplicates(),
    ensures
        remove_first(s, d).no_duplicates(),
        !remove_first(s, d).contains(d),
    decreases s.len(),
{
    if s.len() == 0 {
    } else {
        let t = s.drop_first();
        assert(forall|j: int| 0 <= j < t.len() ==> t[j] == s[j + 1]);
        assert(t.no_duplicates());
        if s[0] == d {
            assert(!t.contains(d)) by {
                if t.contains(d) {
                    let w = choose|w: int| 0 <= w < t.len() && t[w] == d;
                    assert(s[w + 1] == d && s[0] == d);
                }
            }
        } else {
            lemma_remove_first_no_duplicates(t, d);
            let r = remove_first(s, d);
            let rt = remove_first(t, d);
            assert(r == seq![s[0]] + rt);
            assert(!r.contains(d)) by {
                if r.contains(d) {
                    let w = choose|w: int| 0 <= w < r.len() && r[w] == d;
                    if w == 0 {
                        assert(s[0] == d);
                    } else {
                        assert(rt[w - 1] == d);
                        assert(rt.contains(d));
                    }
                }
            }
            assert(r.no_duplicates()) by {
                assert(!rt.contains(s[0])) by {
                    if rt.contains(s[0]) {
                        lemma_remove_first_subset(t, d, s[0]);
                        let w = choose|w: int| 0 <= w < t.len() && t[w] == s[0];
                        assert(s[w + 1] == s[0]);
                    }
                }
                assert(forall|p: int, q: int|
                    0 <= p < q < r.len() ==> r[p] != r[q]) by {
                    assert(forall|q: int| 1 <= q < r.len() ==> r[q] == rt[q - 1]);
                }
            }
        }
    }
}

/// The universe holds every door, each exactly once.
pub proof fn lemma_universe_facts()
    ensures
        universe().len() == 3,
        universe().no_duplicates(),
        forall|d: Door| universe().contains(d),
{
    assert(forall|d: Door| universe().contains(d)) by {
        assert forall|d: Door| universe().contains(d) by {
            match d {
                Door::DoorOne => assert(universe()[0] == d),
                Door::DoorTwo => assert(universe()[1] == d),
                Door::DoorThree => assert(universe()[2] == d),
            }
        }
    }
}

/// Excluding any door from the full universe leaves exactly two doors,
/// and never the excluded one.
pub proof fn lemma_all_without(d: Door)
    ensures
        remove_first(universe(), d).len() == 2,
        !remove_first(universe(), d).contains(d),
{
    lemma_universe_facts();
    lemma_remove_first_len(universe(), d);
    lemma_remove_first_no_duplicates(universe(), d);
}

/// Where the first occurrence of `d` stands at index `i`, removal splices
/// the sequence around `i`.
pub proof fn lemma_remove_first_found(s: Seq<Door>, d: Door, i: int)
    requires
        0 <= i < s.len(),
        s[i] == d,
        forall|j: int| 0 <= j < i ==> s[j] != d,
    ensures
        remove_first(s, d) == s.subrange(0, i) + s.subrange(i + 1, s.len() as int),
    decreases i,
{
    if i == 0 {
        assert_seqs_equal!(remove_first(s, d), s.subrange(0, i) + s.subrange(i + 1, s.len() as int));
    } else {
        assert(s[0] != d);
        let t = s.drop_first();
        assert(t[i - 1] == d);
        assert(forall|j: int| 0 <= j < i - 1 ==> t[j] == s[j + 1] && t[j] != d);
        lemma_remove_first_found(t, d, i - 1);
        assert_seqs_equal!(
            remove_first(s, d),
            s.subrange(0, i) + s.subrange(i + 1, s.len() as int)
        );
    }
}

} // verus!
