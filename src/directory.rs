//! Sets of byte strings and of pairs of byte strings, and the peer directory
//! built on them: which addresses are known for which peer.
use crate::bytes::{bytes_clone, bytes_eq};
use vstd::prelude::*;

verus! {

/// The views of a sequence of byte strings.
pub open spec fn byte_views(v: Seq<Vec<u8>>) -> Seq<Seq<u8>> {
    v.map_values(|b: Vec<u8>| b@)
}

/// The views of a sequence of pairs of byte strings.
pub open spec fn pair_views(v: Seq<(Vec<u8>, Vec<u8>)>) -> Seq<(Seq<u8>, Seq<u8>)> {
    v.map_values(|e: (Vec<u8>, Vec<u8>)| (e.0@, e.1@))
}

/// A set of byte strings without duplicates, kept in insertion order.
pub struct ByteSet {
    items: Vec<Vec<u8>>,
}

impl ByteSet {
    pub closed spec fn seq(&self) -> Seq<Seq<u8>> {
        byte_views(self.items@)
    }

    pub open spec fn set(&self) -> Set<Seq<u8>> {
        self.seq().to_set()
    }

    pub open spec fn wf(&self) -> bool {
        self.seq().no_duplicates()
    }

    pub fn new() -> (r: Self)
        ensures
            r.wf(),
            r.set() == Set::<Seq<u8>>::empty(),
    {
        let r = ByteSet { items: Vec::new() };
        assert(r.seq() =~= Seq::<Seq<u8>>::empty());
        assert(r.set() =~= Set::<Seq<u8>>::empty());
        r
    }

    fn index_of(&self, b: &Vec<u8>) -> (r: Option<usize>)
        ensures
            match r {
                Some(i) => i < self.seq().len() && self.seq()[i as int] == b@,
                None => !self.seq().contains(b@),
            },
    {
        let mut i: usize = 0;
        while i < self.items.len()
            invariant
                i <= self.items@.len(),
                forall|j: int| 0 <= j < i ==> self.seq()[j] != b@,
            decreases self.items@.len() - i,
        {
            if bytes_eq(&self.items[i], b) {
                return Some(i);
            }
            i = i + 1;
        }
        None
    }

    pub fn contains(&self, b: &Vec<u8>) -> (r: bool)
        ensures
            r == self.set().contains(b@),
    {
        match self.index_of(b) {
            Some(_) => true,
            None => false,
        }
    }

    /// Add `b`; returns whether it was new.
    pub fn insert(&mut self, b: &Vec<u8>) -> (r: bool)
        requires
            old(self).wf(),
        ensures
            final(self).wf(),
            final(self).set() == old(self).set().insert(b@),
            r == !old(self).set().contains(b@),
    {
        match self.index_of(b) {
            Some(_) => {
                assert(self.set() =~= self.set().insert(b@));
                false
            },
            None => {
                let ghost s = self.seq();
                self.items.push(bytes_clone(b));
                assert(self.seq() =~= s.push(b@));
                assert(self.set() =~= s.to_set().insert(b@)) by {
                    vstd::seq_lib::lemma_seq_contains_after_push(s, b@, b@);
                    assert forall|x: Seq<u8>| self.set().contains(x) <==> s.to_set().insert(
                        b@,
                    ).contains(x) by {
                        vstd::seq_lib::lemma_seq_contains_after_push(s, b@, x);
                    }
                }
                assert(self.seq().no_duplicates()) by {
                    assert forall|a: int, c: int|
                        0 <= a < self.seq().len() && 0 <= c < self.seq().len() && a != c implies self.seq()[a]
                        != self.seq()[c] by {
                        if a == s.len() as int {
                            assert(s.contains(self.seq()[c]));
                        } else if c == s.len() as int {
                            assert(s.contains(self.seq()[a]));
                        }
                    }
                }
                true
            },
        }
    }

    /// Remove `b`; returns whether it was there.
    pub fn remove(&mut self, b: &Vec<u8>) -> (r: bool)
        requires
            old(self).wf(),
        ensures
            final(self).wf(),
            final(self).set() == old(self).set().remove(b@),
            r == old(self).set().contains(b@),
    {
        match self.index_of(b) {
            Some(i) => {
                let ghost s = self.seq();
                self.items.remove(i);
                assert(self.seq() =~= s.remove(i as int));
                assert(self.set() =~= s.to_set().remove(b@)) by {
                    assert forall|x: Seq<u8>| self.set().contains(x) <==> s.to_set().remove(
                        b@,
                    ).contains(x) by {
                        if s.to_set().remove(b@).contains(x) {
                            let k = choose|k: int| 0 <= k < s.len() && s[k] == x;
                            assert(k != i as int);
                            if k < i {
                                assert(self.seq()[k] == x);
                            } else {
                                assert(self.seq()[k - 1] == x);
                            }
                        }
                    }
                }
                true
            },
            None => {
                assert(self.set() =~= self.set().remove(b@));
                false
            },
        }
    }
}

/// A set of (first, second) pairs of byte strings without duplicates.
pub struct PairSet {
    items: Vec<(Vec<u8>, Vec<u8>)>,
}

impl PairSet {
    pub closed spec fn seq(&self) -> Seq<(Seq<u8>, Seq<u8>)> {
        pair_views(self.items@)
    }

    pub open spec fn set(&self) -> Set<(Seq<u8>, Seq<u8>)> {
        self.seq().to_set()
    }

    pub open spec fn wf(&self) -> bool {
        self.seq().no_duplicates()
    }

    pub fn new() -> (r: Self)
        ensures
            r.wf(),
            r.set() == Set::<(Seq<u8>, Seq<u8>)>::empty(),
    {
        let r = PairSet { items: Vec::new() };
        assert(r.seq() =~= Seq::<(Seq<u8>, Seq<u8>)>::empty());
        assert(r.set() =~= Set::<(Seq<u8>, Seq<u8>)>::empty());
        r
    }

    fn index_of(&self, a: &Vec<u8>, b: &Vec<u8>) -> (r: Option<usize>)
        ensures
            match r {
                Some(i) => i < self.seq().len() && self.seq()[i as int] == (a@, b@),
                None => !self.seq().contains((a@, b@)),
            },
    {
        let mut i: usize = 0;
        while i < self.items.len()
            invariant
                i <= self.items@.len(),
                forall|j: int| 0 <= j < i ==> self.seq()[j] != (a@, b@),
            decreases self.items@.len() - i,
        {
            if bytes_eq(&self.items[i].0, a) && bytes_eq(&self.items[i].1, b) {
                return Some(i);
            }
            i = i + 1;
        }
        None
    }

    pub fn contains(&self, a: &Vec<u8>, b: &Vec<u8>) -> (r: bool)
        ensures
            r == self.set().contains((a@, b@)),
    {
        match self.index_of(a, b) {
            Some(_) => true,
            None => false,
        }
    }

    /// Add the pair (`a`, `b`); returns whether it was new.
    pub fn insert(&mut self, a: &Vec<u8>, b: &Vec<u8>) -> (r: bool)
        requires
            old(self).wf(),
        ensures
            final(self).wf(),
            final(self).set() == old(self).set().insert((a@, b@)),
            r == !old(self).set().contains((a@, b@)),
    {
        match self.index_of(a, b) {
            Some(_) => {
                assert(self.set() =~= self.set().insert((a@, b@)));
                false
            },
            None => {
                let ghost s = self.seq();
                let ghost e = (a@, b@);
                self.items.push((bytes_clone(a), bytes_clone(b)));
                assert(self.seq() =~= s.push(e));
                assert(self.set() =~= s.to_set().insert(e)) by {
                    assert forall|x: (Seq<u8>, Seq<u8>)| self.set().contains(x) <==> s.to_set().insert(
                        e,
                    ).contains(x) by {
                        vstd::seq_lib::lemma_seq_contains_after_push(s, e, x);
                    }
                }
                assert(self.seq().no_duplicates()) by {
                    assert forall|i: int, j: int|
                        0 <= i < self.seq().len() && 0 <= j < self.seq().len() && i != j implies self.seq()[i]
                        != self.seq()[j] by {
                        if i == s.len() as int {
                            assert(s.contains(self.seq()[j]));
                        } else if j == s.len() as int {
                            assert(s.contains(self.seq()[i]));
                        }
                    }
                }
                true
            },
        }
    }

    /// Remove every pair whose first part is `a`.
    pub fn remove_first(&mut self, a: &Vec<u8>)
        requires
            old(self).wf(),
        ensures
            final(self).wf(),
            final(self).set() == old(self).set().filter(|e: (Seq<u8>, Seq<u8>)| e.0 != a@),
    {
        let ghost s = self.seq();
        let mut kept: Vec<(Vec<u8>, Vec<u8>)> = Vec::new();
        let mut i: usize = 0;
        while i < self.items.len()
            invariant
                i <= self.items@.len(),
                s == self.seq(),
                s.no_duplicates(),
                pair_views(kept@).no_duplicates(),
                forall|x: (Seq<u8>, Seq<u8>)| #[trigger]
                    pair_views(kept@).contains(x) <==> (exists|
                        j: int,
                    | 0 <= j < i && s[j] == x && x.0 != a@),
            decreases self.items@.len() - i,
        {
            let ghost k = pair_views(kept@);
            if !bytes_eq(&self.items[i].0, a) {
                let e = (bytes_clone(&self.items[i].0), bytes_clone(&self.items[i].1));
                kept.push(e);
                let ghost k2 = pair_views(kept@);
                assert(k2 =~= k.push(s[i as int]));
                assert(!k.contains(s[i as int])) by {
                    if k.contains(s[i as int]) {
                        let j = choose|j: int| 0 <= j < i && s[j] == s[i as int] && s[i as int].0 != a@;
                    }
                }
                assert forall|x: (Seq<u8>, Seq<u8>)| #[trigger] k2.contains(x) <==> (exists|j: int|
                    0 <= j < i + 1 && s[j] == x && x.0 != a@) by {
                    vstd::seq_lib::lemma_seq_contains_after_push(k, s[i as int], x);
                    if k2.contains(x) && x == s[i as int] {
                        assert(s[i as int] == x);
                    }
                }
                assert forall|p: int, q: int|
                    0 <= p < k2.len() && 0 <= q < k2.len() && p != q implies k2[p] != k2[q] by {
                    if p == k.len() as int {
                        assert(k.contains(k2[q]));
                    } else if q == k.len() as int {
                        assert(k.contains(k2[p]));
                    }
                }
            } else {
                assert forall|x: (Seq<u8>, Seq<u8>)| #[trigger] k.contains(x) <==> (exists|j: int|
                    0 <= j < i + 1 && s[j] == x && x.0 != a@) by {
                    if exists|j: int| 0 <= j < i + 1 && s[j] == x && x.0 != a@ {
                        let j = choose|j: int| 0 <= j < i + 1 && s[j] == x && x.0 != a@;
                        assert(j != i as int);
                    }
                }
            }
            i = i + 1;
        }
        self.items = kept;
        assert(self.set() =~= s.to_set().filter(|e: (Seq<u8>, Seq<u8>)| e.0 != a@));
    }

    /// The second parts of the pairs whose first part is `a`.
    pub fn seconds_of(&self, a: &Vec<u8>) -> (r: Vec<Vec<u8>>)
        ensures
            forall|b: Seq<u8>| #[trigger]
                byte_views(r@).contains(b) <==> self.set().contains((a@, b)),
    {
        let mut r: Vec<Vec<u8>> = Vec::new();
        let mut i: usize = 0;
        while i < self.items.len()
            invariant
                i <= self.items@.len(),
                forall|b: Seq<u8>| #[trigger]
                    byte_views(r@).contains(b) <==> (exists|j: int|
                        0 <= j < i && self.seq()[j] == (a@, b)),
            decreases self.items@.len() - i,
        {
            let ghost rv = byte_views(r@);
            if bytes_eq(&self.items[i].0, a) {
                r.push(bytes_clone(&self.items[i].1));
                let ghost rv2 = byte_views(r@);
                assert(rv2 =~= rv.push(self.seq()[i as int].1));
                assert forall|b: Seq<u8>| #[trigger] rv2.contains(b) <==> (exists|j: int|
                    0 <= j < i + 1 && self.seq()[j] == (a@, b)) by {
                    vstd::seq_lib::lemma_seq_contains_after_push(rv, self.seq()[i as int].1, b);
                    if rv2.contains(b) && b == self.seq()[i as int].1 {
                        assert(self.seq()[i as int] == (a@, b));
                    }
                }
            } else {
                assert forall|b: Seq<u8>| #[trigger] rv.contains(b) <==> (exists|j: int|
                    0 <= j < i + 1 && self.seq()[j] == (a@, b)) by {
                    if exists|j: int| 0 <= j < i + 1 && self.seq()[j] == (a@, b) {
                        let j = choose|j: int| 0 <= j < i + 1 && self.seq()[j] == (a@, b);
                        assert(j != i as int);
                    }
                }
            }
            i = i + 1;
        }
        r
    }
}

} // verus!
