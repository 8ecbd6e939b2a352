//! A set of byte strings, backed by a duplicate-free vector, with the
//! membership, union, intersection and difference operations the set-algebra
//! emulation needs. The backing vector also fixes the order in which a reply
//! lists the elements; the set itself promises nothing of that order.

use vstd::prelude::*;

use crate::resp::{array_reply, views, write_bulk_array};

verus! {

broadcast use vstd::set::group_set_axioms;

/// Compares two byte strings by value.
pub fn bytes_eq(a: &Vec<u8>, b: &Vec<u8>) -> (r: bool)
    ensures
        r == (a@ == b@),
{
    if a.len() != b.len() {
        return false;
    }
    let mut i: usize = 0;
    while i < a.len()
        invariant
            i <= a.len(),
            a@.len() == b@.len(),
            forall|j: int| 0 <= j < i ==> a@[j] == b@[j],
        decreases a.len() - i,
    {
        if a[i] != b[i] {
            return false;
        }
        i = i + 1;
    }
    proof {
        assert(a@ =~= b@);
    }
    true
}

/// Whether some element of `v` equals `x` by value.
pub fn contains_bytes(v: &Vec<Vec<u8>>, x: &Vec<u8>) -> (r: bool)
    ensures
        r == views(v@).contains(x@),
{
    let mut i: usize = 0;
    while i < v.len()
        invariant
            i <= v.len(),
            forall|j: int| 0 <= j < i ==> views(v@)[j] != x@,
        decreases v.len() - i,
    {
        if bytes_eq(&v[i], x) {
            assert(views(v@)[i as int] == x@);
            return true;
        }
        i = i + 1;
    }
    false
}

/// A set of byte strings: a vector of element values with no duplicates.
pub struct ByteSet {
    elems: Vec<Vec<u8>>,
}

impl ByteSet {
    /// The elements in their stored order, the order a reply lists them in.
    pub closed spec fn seq_view(self) -> Seq<Seq<u8>> {
        views(self.elems@)
    }

    /// The elements as a set.
    pub open spec fn set_view(self) -> Set<Seq<u8>> {
        self.seq_view().to_set()
    }

    /// Well-formedness: no element value occurs twice.
    pub closed spec fn wf(self) -> bool {
        self.seq_view().no_duplicates()
    }

    /// In a well-formed set the stored order lists each element exactly once.
    pub proof fn lemma_len(self)
        requires
            self.wf(),
        ensures
            self.seq_view().len() == self.set_view().len(),
            self.seq_view().no_duplicates(),
            self.set_view().finite(),
    {
        self.seq_view().unique_seq_to_set();
    }

    /// The empty set.
    pub fn new() -> (s: ByteSet)
        ensures
            s.wf(),
            s.seq_view() == Seq::<Seq<u8>>::empty(),
            s.set_view() == Set::<Seq<u8>>::empty(),
    {
        let s = ByteSet { elems: Vec::new() };
        proof {
            assert(s.seq_view() =~= Seq::<Seq<u8>>::empty());
            assert(s.set_view() =~= Set::<Seq<u8>>::empty());
        }
        s
    }

    /// The number of elements.
    pub fn len(&self) -> (r: usize)
        ensures
            r == self.seq_view().len(),
    {
        self.elems.len()
    }

    /// Whether the set is empty.
    pub fn is_empty(&self) -> (r: bool)
        ensures
            r == (self.seq_view().len() == 0),
            r == (self.set_view() == Set::<Seq<u8>>::empty()),
    {
        proof {
            if self.seq_view().len() == 0 {
                assert(self.set_view() =~= Set::<Seq<u8>>::empty());
            } else {
                assert(self.seq_view().contains(self.seq_view()[0]));
                assert(self.set_view().contains(self.seq_view()[0]));
            }
        }
        self.elems.len() == 0
    }

    /// Whether `x` is an element.
    pub fn contains(&self, x: &Vec<u8>) -> (r: bool)
        ensures
            r == self.set_view().contains(x@),
    {
        contains_bytes(&self.elems, x)
    }

    /// The elements in their stored order.
    pub fn elements(&self) -> (r: &Vec<Vec<u8>>)
        ensures
            views(r@) == self.seq_view(),
    {
        &self.elems
    }

    /// Adds `x` unless it is already an element; a new element goes to the
    /// end of the stored order.
    pub fn insert(&mut self, x: Vec<u8>)
        requires
            old(self).wf(),
        ensures
            final(self).wf(),
            final(self).set_view() == old(self).set_view().insert(x@),
    {
        if !self.contains(&x) {
            let ghost prev = self.seq_view();
            self.elems.push(x);
            proof {
                assert(self.seq_view() =~= prev.push(x@));
                assert forall|i: int, j: int|
                    0 <= i < self.seq_view().len() && 0 <= j < self.seq_view().len() && i
                        != j implies self.seq_view()[i] != self.seq_view()[j] by {
                    if i < prev.len() && j < prev.len() {
                    } else if j == prev.len() {
                        assert(prev[i] != x@) by {
                            if prev[i] == x@ {
                                assert(prev.contains(x@));
                            }
                        }
                    } else {
                        assert(prev[j] != x@) by {
                            if prev[j] == x@ {
                                assert(prev.contains(x@));
                            }
                        }
                    }
                }
                assert forall|a: Seq<u8>| #![trigger self.set_view().contains(a)]
                    self.set_view().contains(a) <==> old(self).set_view().insert(x@).contains(
                        a,
                    ) by {
                    if self.seq_view().contains(a) {
                        let i = choose|i: int|
                            0 <= i < self.seq_view().len() && #[trigger] self.seq_view()[i] == a;
                        if i < prev.len() {
                            assert(prev.contains(a));
                        }
                    }
                    if prev.contains(a) {
                        let i = choose|i: int| 0 <= i < prev.len() && #[trigger] prev[i] == a;
                        assert(self.seq_view()[i] == a);
                        assert(self.seq_view().contains(a));
                    }
                    if a == x@ {
                        assert(self.seq_view()[prev.len() as int] == a);
                        assert(self.seq_view().contains(a));
                    }
                }
                assert(self.set_view() =~= old(self).set_view().insert(x@));
            }
        } else {
            proof {
                assert(self.set_view() =~= old(self).set_view().insert(x@));
            }
        }
    }

    /// Adds every element of `elems`, consuming it: the union with the
    /// fetched members of a set.
    pub fn insert_all(&mut self, elems: Vec<Vec<u8>>)
        requires
            old(self).wf(),
        ensures
            final(self).wf(),
            final(self).set_view() == old(self).set_view().union(views(elems@).to_set()),
    {
        let mut rest = elems;
        let ghost vs = views(rest@);
        proof {
            assert(rest@ =~= rest@.take(rest@.len() as int));
        }
        while rest.len() > 0
            invariant
                old(self).wf(),
                self.wf(),
                vs == views(elems@),
                rest@.len() <= vs.len(),
                views(rest@) =~= vs.take(rest@.len() as int),
                self.set_view() == old(self).set_view().union(
                    vs.skip(rest@.len() as int).to_set(),
                ),
            decreases rest.len(),
        {
            let ghost prev = rest@;
            let ghost n = rest@.len() as int;
            let e = rest.pop().unwrap();
            proof {
                assert(views(rest@) =~= vs.take(n - 1));
                assert(e@ == views(prev)[n - 1]);
                assert(views(prev)[n - 1] == vs.take(n)[n - 1]);
                assert(vs.take(n)[n - 1] == vs[n - 1]);
            }
            self.insert(e);
            proof {
                assert forall|a: Seq<u8>| #![trigger vs.skip(n - 1).to_set().contains(a)]
                    vs.skip(n - 1).to_set().contains(a) <==> vs.skip(n).to_set().insert(
                        vs[n - 1],
                    ).contains(a) by {
                    if vs.skip(n - 1).contains(a) {
                        let i = choose|i: int|
                            0 <= i < vs.skip(n - 1).len() && #[trigger] vs.skip(n - 1)[i] == a;
                        if i == 0 {
                            assert(a == vs[n - 1]);
                        } else {
                            assert(vs.skip(n)[i - 1] == a);
                            assert(vs.skip(n).contains(a));
                        }
                    }
                    if vs.skip(n).contains(a) {
                        let i = choose|i: int| 0 <= i < vs.skip(n).len() && #[trigger] vs.skip(n)[i] == a;
                        assert(vs.skip(n - 1)[i + 1] == a);
                        assert(vs.skip(n - 1).contains(a));
                    }
                    if a == vs[n - 1] {
                        assert(vs.skip(n - 1)[0] == a);
                        assert(vs.skip(n - 1).contains(a));
                    }
                }
                assert(vs.skip(n - 1).to_set() =~= vs.skip(n).to_set().insert(vs[n - 1]));
                assert(self.set_view() =~= old(self).set_view().union(
                    vs.skip(rest@.len() as int).to_set(),
                ));
            }
        }
        proof {
            assert(vs.skip(0) =~= vs);
            assert(self.set_view() =~= old(self).set_view().union(views(elems@).to_set()));
        }
    }

    /// Builds the set holding the distinct values of `elems`.
    pub fn from_elements(elems: Vec<Vec<u8>>) -> (s: ByteSet)
        ensures
            s.wf(),
            s.set_view() == views(elems@).to_set(),
    {
        let mut s = ByteSet::new();
        let ghost empty = s.set_view();
        s.insert_all(elems);
        proof {
            assert(s.set_view() =~= views(elems@).to_set());
        }
        s
    }

    /// Removes every element.
    pub fn clear(&mut self)
        ensures
            final(self).wf(),
            final(self).seq_view() == Seq::<Seq<u8>>::empty(),
            final(self).set_view() == Set::<Seq<u8>>::empty(),
    {
        self.elems = Vec::new();
        proof {
            assert(self.seq_view() =~= Seq::<Seq<u8>>::empty());
            assert(self.set_view() =~= Set::<Seq<u8>>::empty());
        }
    }

    /// Keeps exactly the elements whose membership in `other` (as a value
    /// among its entries) equals `keep_present`.
    fn filter_members(&mut self, other: &Vec<Vec<u8>>, keep_present: bool)
        requires
            old(self).wf(),
        ensures
            final(self).wf(),
            forall|a: Seq<u8>|
                final(self).set_view().contains(a) <==> (old(self).set_view().contains(a)
                    && views(other@).contains(a) == keep_present),
    {
        let ghost orig = old(self).seq_view();
        let mut kept: Vec<Vec<u8>> = Vec::new();
        proof {
            assert(self.elems@ =~= old(self).elems@.take(self.elems@.len() as int));
        }
        while self.elems.len() > 0
            invariant
                old(self).wf(),
                orig == old(self).seq_view(),
                self.elems@.len() <= old(self).elems@.len(),
                self.elems@ =~= old(self).elems@.take(self.elems@.len() as int),
                views(kept@).no_duplicates(),
                forall|a: Seq<u8>|
                    views(kept@).contains(a) <==> (orig.skip(self.elems@.len() as int).contains(a)
                        && views(other@).contains(a) == keep_present),
            decreases self.elems.len(),
        {
            let ghost prev = self.elems@;
            let ghost n = self.elems@.len() as int;
            let e = self.elems.pop().unwrap();
            proof {
                assert(self.elems@ =~= old(self).elems@.take(n - 1));
                assert(e == prev[n - 1]);
                assert(prev[n - 1] == old(self).elems@.take(n)[n - 1]);
                assert(e@ == orig[n - 1]);
                assert forall|a: Seq<u8>| #![trigger orig.skip(n - 1).contains(a)]
                    orig.skip(n - 1).contains(a) <==> (orig.skip(n).contains(a) || a == orig[n
                        - 1]) by {
                    if orig.skip(n - 1).contains(a) {
                        let i = choose|i: int|
                            0 <= i < orig.skip(n - 1).len() && #[trigger] orig.skip(n - 1)[i] == a;
                        if i == 0 {
                            assert(a == orig[n - 1]);
                        } else {
                            assert(orig.skip(n)[i - 1] == a);
                        }
                    }
                    if orig.skip(n).contains(a) {
                        let i = choose|i: int| 0 <= i < orig.skip(n).len() && #[trigger] orig.skip(n)[i] == a;
                        assert(orig.skip(n - 1)[i + 1] == a);
                    }
                    if a == orig[n - 1] {
                        assert(orig.skip(n - 1)[0] == a);
                    }
                }
                // the popped value is not among the kept ones: it sits at
                // position n - 1 of a duplicate-free sequence, and every kept
                // value sits at a later position
                assert(!views(kept@).contains(e@)) by {
                    if views(kept@).contains(e@) {
                        assert(orig.skip(n).contains(e@));
                        let i = choose|i: int| 0 <= i < orig.skip(n).len() && #[trigger] orig.skip(n)[i] == e@;
                        assert(orig[n + i] == e@);
                        assert(orig[n - 1] == e@);
                    }
                }
            }
            if contains_bytes(other, &e) == keep_present {
                let ghost kept_prev = views(kept@);
                kept.push(e);
                proof {
                    assert(views(kept@) =~= kept_prev.push(e@));
                    assert forall|i: int, j: int|
                        0 <= i < views(kept@).len() && 0 <= j < views(kept@).len() && i
                            != j implies views(kept@)[i] != views(kept@)[j] by {
                        if i < kept_prev.len() && j < kept_prev.len() {
                        } else if j == kept_prev.len() {
                            assert(kept_prev[i] != e@) by {
                                if kept_prev[i] == e@ {
                                    assert(kept_prev.contains(e@));
                                }
                            }
                        } else {
                            assert(kept_prev[j] != e@) by {
                                if kept_prev[j] == e@ {
                                    assert(kept_prev.contains(e@));
                                }
                            }
                        }
                    }
                    assert forall|a: Seq<u8>| #![trigger views(kept@).contains(a)]
                        views(kept@).contains(a) <==> (kept_prev.contains(a) || a == e@) by {
                        if views(kept@).contains(a) {
                            let i = choose|i: int|
                                0 <= i < views(kept@).len() && #[trigger] views(kept@)[i] == a;
                            if i < kept_prev.len() {
                                assert(kept_prev[i] == a);
                            }
                        }
                        if kept_prev.contains(a) {
                            let i = choose|i: int| 0 <= i < kept_prev.len() && #[trigger] kept_prev[i] == a;
                            assert(views(kept@)[i] == a);
                        }
                        if a == e@ {
                            assert(views(kept@)[kept_prev.len() as int] == a);
                        }
                    }
                }
            }
        }
        self.elems = kept;
        proof {
            assert(orig.skip(0) =~= orig);
            assert forall|a: Seq<u8>| #![trigger self.set_view().contains(a)]
                self.set_view().contains(a) <==> (old(self).set_view().contains(a) && views(
                    other@,
                ).contains(a) == keep_present) by {
                assert(self.set_view().contains(a) <==> self.seq_view().contains(a));
                assert(old(self).set_view().contains(a) <==> orig.contains(a));
            }
        }
    }

    /// Removes every value listed in `other`: the difference with the
    /// fetched members of a set.
    pub fn remove_all(&mut self, other: &Vec<Vec<u8>>)
        requires
            old(self).wf(),
        ensures
            final(self).wf(),
            final(self).set_view() == old(self).set_view().difference(views(other@).to_set()),
    {
        self.filter_members(other, false);
        proof {
            assert(self.set_view() =~= old(self).set_view().difference(views(other@).to_set()));
        }
    }

    /// Keeps only the values listed in `other`: the intersection with the
    /// fetched members of a set.
    pub fn retain_all(&mut self, other: &Vec<Vec<u8>>)
        requires
            old(self).wf(),
        ensures
            final(self).wf(),
            final(self).set_view() == old(self).set_view().intersect(views(other@).to_set()),
    {
        self.filter_members(other, true);
        proof {
            assert(self.set_view() =~= old(self).set_view().intersect(views(other@).to_set()));
        }
    }

    /// Appends the array reply listing the elements in their stored order.
    pub fn write_reply(&self, response_buf: &mut Vec<u8>)
        ensures
            final(response_buf)@ == old(response_buf)@ + array_reply(self.seq_view()),
    {
        write_bulk_array(response_buf, &self.elems);
    }
}

} // verus!
