//! The set-algebra emulation: difference, intersection and union over
//! backend sets addressed by an ordered sequence of keys, computed
//! client-side because the backend can fetch only one key's set at a time.
//!
//! The emulation is a step machine. The runtime asks `next_key` which key to
//! fetch, performs that one fetch under its own deadline, and hands the
//! outcome to `absorb`; `finish` writes the array reply. Difference and
//! intersection stop issuing fetches once the running set is empty — those
//! modes can never grow it again — while union fetches every key. Any failed
//! fetch aborts the whole command instead of being absorbed: no partial
//! result is ever returned.

use vstd::prelude::*;

use crate::backend::{fetched_set, SetFetch};
use crate::byteset::ByteSet;
use crate::request::{SetDiff, SetIntersect, SetUnion};
use crate::resp::array_reply;

verus! {

broadcast use vstd::set::group_set_axioms;

/// The three emulated multi-key set operations.
#[derive(Clone, Copy, PartialEq, Eq, Structural)]
pub enum SetMode {
    Difference,
    Intersection,
    Union,
}

/// One combining step: how a later key's set changes the running set.
pub open spec fn combine(mode: SetMode, acc: Set<Seq<u8>>, s: Set<Seq<u8>>) -> Set<Seq<u8>> {
    match mode {
        SetMode::Difference => acc.difference(s),
        SetMode::Intersection => acc.intersect(s),
        SetMode::Union => acc.union(s),
    }
}

/// The left-to-right fold of `combine` over the fetched sets; the first set
/// is the base.
pub open spec fn fold_sets(mode: SetMode, sets: Seq<Set<Seq<u8>>>) -> Set<Seq<u8>>
    recommends
        sets.len() >= 1,
    decreases sets.len(),
{
    if sets.len() <= 1 {
        sets[0]
    } else {
        combine(mode, fold_sets(mode, sets.drop_last()), sets.last())
    }
}

/// The union of all sets of `sets`.
pub open spec fn union_all(sets: Seq<Set<Seq<u8>>>) -> Set<Seq<u8>>
    decreases sets.len(),
{
    if sets.len() == 0 {
        Set::<Seq<u8>>::empty()
    } else {
        union_all(sets.drop_last()).union(sets.last())
    }
}

/// The in-progress emulation of one multi-key set command.
pub struct SetFold {
    mode: SetMode,
    nkeys: usize,
    fetched: usize,
    acc: ByteSet,
    history: Ghost<Seq<Set<Seq<u8>>>>,
}

impl SetFold {
    /// The operation being emulated.
    pub closed spec fn mode_spec(self) -> SetMode {
        self.mode
    }

    /// How many keys the request names.
    pub closed spec fn keys_total(self) -> nat {
        self.nkeys as nat
    }

    /// How many keys have been fetched and absorbed so far.
    pub closed spec fn keys_fetched(self) -> nat {
        self.fetched as nat
    }

    /// The sets absorbed so far, in key order, a miss as the empty set.
    pub closed spec fn fetched_sets(self) -> Seq<Set<Seq<u8>>> {
        self.history@
    }

    /// The running result as a set.
    pub closed spec fn result_set(self) -> Set<Seq<u8>> {
        self.acc.set_view()
    }

    /// The running result's elements in the order a reply lists them.
    pub closed spec fn result_elems(self) -> Seq<Seq<u8>> {
        self.acc.seq_view()
    }

    /// Well-formedness: one absorbed set per fetched key, and the running
    /// set is their fold.
    pub closed spec fn wf(self) -> bool {
        &&& self.acc.wf()
        &&& self.fetched <= self.nkeys
        &&& self.history@.len() == self.fetched as int
        &&& (self.fetched >= 1 ==> self.acc.set_view() == fold_sets(self.mode, self.history@))
        &&& (self.fetched == 0 ==> self.acc.set_view() == Set::<Seq<u8>>::empty())
    }

    /// The running set of a well-formed machine is the fold of the sets
    /// absorbed so far.
    pub proof fn lemma_result(self)
        requires
            self.wf(),
        ensures
            self.fetched_sets().len() == self.keys_fetched(),
            self.keys_fetched() >= 1 ==> self.result_set() == fold_sets(
                self.mode_spec(),
                self.fetched_sets(),
            ),
            self.keys_fetched() == 0 ==> self.result_set() == Set::<Seq<u8>>::empty(),
            self.result_elems().to_set() == self.result_set(),
            self.result_elems().no_duplicates(),
            self.result_elems().len() == self.result_set().len(),
    {
        self.acc.lemma_len();
    }

    /// The next backend fetch to issue: the index of the next key in the
    /// request's order, or `None` when the command is complete. Difference
    /// and intersection report completion as soon as the running set is
    /// empty; union goes on to the last key regardless.
    pub fn next_key(&self) -> (r: Option<usize>)
        requires
            self.wf(),
        ensures
            r matches Some(i) ==> i as nat == self.keys_fetched(),
            (r is Some) <==> (self.keys_fetched() < self.keys_total() && (self.keys_fetched() == 0
                || self.mode_spec() == SetMode::Union || self.result_set() != Set::<Seq<
                u8,
            >>::empty())),
    {
        if self.fetched < self.nkeys && (self.fetched == 0 || self.mode == SetMode::Union
            || !self.acc.is_empty()) {
            Some(self.fetched)
        } else {
            None
        }
    }

    /// Absorbs the outcome of the fetch `next_key` asked for: the first
    /// key's set becomes the base, every later one is combined under the
    /// mode's rule. A miss contributes the empty set, never an error.
    pub fn absorb(&mut self, fetched: SetFetch)
        requires
            old(self).wf(),
            old(self).keys_fetched() < old(self).keys_total(),
        ensures
            final(self).wf(),
            final(self).mode_spec() == old(self).mode_spec(),
            final(self).keys_total() == old(self).keys_total(),
            final(self).keys_fetched() == old(self).keys_fetched() + 1,
            final(self).fetched_sets() == old(self).fetched_sets().push(fetched_set(fetched)),
            final(self).result_set() == (if old(self).keys_fetched() == 0 {
                fetched_set(fetched)
            } else {
                combine(old(self).mode_spec(), old(self).result_set(), fetched_set(fetched))
            }),
    {
        let ghost fs = fetched_set(fetched);
        if self.fetched == 0 {
            match fetched {
                SetFetch::Hit(values) => {
                    self.acc = ByteSet::from_elements(values);
                },
                SetFetch::Miss => {
                    self.acc = ByteSet::new();
                },
            }
        } else {
            match self.mode {
                SetMode::Difference => {
                    match fetched {
                        SetFetch::Hit(values) => {
                            self.acc.remove_all(&values);
                        },
                        SetFetch::Miss => {
                            proof {
                                assert(self.acc.set_view() =~= self.acc.set_view().difference(
                                    Set::<Seq<u8>>::empty(),
                                ));
                            }
                        },
                    }
                },
                SetMode::Intersection => {
                    match fetched {
                        SetFetch::Hit(values) => {
                            self.acc.retain_all(&values);
                        },
                        SetFetch::Miss => {
                            self.acc.clear();
                            proof {
                                assert(old(self).acc.set_view().intersect(Set::<Seq<u8>>::empty())
                                    =~= Set::<Seq<u8>>::empty());
                            }
                        },
                    }
                },
                SetMode::Union => {
                    match fetched {
                        SetFetch::Hit(values) => {
                            self.acc.insert_all(values);
                        },
                        SetFetch::Miss => {
                            proof {
                                assert(self.acc.set_view() =~= self.acc.set_view().union(
                                    Set::<Seq<u8>>::empty(),
                                ));
                            }
                        },
                    }
                },
            }
        }
        self.fetched = self.fetched + 1;
        proof {
            let h = self.history@.push(fs);
            if old(self).fetched >= 1 {
                assert(h.drop_last() =~= old(self).history@);
                assert(h.last() == fs);
            } else {
                assert(h.len() == 1);
                assert(h[0] == fs);
            }
            self.history@ = h;
        }
    }

    /// Writes the array reply for the completed command: the resulting
    /// set's elements in their stored order, each exactly once.
    pub fn finish(&self, response_buf: &mut Vec<u8>)
        requires
            self.wf(),
        ensures
            final(response_buf)@ == old(response_buf)@ + array_reply(self.result_elems()),
            self.result_elems().to_set() == self.result_set(),
            self.result_elems().len() == self.result_set().len(),
    {
        proof {
            self.acc.lemma_len();
        }
        self.acc.write_reply(response_buf);
    }
}

/// Starts the set difference emulation: the first key addresses the base
/// set, every later key's set is subtracted from it.
pub fn sdiff(req: &SetDiff) -> (m: SetFold)
    requires
        req.keys@.len() >= 1,
    ensures
        m.wf(),
        m.mode_spec() == SetMode::Difference,
        m.keys_total() == req.keys@.len(),
        m.keys_fetched() == 0,
        m.fetched_sets() == Seq::<Set<Seq<u8>>>::empty(),
{
    SetFold {
        mode: SetMode::Difference,
        nkeys: req.keys.len(),
        fetched: 0,
        acc: ByteSet::new(),
        history: Ghost(Seq::empty()),
    }
}

/// Starts the set intersection emulation over the request's keys.
pub fn sinter(req: &SetIntersect) -> (m: SetFold)
    requires
        req.keys@.len() >= 1,
    ensures
        m.wf(),
        m.mode_spec() == SetMode::Intersection,
        m.keys_total() == req.keys@.len(),
        m.keys_fetched() == 0,
        m.fetched_sets() == Seq::<Set<Seq<u8>>>::empty(),
{
    SetFold {
        mode: SetMode::Intersection,
        nkeys: req.keys.len(),
        fetched: 0,
        acc: ByteSet::new(),
        history: Ghost(Seq::empty()),
    }
}

/// Starts the set union emulation over the request's keys.
pub fn sunion(req: &SetUnion) -> (m: SetFold)
    ensures
        m.wf(),
        m.mode_spec() == SetMode::Union,
        m.keys_total() == req.keys@.len(),
        m.keys_fetched() == 0,
        m.fetched_sets() == Seq::<Set<Seq<u8>>>::empty(),
{
    SetFold {
        mode: SetMode::Union,
        nkeys: req.keys.len(),
        fetched: 0,
        acc: ByteSet::new(),
        history: Ghost(Seq::empty()),
    }
}

/// Law: the difference emulation computes the base set minus the union of
/// every later key's set.
pub proof fn lemma_sdiff_is_base_minus_rest(sets: Seq<Set<Seq<u8>>>)
    requires
        sets.len() >= 1,
    ensures
        fold_sets(SetMode::Difference, sets) == sets[0].difference(union_all(sets.skip(1))),
    decreases sets.len(),
{
    if sets.len() == 1 {
        assert(sets.skip(1) =~= Seq::<Set<Seq<u8>>>::empty());
        assert(sets[0].difference(union_all(sets.skip(1))) =~= sets[0]);
    } else {
        lemma_sdiff_is_base_minus_rest(sets.drop_last());
        assert(sets.drop_last()[0] == sets[0]);
        assert(sets.skip(1).drop_last() =~= sets.drop_last().skip(1));
        assert(sets.skip(1).last() == sets.last());
        assert(union_all(sets.skip(1)) == union_all(sets.drop_last().skip(1)).union(sets.last()));
        assert(fold_sets(SetMode::Difference, sets) =~= sets[0].difference(
            union_all(sets.skip(1)),
        ));
    }
}

/// Law: an element lies in the intersection emulation's result exactly when
/// every key's set holds it; in particular a miss on any key empties the
/// result.
pub proof fn lemma_sinter_is_intersection(sets: Seq<Set<Seq<u8>>>)
    requires
        sets.len() >= 1,
    ensures
        forall|a: Seq<u8>|
            #[trigger] fold_sets(SetMode::Intersection, sets).contains(a) <==> (forall|i: int|
                0 <= i < sets.len() ==> #[trigger] sets[i].contains(a)),
    decreases sets.len(),
{
    if sets.len() > 1 {
        let dl = sets.drop_last();
        lemma_sinter_is_intersection(dl);
        assert forall|a: Seq<u8>|
            #[trigger] fold_sets(SetMode::Intersection, sets).contains(a) <==> (forall|i: int|
                0 <= i < sets.len() ==> #[trigger] sets[i].contains(a)) by {
            if fold_sets(SetMode::Intersection, sets).contains(a) {
                assert(fold_sets(SetMode::Intersection, dl).contains(a));
                assert forall|i: int| 0 <= i < sets.len() implies #[trigger] sets[i].contains(
                    a,
                ) by {
                    if i < dl.len() {
                        assert(dl[i].contains(a));
                    } else {
                        assert(sets[i] == sets.last());
                        assert(sets.last().contains(a));
                    }
                }
            }
            if forall|i: int| 0 <= i < sets.len() ==> #[trigger] sets[i].contains(a) {
                assert forall|i: int| 0 <= i < dl.len() implies #[trigger] dl[i].contains(a) by {
                    assert(sets[i].contains(a));
                }
                assert(fold_sets(SetMode::Intersection, dl).contains(a));
                assert(sets[sets.len() - 1].contains(a));
            }
        }
    }
}

/// Law: a miss on any key collapses the intersection emulation's result to
/// the empty set.
pub proof fn lemma_sinter_miss_collapses(sets: Seq<Set<Seq<u8>>>, i: int)
    requires
        sets.len() >= 1,
        0 <= i < sets.len(),
        sets[i] == Set::<Seq<u8>>::empty(),
    ensures
        fold_sets(SetMode::Intersection, sets) == Set::<Seq<u8>>::empty(),
{
    lemma_sinter_is_intersection(sets);
    assert forall|a: Seq<u8>| !(#[trigger] fold_sets(SetMode::Intersection, sets).contains(
        a,
    )) by {
        if fold_sets(SetMode::Intersection, sets).contains(a) {
            assert(sets[i].contains(a));
        }
    }
    assert(fold_sets(SetMode::Intersection, sets) =~= Set::<Seq<u8>>::empty());
}

/// Law: an element lies in the union emulation's result exactly when some
/// key's set holds it; a miss contributes nothing and loses nothing.
pub proof fn lemma_sunion_is_union(sets: Seq<Set<Seq<u8>>>)
    requires
        sets.len() >= 1,
    ensures
        forall|a: Seq<u8>|
            #[trigger] fold_sets(SetMode::Union, sets).contains(a) <==> (exists|i: int|
                0 <= i < sets.len() && #[trigger] sets[i].contains(a)),
    decreases sets.len(),
{
    if sets.len() > 1 {
        let dl = sets.drop_last();
        lemma_sunion_is_union(dl);
        assert forall|a: Seq<u8>|
            #[trigger] fold_sets(SetMode::Union, sets).contains(a) <==> (exists|i: int|
                0 <= i < sets.len() && #[trigger] sets[i].contains(a)) by {
            if fold_sets(SetMode::Union, sets).contains(a) {
                if fold_sets(SetMode::Union, dl).contains(a) {
                    let i = choose|i: int| 0 <= i < dl.len() && #[trigger] dl[i].contains(a);
                    assert(sets[i].contains(a));
                } else {
                    assert(sets.last().contains(a));
                    assert(sets[sets.len() - 1].contains(a));
                }
            }
            if exists|i: int| 0 <= i < sets.len() && #[trigger] sets[i].contains(a) {
                let i = choose|i: int| 0 <= i < sets.len() && #[trigger] sets[i].contains(a);
                if i < dl.len() {
                    assert(dl[i].contains(a));
                    assert(fold_sets(SetMode::Union, dl).contains(a));
                } else {
                    assert(sets.last().contains(a));
                }
            }
        }
    }
}

/// Law: when a difference or intersection emulation stops before the last
/// key because its running set is empty, the sets it never fetched could not
/// have changed the reply: the fold over the full key sequence, whatever
/// those sets hold, is the empty set it already has.
pub proof fn lemma_early_stop_is_sound(m: SetFold, rest: Seq<Set<Seq<u8>>>)
    requires
        m.wf(),
        m.keys_fetched() >= 1,
        m.mode_spec() != SetMode::Union,
        m.result_set() == Set::<Seq<u8>>::empty(),
    ensures
        fold_sets(m.mode_spec(), m.fetched_sets() + rest) == Set::<Seq<u8>>::empty(),
{
    m.lemma_result();
    let all = m.fetched_sets() + rest;
    assert(all.take(m.fetched_sets().len() as int) =~= m.fetched_sets());
    lemma_short_circuit(m.mode_spec(), all, m.fetched_sets().len() as int);
}

/// Law: once the running set of a difference or intersection emulation is
/// empty, absorbing the remaining keys' sets cannot change it — which is why
/// stopping the fetches early is sound.
pub proof fn lemma_short_circuit(mode: SetMode, sets: Seq<Set<Seq<u8>>>, k: int)
    requires
        mode != SetMode::Union,
        1 <= k <= sets.len(),
        fold_sets(mode, sets.take(k)) == Set::<Seq<u8>>::empty(),
    ensures
        fold_sets(mode, sets) == Set::<Seq<u8>>::empty(),
    decreases sets.len(),
{
    if sets.len() == k {
        assert(sets.take(k) =~= sets);
    } else {
        assert(sets.drop_last().take(k) =~= sets.take(k));
        lemma_short_circuit(mode, sets.drop_last(), k);
        assert(fold_sets(mode, sets) =~= Set::<Seq<u8>>::empty());
    }
}

} // verus!
