use vstd::prelude::*;
use crate::model::{
    SeatingArrangement, Seat, TableView, seat_valid, occupant, swapped, lemma_shape_valid,
};
use crate::swap::swap_at;
use crate::laws::law_swap_involution;
use crate::anneal::{Annealer, moved_only_free, lemma_swap_keeps_moved_only, law_fixed_respected};
use crate::seats::is_fixed;

verus! {

/// Pair `(p, q)` comes before the cursor `(i, j)` in a pass.
pub open spec fn pair_before(p: int, q: int, i: int, j: int) -> bool {
    p < i || (p == i && q < j)
}

/// The deterministic pairwise polisher: it walks the pairs `(i, j)`, `i < j`,
/// of the free-seat list in order, tries each swap, and keeps it or undoes it
/// as the caller decides. A pass that keeps any swap is followed by another;
/// the polisher finishes after a pass that keeps none.
pub struct Polisher {
    arrangement: SeatingArrangement,
    free: Vec<Seat>,
    i: usize,
    j: usize,
    improved: bool,
    pending: bool,
    done: bool,
    initial: Ghost<Seq<TableView>>,
    before_trial: Ghost<Seq<TableView>>,
    pass_start: Ghost<Seq<TableView>>,
    refused: Ghost<Set<(int, int)>>,
}

impl Polisher {
    pub closed spec fn initial(&self) -> Seq<TableView> {
        self.initial@
    }

    pub closed spec fn arrangement_view(&self) -> Seq<TableView> {
        self.arrangement@
    }

    pub closed spec fn free_view(&self) -> Seq<Seat> {
        self.free@
    }

    /// The arrangement at the start of the current pass.
    pub closed spec fn pass_start(&self) -> Seq<TableView> {
        self.pass_start@
    }

    /// The pairs that the caller refused in the current pass while no swap of
    /// the pass had been kept, that is, refused on `pass_start()`.
    pub closed spec fn refused(&self) -> Set<(int, int)> {
        self.refused@
    }

    pub closed spec fn is_done(&self) -> bool {
        self.done
    }

    pub closed spec fn is_pending(&self) -> bool {
        self.pending
    }

    pub closed spec fn cursor(&self) -> (int, int) {
        (self.i as int, self.j as int)
    }

    /// A swap has been kept in the current pass.
    pub closed spec fn kept_in_pass(&self) -> bool {
        self.improved
    }

    /// The arrangement before the pending trial swap.
    pub closed spec fn before_trial(&self) -> Seq<TableView> {
        self.before_trial@
    }

    pub closed spec fn inv(&self) -> bool {
        let n = self.free@.len();
        &&& self.free@.no_duplicates()
        &&& forall|k: int| 0 <= k < n ==> seat_valid(self.initial@, #[trigger] self.free@[k])
        &&& moved_only_free(self.initial@, self.arrangement@, self.free@)
        &&& moved_only_free(self.initial@, self.before_trial@, self.free@)
        &&& !self.done ==> self.i < self.j < n
        &&& self.done ==> !self.pending
        &&& self.pending ==> self.arrangement@ == swapped(
            self.before_trial@,
            self.free@[self.i as int],
            self.free@[self.j as int],
        )
        &&& !self.pending ==> self.arrangement@ == self.before_trial@
        &&& !self.improved ==> self.before_trial@ == self.pass_start@
        &&& !self.improved && !self.done ==> forall|p: int, q: int|
            0 <= p < q < n && pair_before(p, q, self.i as int, self.j as int) ==> #[trigger] self.refused@.contains((p, q))
        &&& self.done ==> self.arrangement@ == self.pass_start@ && forall|p: int, q: int|
            0 <= p < q < n ==> #[trigger] self.refused@.contains((p, q))
    }

    /// The polisher's invariant, with what it states in the open.
    pub open spec fn wf(&self) -> bool {
        &&& self.inv()
        &&& moved_only_free(self.initial(), self.arrangement_view(), self.free_view())
        &&& forall|k: int|
            0 <= k < self.free_view().len() ==> seat_valid(self.initial(), #[trigger] self.free_view()[k])
        &&& self.is_done() ==> !self.is_pending()
        &&& !self.is_done() ==> 0 <= self.cursor().0 < self.cursor().1 < self.free_view().len()
    }

    /// Finished: a whole pass kept no swap, it ran on the arrangement now
    /// held, and the caller refused every pair of free seats in it.
    pub open spec fn settled(&self) -> bool {
        &&& self.arrangement_view() == self.pass_start()
        &&& forall|p: int, q: int|
            0 <= p < q < self.free_view().len() ==> #[trigger] self.refused().contains((p, q))
    }
}


impl Polisher {
    /// Starts polishing `arrangement` over the given free seats.
    pub fn new(arrangement: SeatingArrangement, free: Vec<Seat>) -> (r: Polisher)
        requires
            free@.no_duplicates(),
            forall|k: int| 0 <= k < free@.len() ==> seat_valid(arrangement@, #[trigger] free@[k]),
        ensures
            r.wf(),
            r.initial() == arrangement@,
            r.arrangement_view() == arrangement@,
            r.free_view() == free@,
            r.is_done() <==> free@.len() < 2,
            !r.is_pending(),
            r.cursor() == (0int, 1int),
            !r.kept_in_pass(),
            r.pass_start() == arrangement@,
            r.refused() == Set::<(int, int)>::empty(),
    {
        let ghost a = arrangement@;
        let done = free.len() < 2;
        let r = Polisher {
            arrangement,
            free,
            i: 0,
            j: 1,
            improved: false,
            pending: false,
            done,
            initial: Ghost(a),
            before_trial: Ghost(a),
            pass_start: Ghost(a),
            refused: Ghost(Set::empty()),
        };
        r
    }
}


impl Polisher {
    /// The pair of free-seat positions to try next; none once finished.
    pub fn pair(&self) -> (r: Option<(usize, usize)>)
        requires
            self.wf(),
        ensures
            r is None <==> self.is_done(),
            r matches Some((i, j)) ==> (i as int, j as int) == self.cursor(),
    {
        if self.done {
            None
        } else {
            Some((self.i, self.j))
        }
    }

    /// Applies the trial swap of the current pair.
    pub fn trial(&mut self)
        requires
            old(self).wf(),
            !old(self).is_done(),
            !old(self).is_pending(),
        ensures
            final(self).wf(),
            final(self).is_pending(),
            !final(self).is_done(),
            final(self).cursor() == old(self).cursor(),
            final(self).initial() == old(self).initial(),
            final(self).free_view() == old(self).free_view(),
            final(self).pass_start() == old(self).pass_start(),
            final(self).refused() == old(self).refused(),
            final(self).kept_in_pass() == old(self).kept_in_pass(),
            final(self).before_trial() == old(self).arrangement_view(),
            final(self).arrangement_view() == swapped(
                old(self).arrangement_view(),
                old(self).free_view()[old(self).cursor().0],
                old(self).free_view()[old(self).cursor().1],
            ),
    {
        let s1 = self.free[self.i];
        let s2 = self.free[self.j];
        proof {
            assert(self.free@.contains(s1) && self.free@.contains(s2));
            lemma_shape_valid(self.initial@, self.arrangement@, s1);
            lemma_shape_valid(self.initial@, self.arrangement@, s2);
            lemma_swap_keeps_moved_only(self.initial@, self.arrangement@, self.free@, s1, s2);
        }
        swap_at(&mut self.arrangement, s1, s2);
        self.pending = true;
    }

    /// Settles the pending trial: keeps the swap when `keep`, else undoes it;
    /// then moves to the next pair. At the end of a pass that kept a swap a
    /// new pass starts from the arrangement held; at the end of a pass that
    /// kept none the polisher is finished.
    pub fn settle(&mut self, keep: bool)
        requires
            old(self).wf(),
            old(self).is_pending(),
        ensures
            final(self).wf(),
            !final(self).is_pending(),
            final(self).initial() == old(self).initial(),
            final(self).free_view() == old(self).free_view(),
            final(self).arrangement_view() == if keep {
                old(self).arrangement_view()
            } else {
                old(self).before_trial()
            },
            final(self).is_done() ==> final(self).settled(),
            ({
                let (i, j) = old(self).cursor();
                let n = old(self).free_view().len() as int;
                let kept = old(self).kept_in_pass() || keep;
                if j + 1 < n || i + 2 < n {
                    &&& !final(self).is_done()
                    &&& final(self).cursor() == if j + 1 < n {
                        (i, j + 1)
                    } else {
                        (i + 1, i + 2)
                    }
                    &&& final(self).kept_in_pass() == kept
                    &&& final(self).pass_start() == old(self).pass_start()
                    &&& final(self).refused() == if !kept {
                        old(self).refused().insert((i, j))
                    } else {
                        old(self).refused()
                    }
                } else if kept {
                    &&& !final(self).is_done()
                    &&& final(self).cursor() == (0int, 1int)
                    &&& !final(self).kept_in_pass()
                    &&& final(self).pass_start() == final(self).arrangement_view()
                    &&& final(self).refused() == Set::<(int, int)>::empty()
                } else {
                    final(self).is_done()
                }
            }),
    {
        let n = self.free.len();
        if !keep {
            let s1 = self.free[self.i];
            let s2 = self.free[self.j];
            proof {
                assert(self.free@.contains(s1) && self.free@.contains(s2));
                lemma_shape_valid(self.initial@, self.before_trial@, s1);
                lemma_shape_valid(self.initial@, self.before_trial@, s2);
                law_swap_involution(self.before_trial@, s1, s2);
                lemma_shape_valid(self.initial@, self.arrangement@, s1);
                lemma_shape_valid(self.initial@, self.arrangement@, s2);
            }
            swap_at(&mut self.arrangement, s1, s2);
            if !self.improved {
                self.refused = Ghost(self.refused@.insert((self.i as int, self.j as int)));
            }
        } else {
            self.improved = true;
            self.before_trial = Ghost(self.arrangement@);
        }
        self.pending = false;
        if self.j + 1 < n {
            self.j = self.j + 1;
        } else if self.i + 2 < n {
            self.i = self.i + 1;
            self.j = self.i + 1;
        } else if self.improved {
            self.i = 0;
            self.j = 1;
            self.improved = false;
            self.pass_start = Ghost(self.arrangement@);
            self.before_trial = Ghost(self.arrangement@);
            self.refused = Ghost(Set::empty());
        } else {
            self.done = true;
            assert forall|p: int, q: int| 0 <= p < q < n implies #[trigger] self.refused@.contains((p, q)) by {
                if !(p == self.i && q == self.j) {
                    assert(pair_before(p, q, self.i as int, self.j as int));
                }
            }
        }
    }

    /// The polisher is finished.
    pub fn finished(&self) -> (r: bool)
        requires
            self.wf(),
        ensures
            r == self.is_done(),
            r ==> self.settled(),
    {
        self.done
    }

    /// The arrangement held.
    pub fn arrangement(&self) -> (r: &SeatingArrangement)
        ensures
            r@ == self.arrangement_view(),
    {
        &self.arrangement
    }

    /// Ends polishing, handing back the arrangement held.
    pub fn into_arrangement(self) -> (r: SeatingArrangement)
        ensures
            r@ == self.arrangement_view(),
    {
        self.arrangement
    }
}

/// Fixed-coordinate respect over a whole run: when the polisher starts from
/// the annealer's best arrangement over the same free seats, a seat that a
/// fixed coordinate names ends the run with its initial occupant.
pub proof fn law_fixed_through_run(ann: Annealer, pol: Polisher, s: Seat)
    requires
        ann.wf(),
        pol.wf(),
        pol.initial() == ann.best_view(),
        pol.free_view() == ann.free_view(),
        seat_valid(ann.initial(), s),
        is_fixed(ann.fixed(), s),
    ensures
        occupant(pol.arrangement_view(), s) == occupant(ann.initial(), s),
{
    law_fixed_respected(ann, s);
    assert(!ann.free_view().contains(s));
    lemma_shape_valid(ann.initial(), ann.best_view(), s);
}

} // verus!
