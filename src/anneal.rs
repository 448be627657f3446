use vstd::prelude::*;
use rand::Rng;
use crate::model::{
    SeatingArrangement, Seat, Coordinate, TableView, seat_valid, occupant, swapped, same_shape,
    lemma_shape_valid, lemma_read_after_write,
};
use crate::scoring::BonusConfig;
use crate::seats::{free_seats, is_free, is_fixed};
use crate::swap::swap_at;
use crate::laws::{occupants, lemma_swap_keeps_occupants};

verus! {

/// Relies on rand::Rng::gen_range on the generator of rand::thread_rng: an
/// index drawn from `0..n`. It panics on an empty range, so `n` is positive.
#[verifier::external_body]
fn random_below(n: usize) -> (r: usize)
    requires
        n > 0,
    ensures
        r < n,
{
    rand::thread_rng().gen_range(0..n)
}

/// The arrangement differs from `init` only at the listed seats, and keeps
/// its occupants and its shape.
pub open spec fn moved_only_free(init: Seq<TableView>, a: Seq<TableView>, free: Seq<Seat>) -> bool {
    &&& same_shape(init, a)
    &&& occupants(a) == occupants(init)
    &&& forall|s: Seat|
        seat_valid(init, s) && !free.contains(s) ==> #[trigger] occupant(a, s) == occupant(init, s)
}

pub proof fn lemma_swap_keeps_moved_only(
    init: Seq<TableView>,
    a: Seq<TableView>,
    free: Seq<Seat>,
    s1: Seat,
    s2: Seat,
)
    requires
        moved_only_free(init, a, free),
        free.contains(s1),
        free.contains(s2),
        forall|k: int| 0 <= k < free.len() ==> seat_valid(init, #[trigger] free[k]),
    ensures
        moved_only_free(init, swapped(a, s1, s2), free),
{
    let k1 = choose|k: int| 0 <= k < free.len() && free[k] == s1;
    let k2 = choose|k: int| 0 <= k < free.len() && free[k] == s2;
    assert(seat_valid(init, free[k1]) && seat_valid(init, free[k2]));
    lemma_shape_valid(init, a, s1);
    lemma_shape_valid(init, a, s2);
    lemma_swap_keeps_occupants(a, s1, s2);
    let b = swapped(a, s1, s2);
    let a1 = crate::model::with_occupant(a, s1, occupant(a, s2));
    assert forall|s: Seat| seat_valid(init, s) && !free.contains(s) implies #[trigger] occupant(b, s)
        == occupant(init, s) by {
        lemma_shape_valid(init, a, s);
        lemma_read_after_write(a, s1, occupant(a, s2), s);
        lemma_read_after_write(a, s1, occupant(a, s2), s2);
        lemma_read_after_write(a1, s2, occupant(a, s1), s);
    }
    assert forall|t: int| 0 <= t < init.len() implies #[trigger] init[t].top.len() == b[t].top.len()
        && init[t].bottom.len() == b[t].bottom.len() by {
        assert(a[t].top.len() == init[t].top.len());
    }
}


/// The state of one annealing run: the arrangement being explored, the best
/// one seen, and the free seats that swaps may touch. Only free seats ever
/// move, so fixed seats keep their initial occupants, and every state holds
/// the initial multiset of occupants.
pub struct Annealer {
    current: SeatingArrangement,
    best: SeatingArrangement,
    free: Vec<Seat>,
    initial: Ghost<Seq<TableView>>,
    fixed: Ghost<Seq<Coordinate>>,
    config: Ghost<BonusConfig>,
}

impl Annealer {
    pub closed spec fn initial(&self) -> Seq<TableView> {
        self.initial@
    }

    pub closed spec fn current_view(&self) -> Seq<TableView> {
        self.current@
    }

    pub closed spec fn best_view(&self) -> Seq<TableView> {
        self.best@
    }

    pub closed spec fn free_view(&self) -> Seq<Seat> {
        self.free@
    }

    /// The fixed coordinates that the run was started with.
    pub closed spec fn fixed(&self) -> Seq<Coordinate> {
        self.fixed@
    }

    /// The bonus configuration that the run was started with.
    pub closed spec fn config(&self) -> BonusConfig {
        self.config@
    }

    /// The run's invariant.
    pub open spec fn wf(&self) -> bool {
        &&& self.free_view().no_duplicates()
        &&& forall|k: int|
            0 <= k < self.free_view().len() ==> seat_valid(self.initial(), #[trigger] self.free_view()[k])
        &&& forall|s: Seat| #[trigger]
            self.free_view().contains(s) <==> is_free(self.initial(), self.config(), self.fixed(), s)
        &&& moved_only_free(self.initial(), self.current_view(), self.free_view())
        &&& moved_only_free(self.initial(), self.best_view(), self.free_view())
    }

    /// Starts a run from `initial`: current and best are the initial
    /// arrangement, and the free seats are those of the seat universe that
    /// `fixed` does not name.
    pub fn new(initial: SeatingArrangement, fixed: &Vec<Coordinate>, bonus_config: BonusConfig) -> (r:
        Annealer)
        ensures
            r.wf(),
            r.initial() == initial@,
            r.current_view() == initial@,
            r.best_view() == initial@,
            r.fixed() == fixed@,
            r.config() == bonus_config,
    {
        let free = free_seats(&initial, fixed, bonus_config);
        let best = initial.snapshot();
        let ghost init = initial@;
        let r = Annealer {
            current: initial,
            best,
            free,
            initial: Ghost(init),
            fixed: Ghost(fixed@),
            config: Ghost(bonus_config),
        };
        assert forall|k: int| 0 <= k < r.free@.len() implies seat_valid(init, #[trigger] r.free@[k]) by {
            assert(r.free@.contains(r.free@[k]));
        }
        r
    }

    /// The arrangement being explored.
    pub fn current(&self) -> (r: &SeatingArrangement)
        ensures
            r@ == self.current_view(),
    {
        &self.current
    }

    /// The best arrangement recorded so far.
    pub fn best(&self) -> (r: &SeatingArrangement)
        ensures
            r@ == self.best_view(),
    {
        &self.best
    }

    /// The free seats, in enumeration order.
    pub fn free(&self) -> (r: &Vec<Seat>)
        ensures
            r@ == self.free_view(),
    {
        &self.free
    }

    /// Draws two distinct positions of the free-seat list uniformly; none
    /// when fewer than two seats are free.
    pub fn draw(&self) -> (r: Option<(usize, usize)>)
        ensures
            r is None <==> self.free_view().len() < 2,
            r matches Some((i, j)) ==> i < self.free_view().len() && j < self.free_view().len()
                && i != j,
    {
        let n = self.free.len();
        if n < 2 {
            return None;
        }
        let i = random_below(n);
        // The second position is drawn among the n - 1 others: the same
        // distribution as drawing again until it differs from the first.
        let j0 = random_below(n - 1);
        let j = if j0 >= i { j0 + 1 } else { j0 };
        Some((i, j))
    }

    /// Exchanges the occupants of free seats `i` and `j` of the explored
    /// arrangement. Applying it twice undoes it.
    pub fn swap_free(&mut self, i: usize, j: usize)
        requires
            old(self).wf(),
            i < old(self).free_view().len(),
            j < old(self).free_view().len(),
        ensures
            final(self).wf(),
            final(self).initial() == old(self).initial(),
            final(self).fixed() == old(self).fixed(),
            final(self).config() == old(self).config(),
            final(self).free_view() == old(self).free_view(),
            final(self).best_view() == old(self).best_view(),
            final(self).current_view() == swapped(
                old(self).current_view(),
                old(self).free_view()[i as int],
                old(self).free_view()[j as int],
            ),
    {
        let s1 = self.free[i];
        let s2 = self.free[j];
        proof {
            assert(self.free@.contains(s1) && self.free@.contains(s2));
            lemma_shape_valid(self.initial@, self.current@, s1);
            lemma_shape_valid(self.initial@, self.current@, s2);
            lemma_swap_keeps_moved_only(self.initial@, self.current@, self.free@, s1, s2);
        }
        swap_at(&mut self.current, s1, s2);
    }

    /// Records the explored arrangement as the best one.
    pub fn keep_best(&mut self)
        requires
            old(self).wf(),
        ensures
            final(self).wf(),
            final(self).initial() == old(self).initial(),
            final(self).fixed() == old(self).fixed(),
            final(self).config() == old(self).config(),
            final(self).free_view() == old(self).free_view(),
            final(self).current_view() == old(self).current_view(),
            final(self).best_view() == old(self).current_view(),
    {
        self.best = self.current.snapshot();
    }

    /// Ends the run, handing back the best arrangement and the free seats.
    pub fn into_best(self) -> (r: (SeatingArrangement, Vec<Seat>))
        requires
            self.wf(),
        ensures
            r.0@ == self.best_view(),
            r.1@ == self.free_view(),
            r.1@.no_duplicates(),
            forall|k: int| 0 <= k < r.1@.len() ==> seat_valid(r.0@, #[trigger] r.1@[k]),
    {
        proof {
            assert forall|k: int| 0 <= k < self.free@.len() implies seat_valid(self.best@, #[trigger] self.free@[k]) by {
                lemma_shape_valid(self.initial@, self.best@, self.free@[k]);
            }
        }
        (self.best, self.free)
    }
}

/// Fixed-coordinate respect: a seat that a fixed coordinate names is never
/// an endpoint of a swap, so it holds its initial occupant in the explored
/// arrangement and in the best one.
pub proof fn law_fixed_respected(ann: Annealer, s: Seat)
    requires
        ann.wf(),
        seat_valid(ann.initial(), s),
        is_fixed(ann.fixed(), s),
    ensures
        occupant(ann.current_view(), s) == occupant(ann.initial(), s),
        occupant(ann.best_view(), s) == occupant(ann.initial(), s),
{
    assert(!ann.free_view().contains(s));
}

} // verus!
