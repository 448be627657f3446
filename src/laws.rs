use vstd::prelude::*;
use vstd::multiset::Multiset;
use vstd::seq_lib::{to_multiset_insert, to_multiset_remove};
use crate::model::{
    TableView, Seat, seat_valid, table_seat, table_with, occupant, with_occupant, swapped,
    same_shape, lemma_shape_valid, lemma_write_same, lemma_read_after_write, lemma_write_write, lemma_write_commute,
};

verus! {

/// Every slot of a table in one sequence: top row, bottom row, left and right
/// bonus slots.
pub open spec fn table_slots(t: TableView) -> Seq<Option<String>> {
    t.top + t.bottom + seq![t.bonus_left, t.bonus_right]
}

/// The multiset of the contents of every slot of a table.
pub open spec fn table_occupants(t: TableView) -> Multiset<Option<String>> {
    table_slots(t).to_multiset()
}

/// The multiset of the contents of every slot of an arrangement.
pub open spec fn occupants(a: Seq<TableView>) -> Multiset<Option<String>>
    decreases a.len(),
{
    if a.len() == 0 {
        Multiset::empty()
    } else {
        occupants(a.drop_last()).add(table_occupants(a.last()))
    }
}

/// The arrangement after a sequence of seat swaps, applied in order.
pub open spec fn after_swaps(a: Seq<TableView>, swaps: Seq<(Seat, Seat)>) -> Seq<TableView>
    decreases swaps.len(),
{
    if swaps.len() == 0 {
        a
    } else {
        let prev = after_swaps(a, swaps.drop_last());
        swapped(prev, swaps.last().0, swaps.last().1)
    }
}

proof fn lemma_seq_update_multiset(s: Seq<Option<String>>, i: int, v: Option<String>)
    requires
        0 <= i < s.len(),
    ensures
        s.update(i, v).to_multiset().insert(s[i]) == s.to_multiset().insert(v),
{
    assert(s.update(i, v) =~= s.remove(i).insert(i, v));
    to_multiset_insert(s.remove(i), i, v);
    to_multiset_remove(s, i);
    assert(s.to_multiset().contains(s[i])) by {
        assert(s.to_multiset().count(s[i]) > 0) by {
            assert(s =~= s.remove(i).insert(i, s[i]));
            to_multiset_insert(s.remove(i), i, s[i]);
        }
    }
    assert(s.update(i, v).to_multiset().insert(s[i]) =~= s.to_multiset().insert(v));
}

proof fn lemma_table_write_multiset(t: TableView, s: Seat, v: Option<String>)
    requires
        match s {
            Seat::Top(_, i) => i < t.top.len(),
            Seat::Bottom(_, i) => i < t.bottom.len(),
            _ => true,
        },
    ensures
        table_occupants(table_with(t, s, v)).insert(table_seat(t, s)) == table_occupants(t).insert(
            v,
        ),
{
    let sl = table_slots(t);
    let n = t.top.len() as int;
    let m = t.bottom.len() as int;
    let k: int = match s {
        Seat::Top(_, i) => i as int,
        Seat::Bottom(_, i) => n + i,
        Seat::BonusLeft(_) => n + m,
        Seat::BonusRight(_) => n + m + 1,
    };
    assert(table_slots(table_with(t, s, v)) =~= sl.update(k, v));
    assert(sl[k] == table_seat(t, s));
    lemma_seq_update_multiset(sl, k, v);
}

proof fn lemma_occupants_update(a: Seq<TableView>, t: int, nt: TableView)
    requires
        0 <= t < a.len(),
    ensures
        occupants(a.update(t, nt)).add(table_occupants(a[t])) == occupants(a).add(
            table_occupants(nt),
        ),
    decreases a.len(),
{
    let b = a.update(t, nt);
    if t == a.len() - 1 {
        assert(b.drop_last() =~= a.drop_last());
        assert(occupants(b).add(table_occupants(a[t])) =~= occupants(a).add(table_occupants(nt)));
    } else {
        assert(b.drop_last() =~= a.drop_last().update(t, nt));
        lemma_occupants_update(a.drop_last(), t, nt);
        assert(a.drop_last()[t] == a[t]);
        assert(b.last() == a.last());
        let l = table_occupants(a.last());
        assert(occupants(b) == occupants(b.drop_last()).add(l));
        assert(occupants(a) == occupants(a.drop_last()).add(l));
        assert forall|e| #[trigger]
            occupants(b).add(table_occupants(a[t])).count(e) == occupants(a).add(
                table_occupants(nt),
            ).count(e) by {
            assert(occupants(b.drop_last()).add(table_occupants(a[t])).count(e) == occupants(
                a.drop_last(),
            ).add(table_occupants(nt)).count(e));
        }
        assert(occupants(b).add(table_occupants(a[t])) =~= occupants(a).add(table_occupants(nt)));
    }
}

proof fn lemma_write_occupants(a: Seq<TableView>, s: Seat, v: Option<String>)
    requires
        seat_valid(a, s),
    ensures
        occupants(with_occupant(a, s, v)).insert(occupant(a, s)) == occupants(a).insert(v),
{
    let t = s.table_of() as int;
    let nt = table_with(a[t], s, v);
    lemma_occupants_update(a, t, nt);
    lemma_table_write_multiset(a[t], s, v);
    let x = occupant(a, s);
    let ma = occupants(a);
    let mb = occupants(with_occupant(a, s, v));
    assert(mb.add(table_occupants(a[t])) == ma.add(table_occupants(nt)));
    assert(table_occupants(nt).insert(x) == table_occupants(a[t]).insert(v));
    assert(mb.insert(x) =~= ma.insert(v)) by {
        assert forall|e| #[trigger] mb.insert(x).count(e) == ma.insert(v).count(e) by {
            assert(mb.add(table_occupants(a[t])).count(e) == ma.add(table_occupants(nt)).count(e));
            assert(table_occupants(nt).insert(x).count(e) == table_occupants(a[t]).insert(v).count(
                e,
            ));
        }
    }
}

/// A swap of two seats of the arrangement keeps the multiset of occupants.
pub proof fn lemma_swap_keeps_occupants(a: Seq<TableView>, s1: Seat, s2: Seat)
    requires
        seat_valid(a, s1),
        seat_valid(a, s2),
    ensures
        occupants(swapped(a, s1, s2)) == occupants(a),
        same_shape(a, swapped(a, s1, s2)),
{
    let x = occupant(a, s1);
    let y = occupant(a, s2);
    let a1 = with_occupant(a, s1, y);
    let a2 = with_occupant(a1, s2, x);
    lemma_read_after_write(a, s1, y, s2);
    lemma_read_after_write(a1, s2, x, s2);
    lemma_write_occupants(a, s1, y);
    lemma_write_occupants(a1, s2, x);
    if s1 == s2 {
        lemma_write_same(a, s1);
        lemma_write_write(a, s1, y, x);
    } else {
        assert(occupant(a1, s2) == y);
        assert(occupants(a2) =~= occupants(a)) by {
            assert forall|e| occupants(a2).count(e) == occupants(a).count(e) by {
                assert(occupants(a2).insert(y).count(e) == occupants(a1).insert(x).count(e));
                assert(occupants(a1).insert(x).count(e) == occupants(a).insert(y).count(e));
            }
        }
    }
    assert forall|t: int| 0 <= t < a.len() implies #[trigger] a[t].top.len() == a2[t].top.len()
        && a[t].bottom.len() == a2[t].bottom.len() by {}
}

/// Occupancy preservation: any sequence of swaps of seats of the arrangement
/// leaves the multiset of occupants unchanged.
pub proof fn law_swaps_keep_occupants(a: Seq<TableView>, swaps: Seq<(Seat, Seat)>)
    requires
        forall|k: int|
            0 <= k < swaps.len() ==> seat_valid(a, #[trigger] swaps[k].0) && seat_valid(
                a,
                swaps[k].1,
            ),
    ensures
        occupants(after_swaps(a, swaps)) == occupants(a),
        same_shape(a, after_swaps(a, swaps)),
    decreases swaps.len(),
{
    if swaps.len() > 0 {
        let init = swaps.drop_last();
        assert forall|k: int| 0 <= k < init.len() implies seat_valid(a, #[trigger] init[k].0)
            && seat_valid(a, init[k].1) by {
            assert(init[k] == swaps[k]);
        }
        law_swaps_keep_occupants(a, init);
        let prev = after_swaps(a, init);
        let (s1, s2) = swaps.last();
        assert(seat_valid(a, swaps[swaps.len() - 1].0));
        lemma_shape_valid(a, prev, s1);
        lemma_shape_valid(a, prev, s2);
        lemma_swap_keeps_occupants(prev, s1, s2);
    }
}

/// Swap involution: swapping the same two seats twice gives back the
/// arrangement exactly.
pub proof fn law_swap_involution(a: Seq<TableView>, s1: Seat, s2: Seat)
    requires
        seat_valid(a, s1),
        seat_valid(a, s2),
    ensures
        swapped(swapped(a, s1, s2), s1, s2) == a,
{
    let x = occupant(a, s1);
    let y = occupant(a, s2);
    let a1 = with_occupant(a, s1, y);
    let b = swapped(a, s1, s2);
    lemma_read_after_write(a, s1, y, s2);
    lemma_read_after_write(a, s1, y, s1);
    lemma_read_after_write(a1, s2, x, s1);
    lemma_read_after_write(a1, s2, x, s2);
    if s1 == s2 {
        lemma_write_same(a, s1);
    } else {
        assert(occupant(b, s1) == y);
        assert(occupant(b, s2) == x);
        // b = w(w(a, s1, y), s2, x); swapping again writes x at s1, then y at s2.
        lemma_write_commute(a1, s2, x, s1, x);
        lemma_write_write(a, s1, y, x);
        lemma_write_same(a, s1);
        let c = with_occupant(b, s1, x);
        assert(c == with_occupant(a, s2, x));
        lemma_write_write(a, s2, x, y);
        lemma_write_same(a, s2);
    }
}

/// The sum over all tables of a per-table measure.
pub open spec fn total(a: Seq<TableView>, m: spec_fn(TableView) -> int) -> int
    decreases a.len(),
{
    if a.len() == 0 {
        0
    } else {
        total(a.drop_last(), m) + m(a.last())
    }
}

/// The sum, over the tables listed in `ts`, of the change of a per-table
/// measure from `a` to `b`.
pub open spec fn change_on(
    a: Seq<TableView>,
    b: Seq<TableView>,
    ts: Set<int>,
    m: spec_fn(TableView) -> int,
) -> int
    decreases a.len(),
{
    if a.len() == 0 || b.len() == 0 {
        0
    } else {
        change_on(a.drop_last(), b.drop_last(), ts, m) + if ts.contains(a.len() - 1) {
            m(b.last()) - m(a.last())
        } else {
            0
        }
    }
}

/// Locality of scoring: when two arrangements differ only in the tables of
/// `ts`, the change of any score that sums a per-table measure is the sum
/// of the changes on those tables alone.
pub proof fn law_locality(
    a: Seq<TableView>,
    b: Seq<TableView>,
    ts: Set<int>,
    m: spec_fn(TableView) -> int,
)
    requires
        a.len() == b.len(),
        forall|t: int| 0 <= t < a.len() && !ts.contains(t) ==> a[t] == b[t],
    ensures
        total(b, m) - total(a, m) == change_on(a, b, ts, m),
    decreases a.len(),
{
    if a.len() > 0 {
        law_locality(a.drop_last(), b.drop_last(), ts, m);
    }
}

/// A swap touches only the one or two tables of its seats, so re-scoring
/// those tables gives the change of any per-table score.
pub proof fn law_swap_delta(
    a: Seq<TableView>,
    s1: Seat,
    s2: Seat,
    m: spec_fn(TableView) -> int,
)
    requires
        seat_valid(a, s1),
        seat_valid(a, s2),
    ensures
        swapped(a, s1, s2).len() == a.len(),
        forall|t: int|
            0 <= t < a.len() && t != s1.table_of() && t != s2.table_of() ==> #[trigger] swapped(
                a,
                s1,
                s2,
            )[t] == a[t],
        total(swapped(a, s1, s2), m) - total(a, m) == change_on(
            a,
            swapped(a, s1, s2),
            set![s1.table_of() as int, s2.table_of() as int],
            m,
        ),
{
    let b = swapped(a, s1, s2);
    law_locality(a, b, set![s1.table_of() as int, s2.table_of() as int], m);
}

} // verus!
