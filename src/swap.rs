use vstd::prelude::*;
use crate::model::{
    SeatingArrangement, Seat, Coordinate, coordinate_seat, seat_valid, occupant, with_occupant, swapped, lemma_write_same,
    lemma_read_after_write, lemma_write_write, lemma_write_commute,
};

verus! {

/// Puts `v` into seat `s` and hands back what the seat held.
fn exchange(arr: &mut SeatingArrangement, s: Seat, v: Option<String>) -> (r: Option<String>)
    requires
        seat_valid(old(arr)@, s),
    ensures
        r == occupant(old(arr)@, s),
        final(arr)@ == with_occupant(old(arr)@, s, v),
{
    let ghost a0 = arr@;
    let ghost v0 = v;
    let mut v = v;
    let t = s.table();
    let table = &mut arr.tables[t];
    match s {
        Seat::Top(_, i) => std::mem::swap(&mut table.top[i], &mut v),
        Seat::Bottom(_, i) => std::mem::swap(&mut table.bottom[i], &mut v),
        Seat::BonusLeft(_) => std::mem::swap(&mut table.bonus_left, &mut v),
        Seat::BonusRight(_) => std::mem::swap(&mut table.bonus_right, &mut v),
    }
    assert(arr@ =~= with_occupant(a0, s, v0));
    v
}


/// Exchanges the contents of two seats in place; a seat swapped with itself
/// is left as it is.
pub fn swap_at(arr: &mut SeatingArrangement, s1: Seat, s2: Seat)
    requires
        seat_valid(old(arr)@, s1),
        seat_valid(old(arr)@, s2),
    ensures
        final(arr)@ == swapped(old(arr)@, s1, s2),
{
    let ghost a0 = arr@;
    if s1 == s2 {
        proof {
            lemma_write_same(a0, s1);
        }
        return;
    }
    let a = exchange(arr, s1, None);
    let b = exchange(arr, s2, a);
    let _ = exchange(arr, s1, b);
    proof {
        let x = occupant(a0, s1);
        let y = occupant(a0, s2);
        let a1 = with_occupant(a0, s1, None);
        lemma_read_after_write(a0, s1, None, s2);
        lemma_read_after_write(a0, s1, None, s1);
        lemma_write_commute(a1, s2, x, s1, y);
        lemma_write_write(a0, s1, None, y);
    }
}


/// Exchanges the contents of the seats that two coordinates name.
pub fn swap_seats(arrangement: &mut SeatingArrangement, coord1: &Coordinate, coord2: &Coordinate)
    requires
        coordinate_seat(*coord1) is Some,
        coordinate_seat(*coord2) is Some,
        seat_valid(old(arrangement)@, coordinate_seat(*coord1)->0),
        seat_valid(old(arrangement)@, coordinate_seat(*coord2)->0),
    ensures
        final(arrangement)@ == swapped(
            old(arrangement)@,
            coordinate_seat(*coord1)->0,
            coordinate_seat(*coord2)->0,
        ),
{
    let s1 = coord1.to_seat().unwrap();
    let s2 = coord2.to_seat().unwrap();
    swap_at(arrangement, s1, s2);
}

} // verus!
