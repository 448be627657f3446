use vstd::prelude::*;
use crate::model::{Student, Table, TableView, SeatingArrangement, Seat, table_seat, seat_valid, occupant};
use crate::wishes::{WishIndex, entry_of};
use crate::scoring::{liked_count, orthogonal};

verus! {

/// The occupant of seat `s`, if the directory knows it and it wishes for
/// anyone, has at least one wished orthogonal neighbour.
pub open spec fn seat_satisfied(dir: Seq<Student>, t: TableView, s: Seat) -> bool {
    match table_seat(t, s) {
        Some(n) => match entry_of(dir, n@) {
            Some(k) => dir[k].wishes@.len() == 0 || liked_count(dir, k, orthogonal(t, s)) > 0,
            None => true,
        },
        None => true,
    }
}

/// Seat `i` of the top row or of the bottom row.
pub open spec fn row_seat(top: bool, i: int) -> Seat {
    if top {
        Seat::Top(0, i as usize)
    } else {
        Seat::Bottom(0, i as usize)
    }
}

/// Every seat of the table, bonus slots included, is satisfied.
pub open spec fn table_perfect(dir: Seq<Student>, t: TableView) -> bool {
    &&& forall|i: int| 0 <= i < t.top.len() ==> #[trigger] seat_satisfied(dir, t, row_seat(true, i))
    &&& forall|i: int|
        0 <= i < t.bottom.len() ==> #[trigger] seat_satisfied(dir, t, row_seat(false, i))
    &&& seat_satisfied(dir, t, Seat::BonusLeft(0))
    &&& seat_satisfied(dir, t, Seat::BonusRight(0))
}

/// Every table of the arrangement is perfect.
pub open spec fn perfect(dir: Seq<Student>, a: Seq<TableView>) -> bool {
    forall|t: int| 0 <= t < a.len() ==> #[trigger] table_perfect(dir, a[t])
}

impl WishIndex {
    fn satisfied(&self, table: &Table, s: Seat) -> (r: bool)
        requires
            match s {
                Seat::Top(_, i) => i < table.top@.len(),
                Seat::Bottom(_, i) => i < table.bottom@.len(),
                _ => true,
            },
        ensures
            r == seat_satisfied(self.entries(), table@, s),
    {
        let occupant: &Option<String> = match s {
            Seat::Top(_, i) => &table.top[i],
            Seat::Bottom(_, i) => &table.bottom[i],
            Seat::BonusLeft(_) => &table.bonus_left,
            Seat::BonusRight(_) => &table.bonus_right,
        };
        match occupant {
            None => true,
            Some(name) => match self.lookup(name) {
                None => true,
                Some(k) => self.students[k].wishes.len() == 0 || self.orthogonal_count(k, table, s)
                    > 0,
            },
        }
    }

    fn row_satisfied(&self, table: &Table, top: bool) -> (r: bool)
        ensures
            r == (forall|i: int|
                0 <= i < (if top { table@.top.len() } else { table@.bottom.len() })
                    ==> #[trigger] seat_satisfied(
                    self.entries(),
                    table@,
                    row_seat(top, i),
                )),
    {
        let n = if top { table.top.len() } else { table.bottom.len() };
        let mut i: usize = 0;
        while i < n
            invariant
                n == (if top { table@.top.len() } else { table@.bottom.len() }),
                i <= n,
                forall|j: int|
                    0 <= j < i ==> #[trigger] seat_satisfied(
                        self.entries(),
                        table@,
                        row_seat(top, j),
                    ),
            decreases n - i,
        {
            let s = if top { Seat::Top(0, i) } else { Seat::Bottom(0, i) };
            assert(s == row_seat(top, i as int));
            if !self.satisfied(table, s) {
                return false;
            }
            i = i + 1;
        }
        true
    }
}

/// Tests whether every seated student whom the directory knows and who wishes
/// for anyone has at least one wished orthogonal neighbour. Bonus slots are
/// checked whatever the bonus configuration; diagonals and weights play no
/// part.
pub fn is_perfect_seating(arrangement: &SeatingArrangement, index: &WishIndex) -> (r: bool)
    ensures
        r == perfect(index.entries(), arrangement@),
{
    let n = arrangement.tables.len();
    let mut t: usize = 0;
    while t < n
        invariant
            n == arrangement@.len(),
            t <= n,
            forall|j: int| 0 <= j < t ==> #[trigger] table_perfect(index.entries(), arrangement@[j]),
        decreases n - t,
    {
        let table = &arrangement.tables[t];
        let ok = index.row_satisfied(table, true) && index.row_satisfied(table, false)
            && index.satisfied(table, Seat::BonusLeft(0)) && index.satisfied(
            table,
            Seat::BonusRight(0),
        );
        if !ok {
            assert(!table_perfect(index.entries(), arrangement@[t as int]));
            return false;
        }
        t = t + 1;
    }
    true
}

/// Perfection soundness: in a perfect arrangement, every seated student whom
/// the directory knows and whose wish list is not empty has a wished
/// orthogonal neighbour.
pub proof fn law_perfect_sound(dir: Seq<Student>, a: Seq<TableView>, s: Seat)
    requires
        perfect(dir, a),
        seat_valid(a, s),
        occupant(a, s) is Some,
        entry_of(dir, occupant(a, s)->0@) is Some,
        dir[entry_of(dir, occupant(a, s)->0@)->0].wishes@.len() > 0,
    ensures
        liked_count(
            dir,
            entry_of(dir, occupant(a, s)->0@)->0,
            orthogonal(a[s.table_of() as int], s),
        ) > 0,
{
    let t = a[s.table_of() as int];
    assert(table_perfect(dir, t));
    match s {
        Seat::Top(_, i) => {
            assert(seat_satisfied(dir, t, row_seat(true, i as int)));
            assert(orthogonal(t, s) == orthogonal(t, row_seat(true, i as int)));
        },
        Seat::Bottom(_, i) => {
            assert(seat_satisfied(dir, t, row_seat(false, i as int)));
            assert(orthogonal(t, s) == orthogonal(t, row_seat(false, i as int)));
        },
        _ => {},
    }
}

} // verus!
