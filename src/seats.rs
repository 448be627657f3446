use vstd::prelude::*;
use crate::model::{Table, SeatingArrangement, Seat, Coordinate, TableView, coordinate_seat, seat_valid};
use crate::scoring::BonusConfig;
use crate::config::ErrorKind;

verus! {

/// The seat belongs to the seat universe: it exists, and a bonus slot is
/// included by the configuration.
pub open spec fn in_universe(a: Seq<TableView>, cfg: BonusConfig, s: Seat) -> bool {
    &&& seat_valid(a, s)
    &&& (s is BonusLeft ==> cfg.spec_left())
    &&& (s is BonusRight ==> cfg.spec_right())
}

/// Some coordinate of the list names the seat.
pub open spec fn is_fixed(fixed: Seq<Coordinate>, s: Seat) -> bool {
    exists|j: int| 0 <= j < fixed.len() && coordinate_seat(#[trigger] fixed[j]) == Some(s)
}

/// A seat is free: in the universe and not fixed.
pub open spec fn is_free(a: Seq<TableView>, cfg: BonusConfig, fixed: Seq<Coordinate>, s: Seat) -> bool {
    in_universe(a, cfg, s) && !is_fixed(fixed, s)
}

fn fixed_seats(fixed: &Vec<Coordinate>) -> (r: Vec<Option<Seat>>)
    ensures
        r@.len() == fixed@.len(),
        forall|j: int| 0 <= j < r@.len() ==> #[trigger] r@[j] == coordinate_seat(fixed@[j]),
{
    let mut out: Vec<Option<Seat>> = Vec::with_capacity(fixed.len());
    let mut j: usize = 0;
    while j < fixed.len()
        invariant
            j <= fixed@.len(),
            out@.len() == j,
            forall|q: int| 0 <= q < j ==> #[trigger] out@[q] == coordinate_seat(fixed@[q]),
        decreases fixed@.len() - j,
    {
        out.push(fixed[j].to_seat());
        j = j + 1;
    }
    out
}

fn listed(fixed: &Vec<Option<Seat>>, s: Seat) -> (r: bool)
    ensures
        r == exists|j: int| 0 <= j < fixed@.len() && fixed@[j] == Some(s),
{
    let mut j: usize = 0;
    while j < fixed.len()
        invariant
            j <= fixed@.len(),
            forall|q: int| 0 <= q < j ==> fixed@[q] != Some(s),
        decreases fixed@.len() - j,
    {
        if fixed[j] == Some(s) {
            return true;
        }
        j = j + 1;
    }
    false
}

/// The position of a seat within its table in the enumeration order: top
/// row, bottom row, left bonus slot, right bonus slot.
pub open spec fn seat_rank(a: Seq<TableView>, s: Seat) -> int {
    let t = a[s.table_of() as int];
    match s {
        Seat::Top(_, i) => i as int,
        Seat::Bottom(_, i) => t.top.len() as int + i as int,
        Seat::BonusLeft(_) => t.top.len() as int + t.bottom.len() as int,
        Seat::BonusRight(_) => t.top.len() as int + t.bottom.len() as int + 1,
    }
}

/// The seat comes before position `r` of table `t` in enumeration order.
pub open spec fn before(a: Seq<TableView>, s: Seat, t: int, r: int) -> bool {
    s.table_of() < t || (s.table_of() == t && seat_rank(a, s) < r)
}

/// Adds seat `s` (at position `r` of table `t`) to the list when it is free.
fn consider(
    out: &mut Vec<Seat>,
    fixed: &Vec<Option<Seat>>,
    cfg: BonusConfig,
    s: Seat,
    Ghost(a): Ghost<Seq<TableView>>,
    Ghost(fc): Ghost<Seq<Coordinate>>,
    Ghost(t): Ghost<int>,
    Ghost(r): Ghost<int>,
)
    requires
        fixed@.len() == fc.len(),
        forall|j: int| 0 <= j < fixed@.len() ==> #[trigger] fixed@[j] == coordinate_seat(fc[j]),
        seat_valid(a, s),
        s.table_of() == t,
        seat_rank(a, s) == r,
        (s is BonusLeft ==> cfg.spec_left()),
        (s is BonusRight ==> cfg.spec_right()),
        old(out)@.no_duplicates(),
        forall|x: Seat| #[trigger] old(out)@.contains(x) <==>
            is_free(a, cfg, fc, x) && before(a, x, t, r),
    ensures
        final(out)@.no_duplicates(),
        forall|x: Seat| #[trigger] final(out)@.contains(x) <==>
            is_free(a, cfg, fc, x) && before(a, x, t, r + 1),
{
    let hit = listed(fixed, s);
    assert(hit == is_fixed(fc, s)) by {
        if hit {
            let j = choose|j: int| 0 <= j < fixed@.len() && fixed@[j] == Some(s);
            assert(coordinate_seat(fc[j]) == Some(s));
        }
        if is_fixed(fc, s) {
            let j = choose|j: int| 0 <= j < fc.len() && coordinate_seat(#[trigger] fc[j]) == Some(s);
            assert(fixed@[j] == Some(s));
        }
    }
    assert forall|x: Seat| seat_valid(a, x) && x.table_of() == t && seat_rank(a, x) == r implies x == s by {}
    if !hit {
        assert(!old(out)@.contains(s));
        out.push(s);
        assert forall|x: Seat| #[trigger] out@.contains(x) <==>
            is_free(a, cfg, fc, x) && before(a, x, t, r + 1) by {
            if out@.contains(x) && x != s {
                let k = choose|k: int| 0 <= k < out@.len() && out@[k] == x;
                assert(old(out)@[k] == x);
                assert(old(out)@.contains(x));
            }
            if is_free(a, cfg, fc, x) && before(a, x, t, r) {
                assert(old(out)@.contains(x));
                let k = choose|k: int| 0 <= k < old(out)@.len() && old(out)@[k] == x;
                assert(out@[k] == x);
            }
            if x == s {
                assert(out@[out@.len() - 1] == s);
            }
        }
    }
}

/// The free seats of a run: every seat of the seat universe (all row slots,
/// and the bonus slots that the configuration includes) that no coordinate
/// of `fixed` names, each once, table by table.
pub fn free_seats(
    arrangement: &SeatingArrangement,
    fixed: &Vec<Coordinate>,
    bonus_config: BonusConfig,
) -> (r: Vec<Seat>)
    ensures
        r@.no_duplicates(),
        forall|s: Seat| #[trigger] r@.contains(s) <==>
            is_free(arrangement@, bonus_config, fixed@, s),
{
    let ghost a = arrangement@;
    let ghost fc = fixed@;
    let fs = fixed_seats(fixed);
    let mut out: Vec<Seat> = Vec::new();
    let n = arrangement.tables.len();
    let mut t: usize = 0;
    while t < n
        invariant
            n == a.len(),
            a == arrangement@,
            fc == fixed@,
            t <= n,
            fs@.len() == fc.len(),
            forall|j: int| 0 <= j < fs@.len() ==> #[trigger] fs@[j] == coordinate_seat(fc[j]),
            out@.no_duplicates(),
            forall|x: Seat| #[trigger] out@.contains(x) <==>
                is_free(a, bonus_config, fc, x) && before(a, x, t as int, 0),
        decreases n - t,
    {
        let table: &Table = &arrangement.tables[t];
        let top_len = table.top.len();
        let bottom_len = table.bottom.len();
        let mut i: usize = 0;
        while i < top_len
            invariant
                n == a.len(),
                t < n,
                a[t as int] == table@,
                top_len == table@.top.len(),
                i <= top_len,
                fs@.len() == fc.len(),
                forall|j: int| 0 <= j < fs@.len() ==> #[trigger] fs@[j] == coordinate_seat(fc[j]),
                out@.no_duplicates(),
                forall|x: Seat| #[trigger] out@.contains(x) <==>
                    is_free(a, bonus_config, fc, x) && before(a, x, t as int, i as int),
            decreases top_len - i,
        {
            consider(
                &mut out,
                &fs,
                bonus_config,
                Seat::Top(t, i),
                Ghost(a),
                Ghost(fc),
                Ghost(t as int),
                Ghost(i as int),
            );
            i = i + 1;
        }
        let mut i: usize = 0;
        while i < bottom_len
            invariant
                n == a.len(),
                t < n,
                a[t as int] == table@,
                top_len == table@.top.len(),
                bottom_len == table@.bottom.len(),
                i <= bottom_len,
                fs@.len() == fc.len(),
                forall|j: int| 0 <= j < fs@.len() ==> #[trigger] fs@[j] == coordinate_seat(fc[j]),
                out@.no_duplicates(),
                forall|x: Seat| #[trigger] out@.contains(x) <==>
                    is_free(a, bonus_config, fc, x) && before(a, x, t as int, top_len + i),
            decreases bottom_len - i,
        {
            consider(
                &mut out,
                &fs,
                bonus_config,
                Seat::Bottom(t, i),
                Ghost(a),
                Ghost(fc),
                Ghost(t as int),
                Ghost(top_len + i),
            );
            i = i + 1;
        }
        let ghost r0: int = top_len + bottom_len;
        if bonus_config.uses_left() {
            consider(
                &mut out,
                &fs,
                bonus_config,
                Seat::BonusLeft(t),
                Ghost(a),
                Ghost(fc),
                Ghost(t as int),
                Ghost(r0),
            );
        } else {
            assert forall|x: Seat| #[trigger] out@.contains(x) <==>
                is_free(a, bonus_config, fc, x) && before(a, x, t as int, r0 + 1) by {
                if x.table_of() == t && seat_rank(a, x) == r0 && seat_valid(a, x) {
                    assert(x is BonusLeft);
                }
            }
        }
        if bonus_config.uses_right() {
            consider(
                &mut out,
                &fs,
                bonus_config,
                Seat::BonusRight(t),
                Ghost(a),
                Ghost(fc),
                Ghost(t as int),
                Ghost(r0 + 1),
            );
        } else {
            assert forall|x: Seat| #[trigger] out@.contains(x) <==>
                is_free(a, bonus_config, fc, x) && before(a, x, t as int, r0 + 2) by {
                if x.table_of() == t && seat_rank(a, x) == r0 + 1 && seat_valid(a, x) {
                    assert(x is BonusRight);
                }
            }
        }
        assert forall|x: Seat| #[trigger] out@.contains(x) <==>
            is_free(a, bonus_config, fc, x) && before(a, x, t + 1, 0) by {
            if seat_valid(a, x) && x.table_of() == t {
                assert(seat_rank(a, x) < r0 + 2);
            }
        }
        t = t + 1;
    }
    out
}

/// The coordinate names a seat that exists in the arrangement.
pub open spec fn names_seat(a: Seq<TableView>, c: Coordinate) -> bool {
    coordinate_seat(c) matches Some(s) && seat_valid(a, s)
}

/// The seat exists in the arrangement.
pub fn seat_exists(arrangement: &SeatingArrangement, s: Seat) -> (r: bool)
    ensures
        r == seat_valid(arrangement@, s),
{
    let t = s.table();
    if t >= arrangement.tables.len() {
        return false;
    }
    let table = &arrangement.tables[t];
    match s {
        Seat::Top(_, i) => i < table.top.len(),
        Seat::Bottom(_, i) => i < table.bottom.len(),
        _ => true,
    }
}

/// Checks that every coordinate names an existing seat: a well-formed
/// section tag and index, a table that exists, an index within its row.
pub fn check_coordinates(arrangement: &SeatingArrangement, coords: &Vec<Coordinate>) -> (r: Result<
    (),
    ErrorKind,
>)
    ensures
        r is Ok <==> forall|j: int| 0 <= j < coords@.len() ==> names_seat(arrangement@, #[trigger] coords@[j]),
        r matches Err(e) ==> e == ErrorKind::BadSeat,
{
    let mut j: usize = 0;
    while j < coords.len()
        invariant
            j <= coords@.len(),
            forall|q: int| 0 <= q < j ==> names_seat(arrangement@, #[trigger] coords@[q]),
        decreases coords@.len() - j,
    {
        let ok = match coords[j].to_seat() {
            Some(s) => seat_exists(arrangement, s),
            None => false,
        };
        if !ok {
            return Err(ErrorKind::BadSeat);
        }
        j = j + 1;
    }
    Ok(())
}

} // verus!
