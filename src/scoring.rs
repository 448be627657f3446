use vstd::prelude::*;
use crate::model::{Student, Table, TableView, SeatingArrangement, Seat, table_seat};
use crate::wishes::{WishIndex, entry_of, likes};

verus! {

/// Which bonus slots take part in scoring and in the seat universe.
#[derive(Clone, Copy, Debug, PartialEq, Eq, Structural)]
pub enum BonusConfig {
    NoBonus,
    Left,
    Right,
    Both,
}

impl BonusConfig {
    pub open spec fn spec_left(self) -> bool {
        self == BonusConfig::Left || self == BonusConfig::Both
    }

    pub open spec fn spec_right(self) -> bool {
        self == BonusConfig::Right || self == BonusConfig::Both
    }

    /// The left bonus slot takes part.
    pub fn uses_left(&self) -> (r: bool)
        ensures
            r == self.spec_left(),
    {
        matches!(self, BonusConfig::Left | BonusConfig::Both)
    }

    /// The right bonus slot takes part.
    pub fn uses_right(&self) -> (r: bool)
        ensures
            r == self.spec_right(),
    {
        matches!(self, BonusConfig::Right | BonusConfig::Both)
    }
}

/// The slot `j` of a row, or nothing outside the row.
pub open spec fn row_at(r: Seq<Option<String>>, j: int) -> Option<String> {
    if 0 <= j < r.len() {
        r[j]
    } else {
        None
    }
}

/// The index that the right bonus slot looks at in both rows: the last index
/// of the top row, or 0 when the top row is empty.
pub open spec fn right_end(t: TableView) -> int {
    if t.top.len() > 0 {
        t.top.len() - 1
    } else {
        0
    }
}

/// The slots orthogonally next to a seat.
pub open spec fn orthogonal(t: TableView, s: Seat) -> Seq<Option<String>> {
    match s {
        Seat::Top(_, i) => seq![row_at(t.top, i - 1), row_at(t.top, i + 1), row_at(t.bottom, i as int)],
        Seat::Bottom(_, i) => seq![
            row_at(t.bottom, i - 1),
            row_at(t.bottom, i + 1),
            row_at(t.top, i as int),
        ],
        Seat::BonusLeft(_) => seq![row_at(t.top, 0), row_at(t.bottom, 0)],
        Seat::BonusRight(_) => seq![row_at(t.top, right_end(t)), row_at(t.bottom, right_end(t))],
    }
}

/// The slots diagonally next to a seat; bonus slots have none.
pub open spec fn diagonal(t: TableView, s: Seat) -> Seq<Option<String>> {
    match s {
        Seat::Top(_, i) => seq![row_at(t.bottom, i - 1), row_at(t.bottom, i + 1)],
        Seat::Bottom(_, i) => seq![row_at(t.top, i - 1), row_at(t.top, i + 1)],
        _ => seq![],
    }
}

/// How many of the slots hold a name that entry `k` wishes for.
pub open spec fn liked_count(dir: Seq<Student>, k: int, slots: Seq<Option<String>>) -> nat
    decreases slots.len(),
{
    if slots.len() == 0 {
        0
    } else {
        liked_count(dir, k, slots.drop_last()) + if likes(dir, k, slots.last()) {
            1nat
        } else {
            0nat
        }
    }
}

/// Fulfillment of entry `k` seated at `s`, in tenths: ten for each wished
/// orthogonal neighbour, eight for each wished diagonal one.
pub open spec fn fulfillment(dir: Seq<Student>, k: int, t: TableView, s: Seat) -> nat {
    10 * liked_count(dir, k, orthogonal(t, s)) + 8 * liked_count(dir, k, diagonal(t, s))
}

/// What one occupied seat contributes before weights: the directory entry of
/// its occupant and that occupant's fulfillment in tenths.
#[derive(Clone, Copy, Debug, PartialEq, Eq, Structural)]
pub struct SeatCredit {
    pub student: usize,
    pub tenths: u32,
}

/// The credit of a seat: present when the seat holds a name that the
/// directory knows.
pub open spec fn seat_credit(dir: Seq<Student>, t: TableView, s: Seat) -> Option<SeatCredit> {
    match table_seat(t, s) {
        Some(n) => match entry_of(dir, n@) {
            Some(k) => Some(
                SeatCredit { student: k as usize, tenths: fulfillment(dir, k, t, s) as u32 },
            ),
            None => None,
        },
        None => None,
    }
}


pub open spec fn ind(b: bool) -> nat {
    if b {
        1
    } else {
        0
    }
}

proof fn lemma_count2(dir: Seq<Student>, k: int, a: Option<String>, b: Option<String>)
    ensures
        liked_count(dir, k, seq![a, b]) == ind(likes(dir, k, a)) + ind(likes(dir, k, b)),
{
    let s = seq![a, b];
    assert(s.drop_last() =~= seq![a]);
    assert(seq![a].drop_last() =~= Seq::<Option<String>>::empty());
    reveal_with_fuel(liked_count, 3);
}

proof fn lemma_count3(dir: Seq<Student>, k: int, a: Option<String>, b: Option<String>, c: Option<String>)
    ensures
        liked_count(dir, k, seq![a, b, c]) == ind(likes(dir, k, a)) + ind(likes(dir, k, b)) + ind(
            likes(dir, k, c),
        ),
{
    let s = seq![a, b, c];
    assert(s.drop_last() =~= seq![a, b]);
    lemma_count2(dir, k, a, b);
}

impl WishIndex {
    /// Entry `k` wishes for the occupant of slot `j` of a row (nothing lies
    /// outside the row).
    fn likes_at(&self, k: usize, row: &Vec<Option<String>>, j: usize) -> (r: bool)
        requires
            k < self.entries().len(),
        ensures
            r == likes(self.entries(), k as int, row_at(row@, j as int)),
    {
        if j < row.len() {
            self.likes_slot(k, &row[j])
        } else {
            false
        }
    }

    /// Entry `k` wishes for the occupant of slot `i - 1` of a row.
    fn likes_before(&self, k: usize, row: &Vec<Option<String>>, i: usize) -> (r: bool)
        requires
            k < self.entries().len(),
        ensures
            r == likes(self.entries(), k as int, row_at(row@, i - 1)),
    {
        if i > 0 {
            self.likes_at(k, row, i - 1)
        } else {
            false
        }
    }

    /// How many orthogonal neighbours of seat `s` entry `k` wishes for.
    pub fn orthogonal_count(&self, k: usize, table: &Table, s: Seat) -> (r: u32)
        requires
            k < self.entries().len(),
        ensures
            r == liked_count(self.entries(), k as int, orthogonal(table@, s)),
            r <= 3,
    {
        let dir = Ghost(self.entries());
        match s {
            Seat::Top(_, i) => {
                let a = self.likes_before(k, &table.top, i);
                let b = i < table.top.len() && self.likes_at(k, &table.top, i + 1);
                let c = self.likes_at(k, &table.bottom, i);
                proof {
                    lemma_count3(
                        dir@,
                        k as int,
                        row_at(table.top@, i - 1),
                        row_at(table.top@, i + 1),
                        row_at(table.bottom@, i as int),
                    );
                }
                (if a { 1u32 } else { 0 }) + (if b { 1u32 } else { 0 }) + (if c { 1u32 } else { 0 })
            },
            Seat::Bottom(_, i) => {
                let a = self.likes_before(k, &table.bottom, i);
                let b = i < table.bottom.len() && self.likes_at(k, &table.bottom, i + 1);
                let c = self.likes_at(k, &table.top, i);
                proof {
                    lemma_count3(
                        dir@,
                        k as int,
                        row_at(table.bottom@, i - 1),
                        row_at(table.bottom@, i + 1),
                        row_at(table.top@, i as int),
                    );
                }
                (if a { 1u32 } else { 0 }) + (if b { 1u32 } else { 0 }) + (if c { 1u32 } else { 0 })
            },
            Seat::BonusLeft(_) => {
                let a = self.likes_at(k, &table.top, 0);
                let b = self.likes_at(k, &table.bottom, 0);
                proof {
                    lemma_count2(dir@, k as int, row_at(table.top@, 0), row_at(table.bottom@, 0));
                }
                (if a { 1u32 } else { 0 }) + (if b { 1u32 } else { 0 })
            },
            Seat::BonusRight(_) => {
                let last: usize = if table.top.len() > 0 { table.top.len() - 1 } else { 0 };
                let a = self.likes_at(k, &table.top, last);
                let b = self.likes_at(k, &table.bottom, last);
                proof {
                    lemma_count2(
                        dir@,
                        k as int,
                        row_at(table.top@, last as int),
                        row_at(table.bottom@, last as int),
                    );
                }
                (if a { 1u32 } else { 0 }) + (if b { 1u32 } else { 0 })
            },
        }
    }
}


impl WishIndex {
    /// How many diagonal neighbours of seat `s` entry `k` wishes for.
    pub fn diagonal_count(&self, k: usize, table: &Table, s: Seat) -> (r: u32)
        requires
            k < self.entries().len(),
        ensures
            r == liked_count(self.entries(), k as int, diagonal(table@, s)),
            r <= 2,
    {
        let dir = Ghost(self.entries());
        match s {
            Seat::Top(_, i) => {
                let a = self.likes_before(k, &table.bottom, i);
                let b = i < table.bottom.len() && self.likes_at(k, &table.bottom, i + 1);
                proof {
                    lemma_count2(
                        dir@,
                        k as int,
                        row_at(table.bottom@, i - 1),
                        row_at(table.bottom@, i + 1),
                    );
                }
                (if a { 1u32 } else { 0 }) + (if b { 1u32 } else { 0 })
            },
            Seat::Bottom(_, i) => {
                let a = self.likes_before(k, &table.top, i);
                let b = i < table.top.len() && self.likes_at(k, &table.top, i + 1);
                proof {
                    lemma_count2(
                        dir@,
                        k as int,
                        row_at(table.top@, i - 1),
                        row_at(table.top@, i + 1),
                    );
                }
                (if a { 1u32 } else { 0 }) + (if b { 1u32 } else { 0 })
            },
            _ => {
                proof {
                    reveal_with_fuel(liked_count, 1);
                }
                0
            },
        }
    }

    /// The credit of seat `s` of a table: the occupant's entry and its
    /// fulfillment in tenths, when the seat holds a known name.
    pub fn credit(&self, table: &Table, s: Seat) -> (r: Option<SeatCredit>)
        requires
            match s {
                Seat::Top(_, i) => i < table.top@.len(),
                Seat::Bottom(_, i) => i < table.bottom@.len(),
                _ => true,
            },
        ensures
            r == seat_credit(self.entries(), table@, s),
    {
        let occupant: &Option<String> = match s {
            Seat::Top(_, i) => &table.top[i],
            Seat::Bottom(_, i) => &table.bottom[i],
            Seat::BonusLeft(_) => &table.bonus_left,
            Seat::BonusRight(_) => &table.bonus_right,
        };
        match occupant {
            None => None,
            Some(name) => match self.lookup(name) {
                None => None,
                Some(k) => {
                    let o = self.orthogonal_count(k, table, s);
                    let d = self.diagonal_count(k, table, s);
                    Some(SeatCredit { student: k, tenths: 10 * o + 8 * d })
                },
            },
        }
    }
}


/// Occupied slots among the first `n` of a row.
pub open spec fn occupied_count(r: Seq<Option<String>>, n: int) -> int
    decreases n,
{
    if n <= 0 {
        0
    } else {
        occupied_count(r, n - 1) + if r[n - 1] is Some {
            1int
        } else {
            0
        }
    }
}

/// The first occupied slot among the first `n` of a row.
pub open spec fn first_occupied(r: Seq<Option<String>>, n: int) -> Option<int>
    decreases n,
{
    if n <= 0 {
        None
    } else {
        match first_occupied(r, n - 1) {
            Some(f) => Some(f),
            None => if r[n - 1] is Some {
                Some(n - 1)
            } else {
                None
            },
        }
    }
}

/// The last occupied slot among the first `n` of a row.
pub open spec fn last_occupied(r: Seq<Option<String>>, n: int) -> Option<int>
    decreases n,
{
    if n <= 0 {
        None
    } else if r[n - 1] is Some {
        Some(n - 1)
    } else {
        last_occupied(r, n - 1)
    }
}

/// Empty slots of a row that lie between its first and its last occupied
/// slot: the span from first to last, less the occupied slots; 0 for an
/// empty row.
pub open spec fn row_gaps(r: Seq<Option<String>>) -> int {
    match (first_occupied(r, r.len() as int), last_occupied(r, r.len() as int)) {
        (Some(f), Some(l)) => (l - f + 1) - occupied_count(r, r.len() as int),
        _ => 0,
    }
}

/// Counts the gaps of a row.
pub fn count_gaps(row: &Vec<Option<String>>) -> (r: usize)
    ensures
        r == row_gaps(row@),
{
    let n = row.len();
    let mut first: Option<usize> = None;
    let mut last: Option<usize> = None;
    let mut count: usize = 0;
    let mut i: usize = 0;
    while i < n
        invariant
            n == row@.len(),
            i <= n,
            count as int == occupied_count(row@, i as int),
            count <= i,
            first matches Some(f) ==> first_occupied(row@, i as int) == Some(f as int),
            first is None ==> first_occupied(row@, i as int) is None,
            last matches Some(l) ==> last_occupied(row@, i as int) == Some(l as int),
            last is None ==> last_occupied(row@, i as int) is None,
            first is None <==> last is None,
            first is None ==> count == 0,
            first matches Some(f) ==> last matches Some(l) && f <= l < i && count <= l - f + 1,
        decreases n - i,
    {
        if row[i].is_some() {
            count = count + 1;
            if first.is_none() {
                first = Some(i);
            }
            last = Some(i);
        }
        i = i + 1;
    }
    match (first, last) {
        (Some(f), Some(l)) => (l - f + 1) - count,
        _ => 0,
    }
}

/// The per-seat credits of one table and the gaps of its two rows: the exact
/// integer content of the table's score.
pub struct TableTally {
    pub top: Vec<Option<SeatCredit>>,
    pub bottom: Vec<Option<SeatCredit>>,
    pub bonus_left: Option<SeatCredit>,
    pub bonus_right: Option<SeatCredit>,
    pub top_gaps: usize,
    pub bottom_gaps: usize,
}

/// The tally describes table `t`: one credit per row slot, the bonus slots
/// that the configuration includes, and the two rows' gaps.
pub open spec fn tally_of(
    tl: TableTally,
    dir: Seq<Student>,
    t: TableView,
    cfg: BonusConfig,
) -> bool {
    &&& tl.top@.len() == t.top.len()
    &&& tl.bottom@.len() == t.bottom.len()
    &&& forall|i: int|
        0 <= i < t.top.len() ==> #[trigger] tl.top@[i] == seat_credit(
            dir,
            t,
            Seat::Top(0, i as usize),
        )
    &&& forall|i: int|
        0 <= i < t.bottom.len() ==> #[trigger] tl.bottom@[i] == seat_credit(
            dir,
            t,
            Seat::Bottom(0, i as usize),
        )
    &&& tl.bonus_left == if cfg.spec_left() {
        seat_credit(dir, t, Seat::BonusLeft(0))
    } else {
        None
    }
    &&& tl.bonus_right == if cfg.spec_right() {
        seat_credit(dir, t, Seat::BonusRight(0))
    } else {
        None
    }
    &&& tl.top_gaps == row_gaps(t.top)
    &&& tl.bottom_gaps == row_gaps(t.bottom)
}


fn row_credits(index: &WishIndex, table: &Table, top: bool) -> (r: Vec<Option<SeatCredit>>)
    ensures
        r@.len() == (if top { table@.top.len() } else { table@.bottom.len() }),
        forall|i: int|
            0 <= i < r@.len() ==> #[trigger] r@[i] == seat_credit(
                index.entries(),
                table@,
                if top {
                    Seat::Top(0, i as usize)
                } else {
                    Seat::Bottom(0, i as usize)
                },
            ),
{
    let n = if top { table.top.len() } else { table.bottom.len() };
    let mut out: Vec<Option<SeatCredit>> = Vec::with_capacity(n);
    let mut i: usize = 0;
    while i < n
        invariant
            n == (if top { table@.top.len() } else { table@.bottom.len() }),
            i <= n,
            out@.len() == i,
            forall|j: int|
                0 <= j < i ==> #[trigger] out@[j] == seat_credit(
                    index.entries(),
                    table@,
                    if top {
                        Seat::Top(0, j as usize)
                    } else {
                        Seat::Bottom(0, j as usize)
                    },
                ),
        decreases n - i,
    {
        let s = if top { Seat::Top(0, i) } else { Seat::Bottom(0, i) };
        out.push(index.credit(table, s));
        i = i + 1;
    }
    out
}

/// Tallies one table: each seat's credit and each row's gaps. Tables do not
/// interact, so this is all that a table contributes to the score.
pub fn evaluate_table(table: &Table, index: &WishIndex, bonus_config: BonusConfig) -> (r:
    TableTally)
    ensures
        tally_of(r, index.entries(), table@, bonus_config),
{
    let top = row_credits(index, table, true);
    let bottom = row_credits(index, table, false);
    let bonus_left = if bonus_config.uses_left() {
        index.credit(table, Seat::BonusLeft(0))
    } else {
        None
    };
    let bonus_right = if bonus_config.uses_right() {
        index.credit(table, Seat::BonusRight(0))
    } else {
        None
    };
    TableTally {
        top,
        bottom,
        bonus_left,
        bonus_right,
        top_gaps: count_gaps(&table.top),
        bottom_gaps: count_gaps(&table.bottom),
    }
}

/// Tallies every table of the arrangement, in order.
pub fn evaluate_seating(
    arrangement: &SeatingArrangement,
    index: &WishIndex,
    bonus_config: BonusConfig,
) -> (r: Vec<TableTally>)
    ensures
        r@.len() == arrangement@.len(),
        forall|t: int|
            0 <= t < r@.len() ==> tally_of(
                #[trigger] r@[t],
                index.entries(),
                arrangement@[t],
                bonus_config,
            ),
{
    let n = arrangement.tables.len();
    let mut out: Vec<TableTally> = Vec::with_capacity(n);
    let mut t: usize = 0;
    while t < n
        invariant
            n == arrangement@.len(),
            t <= n,
            out@.len() == t,
            forall|j: int|
                0 <= j < t ==> tally_of(
                    #[trigger] out@[j],
                    index.entries(),
                    arrangement@[j],
                    bonus_config,
                ),
        decreases n - t,
    {
        out.push(evaluate_table(&arrangement.tables[t], index, bonus_config));
        t = t + 1;
    }
    out
}

/// Bonus slots are never row neighbours: the credit of a row seat does not
/// depend on who sits in the bonus slots.
pub proof fn law_row_credit_ignores_bonus(dir: Seq<Student>, t: TableView, u: TableView, s: Seat)
    requires
        t.top == u.top,
        t.bottom == u.bottom,
        s is Top || s is Bottom,
    ensures
        seat_credit(dir, t, s) == seat_credit(dir, u, s),
{
}

/// Including the bonus slots changes a table's tally by their credits alone:
/// row credits and gaps are the same with and without them.
pub proof fn law_bonus_tally_difference(
    dir: Seq<Student>,
    t: TableView,
    with_bonus: TableTally,
    without: TableTally,
)
    requires
        tally_of(with_bonus, dir, t, BonusConfig::Both),
        tally_of(without, dir, t, BonusConfig::NoBonus),
    ensures
        with_bonus.top@ == without.top@,
        with_bonus.bottom@ == without.bottom@,
        with_bonus.top_gaps == without.top_gaps,
        with_bonus.bottom_gaps == without.bottom_gaps,
        without.bonus_left is None,
        without.bonus_right is None,
        with_bonus.bonus_left == seat_credit(dir, t, Seat::BonusLeft(0)),
        with_bonus.bonus_right == seat_credit(dir, t, Seat::BonusRight(0)),
{
    assert(with_bonus.top@ =~= without.top@);
    assert(with_bonus.bottom@ =~= without.bottom@);
}

/// Two tallies hold the same credits and gaps.
pub open spec fn same_tally(x: TableTally, y: TableTally) -> bool {
    &&& x.top@ == y.top@
    &&& x.bottom@ == y.bottom@
    &&& x.bonus_left == y.bonus_left
    &&& x.bonus_right == y.bonus_right
    &&& x.top_gaps == y.top_gaps
    &&& x.bottom_gaps == y.bottom_gaps
}

/// Locality of the tallies: when two arrangements differ only in the tables
/// of `ts`, their tallies agree on every other table, so a score summed over
/// tables changes only by the change on the tables of `ts`.
pub proof fn law_tally_locality(
    dir: Seq<Student>,
    a: Seq<TableView>,
    b: Seq<TableView>,
    ts: Set<int>,
    cfg: BonusConfig,
    ra: Seq<TableTally>,
    rb: Seq<TableTally>,
)
    requires
        a.len() == b.len(),
        forall|t: int| 0 <= t < a.len() && !ts.contains(t) ==> a[t] == b[t],
        ra.len() == a.len(),
        rb.len() == b.len(),
        forall|t: int| 0 <= t < a.len() ==> tally_of(#[trigger] ra[t], dir, a[t], cfg),
        forall|t: int| 0 <= t < b.len() ==> tally_of(#[trigger] rb[t], dir, b[t], cfg),
    ensures
        forall|t: int| 0 <= t < a.len() && !ts.contains(t) ==> same_tally(#[trigger] ra[t], rb[t]),
{
    assert forall|t: int| 0 <= t < a.len() && !ts.contains(t) implies same_tally(#[trigger] ra[t], rb[t]) by {
        assert(tally_of(ra[t], dir, a[t], cfg));
        assert(tally_of(rb[t], dir, b[t], cfg));
        assert(ra[t].top@ =~= rb[t].top@);
        assert(ra[t].bottom@ =~= rb[t].bottom@);
    }
}

} // verus!
