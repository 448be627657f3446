use vstd::prelude::*;

verus! {

/// A student as the scoring core sees it: a name and the names wished for.
pub struct Student {
    pub name: String,
    pub wishes: Vec<String>,
}

/// One table: two indexed rows and two singleton bonus slots.
pub struct Table {
    pub top: Vec<Option<String>>,
    pub bottom: Vec<Option<String>>,
    pub bonus_left: Option<String>,
    pub bonus_right: Option<String>,
}

/// The full assignment of students to seats.
pub struct SeatingArrangement {
    pub tables: Vec<Table>,
}

/// A seat address as the host supplies it: a section tag ("top", "bottom",
/// "bonus_left", "bonus_right") and an index for the two rows.
pub struct Coordinate {
    pub table: usize,
    pub section: String,
    pub index: Option<usize>,
}

/// A seat address in tagged form: the table first, then the row index.
#[derive(Clone, Copy, Debug, PartialEq, Eq, Structural)]
pub enum Seat {
    Top(usize, usize),
    Bottom(usize, usize),
    BonusLeft(usize),
    BonusRight(usize),
}

/// Mathematical view of a table.
pub ghost struct TableView {
    pub top: Seq<Option<String>>,
    pub bottom: Seq<Option<String>>,
    pub bonus_left: Option<String>,
    pub bonus_right: Option<String>,
}

impl View for Table {
    type V = TableView;

    open spec fn view(&self) -> TableView {
        TableView {
            top: self.top@,
            bottom: self.bottom@,
            bonus_left: self.bonus_left,
            bonus_right: self.bonus_right,
        }
    }
}

impl View for SeatingArrangement {
    type V = Seq<TableView>;

    open spec fn view(&self) -> Seq<TableView> {
        self.tables@.map_values(|t: Table| t@)
    }
}

impl Seat {
    pub open spec fn table_of(self) -> nat {
        match self {
            Seat::Top(t, _) => t as nat,
            Seat::Bottom(t, _) => t as nat,
            Seat::BonusLeft(t) => t as nat,
            Seat::BonusRight(t) => t as nat,
        }
    }

    /// The table that holds this seat.
    pub fn table(&self) -> (r: usize)
        ensures
            r == self.table_of(),
    {
        match self {
            Seat::Top(t, _) => *t,
            Seat::Bottom(t, _) => *t,
            Seat::BonusLeft(t) => *t,
            Seat::BonusRight(t) => *t,
        }
    }
}

/// The seat exists in the arrangement: its table exists and a row index lies
/// within that row.
pub open spec fn seat_valid(a: Seq<TableView>, s: Seat) -> bool {
    &&& s.table_of() < a.len()
    &&& match s {
        Seat::Top(t, i) => i < a[t as int].top.len(),
        Seat::Bottom(t, i) => i < a[t as int].bottom.len(),
        _ => true,
    }
}

/// The occupant of a seat within one table.
pub open spec fn table_seat(t: TableView, s: Seat) -> Option<String> {
    match s {
        Seat::Top(_, i) => t.top[i as int],
        Seat::Bottom(_, i) => t.bottom[i as int],
        Seat::BonusLeft(_) => t.bonus_left,
        Seat::BonusRight(_) => t.bonus_right,
    }
}

/// A table with the content of one of its seats replaced.
pub open spec fn table_with(t: TableView, s: Seat, v: Option<String>) -> TableView {
    match s {
        Seat::Top(_, i) => TableView { top: t.top.update(i as int, v), ..t },
        Seat::Bottom(_, i) => TableView { bottom: t.bottom.update(i as int, v), ..t },
        Seat::BonusLeft(_) => TableView { bonus_left: v, ..t },
        Seat::BonusRight(_) => TableView { bonus_right: v, ..t },
    }
}

/// The occupant of a seat of the arrangement.
pub open spec fn occupant(a: Seq<TableView>, s: Seat) -> Option<String> {
    table_seat(a[s.table_of() as int], s)
}

/// The arrangement with the content of one seat replaced.
pub open spec fn with_occupant(a: Seq<TableView>, s: Seat, v: Option<String>) -> Seq<TableView> {
    a.update(s.table_of() as int, table_with(a[s.table_of() as int], s, v))
}

/// The arrangement after exchanging the contents of two seats.
pub open spec fn swapped(a: Seq<TableView>, s1: Seat, s2: Seat) -> Seq<TableView> {
    with_occupant(with_occupant(a, s1, occupant(a, s2)), s2, occupant(a, s1))
}

/// Two arrangements with the same tables and the same row lengths.
pub open spec fn same_shape(a: Seq<TableView>, b: Seq<TableView>) -> bool {
    &&& a.len() == b.len()
    &&& forall|t: int|
        0 <= t < a.len() ==> #[trigger] a[t].top.len() == b[t].top.len() && a[t].bottom.len()
            == b[t].bottom.len()
}

/// Writing back what a seat holds changes nothing.
pub proof fn lemma_write_same(a: Seq<TableView>, s: Seat)
    requires
        seat_valid(a, s),
    ensures
        with_occupant(a, s, occupant(a, s)) == a,
{
    let t = s.table_of() as int;
    let tv = table_with(a[t], s, occupant(a, s));
    assert(tv.top =~= a[t].top);
    assert(tv.bottom =~= a[t].bottom);
    assert(with_occupant(a, s, occupant(a, s)) =~= a);
}

/// Reading a seat after a write, and the shape that the write keeps.
pub proof fn lemma_read_after_write(a: Seq<TableView>, s: Seat, v: Option<String>, s2: Seat)
    requires
        seat_valid(a, s),
        seat_valid(a, s2),
    ensures
        seat_valid(with_occupant(a, s, v), s2),
        same_shape(a, with_occupant(a, s, v)),
        occupant(with_occupant(a, s, v), s2) == if s == s2 {
            v
        } else {
            occupant(a, s2)
        },
{
}

/// A second write to the same seat overrides the first.
pub proof fn lemma_write_write(a: Seq<TableView>, s: Seat, v: Option<String>, w: Option<String>)
    requires
        seat_valid(a, s),
    ensures
        with_occupant(with_occupant(a, s, v), s, w) == with_occupant(a, s, w),
{
    let t = s.table_of() as int;
    let x = with_occupant(with_occupant(a, s, v), s, w);
    let y = with_occupant(a, s, w);
    assert(x[t].top =~= y[t].top);
    assert(x[t].bottom =~= y[t].bottom);
    assert(x =~= y);
}

/// Writes to two different seats commute.
pub proof fn lemma_write_commute(
    a: Seq<TableView>,
    s1: Seat,
    v1: Option<String>,
    s2: Seat,
    v2: Option<String>,
)
    requires
        seat_valid(a, s1),
        seat_valid(a, s2),
        s1 != s2,
    ensures
        with_occupant(with_occupant(a, s1, v1), s2, v2) == with_occupant(
            with_occupant(a, s2, v2),
            s1,
            v1,
        ),
{
    let x = with_occupant(with_occupant(a, s1, v1), s2, v2);
    let y = with_occupant(with_occupant(a, s2, v2), s1, v1);
    assert forall|t: int| 0 <= t < a.len() implies x[t] == y[t] by {
        assert(x[t].top =~= y[t].top);
        assert(x[t].bottom =~= y[t].bottom);
    }
    assert(x =~= y);
}

/// The tagged seat that a coordinate names: the section tag is one of the
/// four, and an index is present exactly for the two rows.
pub open spec fn coordinate_seat(c: Coordinate) -> Option<Seat> {
    if c.section@ == "top"@ && c.index is Some {
        Some(Seat::Top(c.table, c.index->0))
    } else if c.section@ == "bottom"@ && c.index is Some {
        Some(Seat::Bottom(c.table, c.index->0))
    } else if c.section@ == "bonus_left"@ && c.index is None {
        Some(Seat::BonusLeft(c.table))
    } else if c.section@ == "bonus_right"@ && c.index is None {
        Some(Seat::BonusRight(c.table))
    } else {
        None
    }
}

impl Coordinate {
    /// The tagged seat that this coordinate names, if it is well formed.
    pub fn to_seat(&self) -> (r: Option<Seat>)
        ensures
            r == coordinate_seat(*self),
    {
        let top = "top".to_owned();
        let bottom = "bottom".to_owned();
        let left = "bonus_left".to_owned();
        let right = "bonus_right".to_owned();
        if self.section == top && self.index.is_some() {
            Some(Seat::Top(self.table, self.index.unwrap()))
        } else if self.section == bottom && self.index.is_some() {
            Some(Seat::Bottom(self.table, self.index.unwrap()))
        } else if self.section == left && self.index.is_none() {
            Some(Seat::BonusLeft(self.table))
        } else if self.section == right && self.index.is_none() {
            Some(Seat::BonusRight(self.table))
        } else {
            None
        }
    }
}

/// A seat valid in one arrangement is valid in any of the same shape.
pub proof fn lemma_shape_valid(a: Seq<TableView>, b: Seq<TableView>, s: Seat)
    requires
        same_shape(a, b),
        seat_valid(a, s),
    ensures
        seat_valid(b, s),
{
    let t = s.table_of() as int;
    assert(a[t].top.len() == b[t].top.len());
}

fn copy_slot(o: &Option<String>) -> (r: Option<String>)
    ensures
        r == *o,
{
    match o {
        Some(n) => Some(n.clone()),
        None => None,
    }
}

fn copy_row(row: &Vec<Option<String>>) -> (r: Vec<Option<String>>)
    ensures
        r@ == row@,
{
    let mut out: Vec<Option<String>> = Vec::with_capacity(row.len());
    let mut i: usize = 0;
    while i < row.len()
        invariant
            i <= row@.len(),
            out@ == row@.subrange(0, i as int),
        decreases row@.len() - i,
    {
        out.push(copy_slot(&row[i]));
        i = i + 1;
        assert(out@ =~= row@.subrange(0, i as int));
    }
    assert(out@ =~= row@);
    out
}

impl Table {
    /// A copy of the table with the same occupants.
    pub fn snapshot(&self) -> (r: Table)
        ensures
            r@ == self@,
    {
        Table {
            top: copy_row(&self.top),
            bottom: copy_row(&self.bottom),
            bonus_left: copy_slot(&self.bonus_left),
            bonus_right: copy_slot(&self.bonus_right),
        }
    }
}

impl SeatingArrangement {
    /// A copy of the arrangement with the same occupants.
    pub fn snapshot(&self) -> (r: SeatingArrangement)
        ensures
            r@ == self@,
    {
        let mut tables: Vec<Table> = Vec::with_capacity(self.tables.len());
        let mut t: usize = 0;
        while t < self.tables.len()
            invariant
                t <= self@.len(),
                tables@.len() == t,
                forall|j: int| 0 <= j < t ==> #[trigger] tables@[j]@ == self@[j],
            decreases self@.len() - t,
        {
            tables.push(self.tables[t].snapshot());
            t = t + 1;
        }
        let r = SeatingArrangement { tables };
        assert(r@ =~= self@);
        r
    }
}

} // verus!
