use vstd::prelude::*;
use crate::model::Student;

verus! {

/// The name occurs among the wished names.
pub open spec fn wishes_name(w: Seq<String>, n: Seq<char>) -> bool {
    exists|j: int| 0 <= j < w.len() && w[j]@ == n
}

/// The first entry at or after `k` of the directory that carries the name.
pub open spec fn first_named(dir: Seq<Student>, n: Seq<char>, k: int) -> Option<int>
    decreases dir.len() - k,
{
    if k < 0 || k >= dir.len() {
        None
    } else if dir[k].name@ == n {
        Some(k)
    } else {
        first_named(dir, n, k + 1)
    }
}

/// The directory entry that a name stands for.
pub open spec fn entry_of(dir: Seq<Student>, n: Seq<char>) -> Option<int> {
    first_named(dir, n, 0)
}

/// Entry `k` wishes for the occupant of a slot.
pub open spec fn likes(dir: Seq<Student>, k: int, other: Option<String>) -> bool {
    other is Some && wishes_name(dir[k].wishes@, other->0@)
}

proof fn lemma_first_named_range(dir: Seq<Student>, n: Seq<char>, k: int)
    requires
        0 <= k,
    ensures
        first_named(dir, n, k) matches Some(e) ==> k <= e < dir.len() && dir[e].name@ == n,
    decreases dir.len() - k,
{
    if k < dir.len() && dir[k].name@ != n {
        lemma_first_named_range(dir, n, k + 1);
    }
}

/// The directory of students, searched by name; the first entry with a name
/// is the one that counts.
pub struct WishIndex {
    pub students: Vec<Student>,
}

impl WishIndex {
    pub open spec fn entries(&self) -> Seq<Student> {
        self.students@
    }

    /// Builds the index over a directory of students.
    pub fn new(students: Vec<Student>) -> (r: WishIndex)
        ensures
            r.entries() == students@,
    {
        WishIndex { students }
    }

    /// The entry that a name stands for.
    pub fn lookup(&self, name: &String) -> (r: Option<usize>)
        ensures
            r matches Some(k) ==> entry_of(self.entries(), name@) == Some(k as int) && k
                < self.entries().len(),
            r is None ==> entry_of(self.entries(), name@) is None,
    {
        proof {
            lemma_first_named_range(self.entries(), name@, 0);
        }
        let n = self.students.len();
        let mut i: usize = 0;
        while i < n
            invariant
                n == self.students@.len(),
                i <= n,
                entry_of(self.entries(), name@) == first_named(self.entries(), name@, i as int),
            decreases n - i,
        {
            if self.students[i].name == *name {
                return Some(i);
            }
            i = i + 1;
        }
        None
    }

    /// Entry `k` wishes for `other`.
    pub fn wishes_for(&self, k: usize, other: &String) -> (r: bool)
        requires
            k < self.entries().len(),
        ensures
            r == wishes_name(self.entries()[k as int].wishes@, other@),
    {
        let w = &self.students[k].wishes;
        let mut j: usize = 0;
        while j < w.len()
            invariant
                w@ == self.entries()[k as int].wishes@,
                j <= w@.len(),
                forall|q: int| 0 <= q < j ==> w@[q]@ != other@,
            decreases w@.len() - j,
        {
            if w[j] == *other {
                return true;
            }
            j = j + 1;
        }
        false
    }

    /// Entry `k` wishes for the occupant of a slot (an empty slot is never
    /// wished for).
    pub fn likes_slot(&self, k: usize, other: &Option<String>) -> (r: bool)
        requires
            k < self.entries().len(),
        ensures
            r == likes(self.entries(), k as int, *other),
    {
        match other {
            Some(o) => self.wishes_for(k, o),
            None => false,
        }
    }
}

} // verus!
