//! The per-frame record of coordinates that a particle has already moved to.

use vstd::prelude::*;
use crate::grid::Pos;

verus! {

/// The coordinates resolved so far in the current frame, oldest first.
pub struct MoveTracker {
    marks: Vec<(usize, usize)>,
}

impl View for MoveTracker {
    type V = Seq<Pos>;

    closed spec fn view(&self) -> Seq<Pos> {
        Seq::new(
            self.marks@.len(),
            |i: int| Pos { row: self.marks@[i].0 as int, col: self.marks@[i].1 as int },
        )
    }
}

impl MoveTracker {
    /// A tracker with nothing recorded.
    pub fn new() -> (tracker: MoveTracker)
        ensures
            tracker@ == Seq::<Pos>::empty(),
    {
        let tracker = MoveTracker { marks: Vec::new() };
        assert(tracker@ =~= Seq::<Pos>::empty());
        tracker
    }

    /// Forgets every recorded coordinate.
    pub fn clear(&mut self)
        ensures
            final(self)@ == Seq::<Pos>::empty(),
    {
        self.marks.clear();
        assert(self@ =~= Seq::<Pos>::empty());
    }

    /// Records `(row, col)` as resolved.
    pub fn mark(&mut self, row: usize, col: usize)
        ensures
            final(self)@ == old(self)@.push(Pos { row: row as int, col: col as int }),
    {
        self.marks.push((row, col));
        assert(self@ =~= old(self)@.push(Pos { row: row as int, col: col as int }));
    }

    /// Whether `(row, col)` has been recorded.
    pub fn is_marked(&self, row: usize, col: usize) -> (found: bool)
        ensures
            found == self@.contains(Pos { row: row as int, col: col as int }),
    {
        let ghost target = Pos { row: row as int, col: col as int };
        let mut i: usize = 0;
        while i < self.marks.len()
            invariant
                i <= self.marks@.len(),
                target == (Pos { row: row as int, col: col as int }),
                forall|k: int| 0 <= k < i ==> self@[k] != target,
            decreases self.marks@.len() - i,
        {
            let entry = self.marks[i];
            if entry.0 == row && entry.1 == col {
                assert(self@[i as int] == target);
                return true;
            }
            i += 1;
        }
        false
    }

    /// How many coordinates have been recorded.
    pub fn len(&self) -> (n: usize)
        ensures
            n == self@.len(),
    {
        self.marks.len()
    }

    /// The `index`-th recorded coordinate as `(row, col)`.
    pub fn mark_at(&self, index: usize) -> (entry: (usize, usize))
        requires
            index < self@.len(),
        ensures
            self@[index as int] == (Pos { row: entry.0 as int, col: entry.1 as int }),
    {
        self.marks[index]
    }
}

} // verus!
