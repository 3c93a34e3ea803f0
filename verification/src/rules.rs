//! The movement rules: where a sand or a water particle goes in one frame,
//! and the bookkeeping that moves it there.

use vstd::prelude::*;
use crate::chance::{Side, TieBreak};
use crate::grid::{Grid, GridView, Pos};
use crate::particle::{Cell, ParticleType};
use crate::tracker::MoveTracker;

verus! {

/// What a frame has done so far: the grid as it stands and the coordinates
/// that particles have moved to, oldest first.
pub struct FrameState {
    pub grid: GridView,
    pub marks: Seq<Pos>,
}

/// A water particle part-way through its sideways slide.
pub struct Slide {
    pub pos: Pos,
    /// Whether the slide has already descended its one allowed row.
    pub dropped: bool,
}

/// Where gravity alone would put the particle at `p`.
pub open spec fn fall_target(grid: GridView, p: Pos) -> Pos {
    Pos { row: p.row + grid.at(p).velocity.y, col: p.col }
}

/// Where the sand particle at `p` goes: straight down if that cell is free,
/// else diagonally to the given side if both the diagonal cell and the cell
/// level with the particle on that side are free and the column is not a
/// wall column, else nowhere.
pub open spec fn sand_target(grid: GridView, p: Pos, side: Side) -> Pos {
    let down = fall_target(grid, p);
    let diagonal = Pos { row: down.row, col: side.beside(p.col) };
    let level = Pos { row: p.row, col: side.beside(p.col) };
    if grid.is_empty_at(down) {
        down
    } else if 1 <= diagonal.col <= grid.width - 2 && grid.is_empty_at(diagonal)
        && grid.is_empty_at(level) {
        diagonal
    } else {
        p
    }
}

/// Where a slide ends that starts at `from` and may still take `steps`
/// single-column steps to the given side. A step is taken only into a free
/// cell on the current row; the first time the cell below the new column is
/// free as well, the particle also descends one row.
pub open spec fn slide_end(grid: GridView, from: Slide, side: Side, steps: nat) -> Slide
    decreases steps,
{
    let level = Pos { row: from.pos.row, col: side.beside(from.pos.col) };
    let below = Pos { row: level.row + 1, col: level.col };
    if steps == 0 || !grid.is_empty_at(level) {
        from
    } else if !from.dropped && grid.is_empty_at(below) {
        slide_end(grid, Slide { pos: below, dropped: true }, side, (steps - 1) as nat)
    } else {
        slide_end(grid, Slide { pos: level, dropped: from.dropped }, side, (steps - 1) as nat)
    }
}

/// Where the water particle at `p` comes to rest when it cannot fall: as far
/// to the given side as its horizontal speed and the free cells allow.
pub open spec fn water_slide_target(grid: GridView, p: Pos, side: Side) -> Pos {
    slide_end(grid, Slide { pos: p, dropped: false }, side, grid.at(p).velocity.x as nat).pos
}

/// Where the water particle at `p` goes: straight down if that cell is free,
/// else to the end of its slide.
pub open spec fn water_target(grid: GridView, p: Pos, side: Side) -> Pos {
    if grid.is_empty_at(fall_target(grid, p)) {
        fall_target(grid, p)
    } else {
        water_slide_target(grid, p, side)
    }
}

impl FrameState {
    /// `p` has been moved to in this frame.
    pub open spec fn resolved(self, p: Pos) -> bool {
        self.marks.contains(p)
    }

    /// The state after the particle at `src` arrives at `dst` as `cell`.
    pub open spec fn arrive(self, src: Pos, dst: Pos, cell: Cell) -> FrameState {
        FrameState { grid: self.grid.relocate(src, dst, cell), marks: self.marks.push(dst) }
    }

    /// The state after the sand rule has been applied at `p`. A particle that
    /// stays where it is leaves no record.
    pub open spec fn after_sand(self, p: Pos, side: Side) -> FrameState {
        let target = sand_target(self.grid, p, side);
        if self.resolved(p) || target == p {
            self
        } else {
            self.arrive(p, target, self.grid.at(p))
        }
    }

    /// The state after the water rule has been applied at `p`. A particle
    /// that falls keeps its speed; one that slides is recorded where it rests,
    /// and slows down if it left its cell.
    pub open spec fn after_water(self, p: Pos, side: Side) -> FrameState {
        let cell = self.grid.at(p);
        let rest = water_slide_target(self.grid, p, side);
        if self.resolved(p) {
            self
        } else if self.grid.is_empty_at(fall_target(self.grid, p)) {
            self.arrive(p, fall_target(self.grid, p), cell)
        } else if rest == p {
            self.arrive(p, p, cell)
        } else {
            self.arrive(p, rest, cell.slowed())
        }
    }

    /// The state after the cell at `p` has had its turn: sand and water follow
    /// their rules, everything else is left alone.
    pub open spec fn after_visit(self, p: Pos, side: Side) -> FrameState {
        match self.grid.at(p).particle_type {
            ParticleType::Sand => self.after_sand(p, side),
            ParticleType::Water => self.after_water(p, side),
            _ => self,
        }
    }
}

/// The row that gravity takes a particle to from `row`, if a `usize` can name it.
fn fall_row(row: usize, speed: u32) -> (down: Option<usize>)
    ensures
        match down {
            Some(r) => r == row + speed,
            None => row + speed > usize::MAX,
        },
{
    row.checked_add(speed as usize)
}

/// Whether the cell that gravity takes the particle at `(row, col)` to is free.
fn can_fall(grid: &Grid, row: usize, col: usize) -> (down: Option<usize>)
    requires
        grid.wf(),
        row < grid@.height,
        col < grid@.width,
    ensures
        match down {
            Some(r) => grid@.is_empty_at(fall_target(grid@, Pos { row: row as int, col: col as int }))
                && r == fall_target(grid@, Pos { row: row as int, col: col as int }).row,
            None => !grid@.is_empty_at(
                fall_target(grid@, Pos { row: row as int, col: col as int }),
            ),
        },
{
    let cell = grid.get(row, col);
    match fall_row(row, cell.velocity.y) {
        Some(r) => {
            assert(Pos { row: r as int, col: col as int } == fall_target(
                grid@,
                Pos { row: row as int, col: col as int },
            ));
            if grid.is_empty_at(r, col) {
                Some(r)
            } else {
                None
            }
        },
        None => {
            proof {
                grid.lemma_view_wf();
            }
            None
        },
    }
}

/// Takes the particle out of `(row, col)`, puts `cell` at `(to_row, to_col)`
/// and records the destination.
fn relocate(
    grid: &mut Grid,
    tracker: &mut MoveTracker,
    row: usize,
    col: usize,
    to_row: usize,
    to_col: usize,
    cell: Cell,
)
    requires
        old(grid).wf(),
        row < old(grid)@.height,
        col < old(grid)@.width,
        to_row < old(grid)@.height,
        to_col < old(grid)@.width,
    ensures
        final(grid).wf(),
        (FrameState { grid: final(grid)@, marks: final(tracker)@ }) == (FrameState {
            grid: old(grid)@,
            marks: old(tracker)@,
        }).arrive(
            Pos { row: row as int, col: col as int },
            Pos { row: to_row as int, col: to_col as int },
            cell,
        ),
{
    grid.set(row, col, Cell::empty());
    grid.set(to_row, to_col, cell);
    tracker.mark(to_row, to_col);
}

/// Applies the sand rule to the particle at `(row, col)`: nothing happens if
/// the coordinate was already moved to in this frame; otherwise the particle
/// falls, or goes diagonally to the side the tie-break picks, or stays.
pub fn move_sand(
    grid: &mut Grid,
    tracker: &mut MoveTracker,
    row: usize,
    col: usize,
    tie: TieBreak,
)
    requires
        old(grid).wf(),
        row < old(grid)@.height,
        col < old(grid)@.width,
        old(grid)@.at(Pos { row: row as int, col: col as int }).particle_type is Sand,
    ensures
        final(grid).wf(),
        exists|side: Side|
            tie.allows(side) && (FrameState { grid: final(grid)@, marks: final(tracker)@ })
                == (FrameState { grid: old(grid)@, marks: old(tracker)@ }).after_sand(
                Pos { row: row as int, col: col as int },
                side,
            ),
{
    let ghost before = FrameState { grid: grid@, marks: tracker@ };
    let ghost here = Pos { row: row as int, col: col as int };
    proof {
        grid.lemma_view_wf();
    }
    if tracker.is_marked(row, col) {
        assert(tie.allows(tie.example()) && before == before.after_sand(here, tie.example()));
        return ;
    }
    let cell = grid.get(row, col);
    match can_fall(grid, row, col) {
        Some(down) => {
            relocate(grid, tracker, row, col, down, col, cell);
            assert(tie.allows(tie.example()) && (FrameState { grid: grid@, marks: tracker@ })
                == before.after_sand(here, tie.example()));
        },
        None => {
            let side = tie.pick();
            let width = grid.width();
            match (fall_row(row, cell.velocity.y), side.step(col)) {
                (Some(down), Some(beside)) => {
                    assert(Pos { row: down as int, col: beside as int } == Pos {
                        row: fall_target(before.grid, here).row,
                        col: side.beside(here.col),
                    });
                    assert(Pos { row: row as int, col: beside as int } == Pos {
                        row: here.row,
                        col: side.beside(here.col),
                    });
                    if 1 <= beside && beside < width - 1 && grid.is_empty_at(down, beside)
                        && grid.is_empty_at(row, beside) {
                        relocate(grid, tracker, row, col, down, beside, cell);
                    }
                },
                _ => {},
            }
            assert(tie.allows(side) && (FrameState { grid: grid@, marks: tracker@ })
                == before.after_sand(here, side));
        },
    }
}

/// Applies the water rule to the particle at `(row, col)`: nothing happens
/// if the coordinate was already moved to in this frame; otherwise the
/// particle falls, or slides to the side the tie-break picks for as many
/// columns as its horizontal speed and the free cells allow, descending at
/// most one row on the way. A particle that slid away from its cell slows down.
pub fn move_water(
    grid: &mut Grid,
    tracker: &mut MoveTracker,
    row: usize,
    col: usize,
    tie: TieBreak,
)
    requires
        old(grid).wf(),
        row < old(grid)@.height,
        col < old(grid)@.width,
        old(grid)@.at(Pos { row: row as int, col: col as int }).particle_type is Water,
    ensures
        final(grid).wf(),
        exists|side: Side|
            tie.allows(side) && (FrameState { grid: final(grid)@, marks: final(tracker)@ })
                == (FrameState { grid: old(grid)@, marks: old(tracker)@ }).after_water(
                Pos { row: row as int, col: col as int },
                side,
            ),
{
    let ghost before = FrameState { grid: grid@, marks: tracker@ };
    let ghost here = Pos { row: row as int, col: col as int };
    proof {
        grid.lemma_view_wf();
    }
    if tracker.is_marked(row, col) {
        assert(tie.allows(tie.example()) && before == before.after_water(here, tie.example()));
        return ;
    }
    let cell = grid.get(row, col);
    match can_fall(grid, row, col) {
        Some(down) => {
            relocate(grid, tracker, row, col, down, col, cell);
            assert(tie.allows(tie.example()) && (FrameState { grid: grid@, marks: tracker@ })
                == before.after_water(here, tie.example()));
        },
        None => {
            let side = tie.pick();
            let (rest_row, rest_col) = slide(grid, row, col, side, cell.velocity.x);
            if rest_row != row || rest_col != col {
                relocate(grid, tracker, row, col, rest_row, rest_col, cell.slow_down());
            } else {
                relocate(grid, tracker, row, col, row, col, cell);
            }
            assert(tie.allows(side) && (FrameState { grid: grid@, marks: tracker@ })
                == before.after_water(here, side));
        },
    }
}

/// Slides from `(row, col)` to the given side for at most `speed` columns and
/// returns where the slide ends.
fn slide(grid: &Grid, row: usize, col: usize, side: Side, speed: u32) -> (rest: (usize, usize))
    requires
        grid.wf(),
        row < grid@.height,
        col < grid@.width,
    ensures
        rest.0 < grid@.height,
        rest.1 < grid@.width,
        (Pos { row: rest.0 as int, col: rest.1 as int }) == slide_end(
            grid@,
            Slide { pos: Pos { row: row as int, col: col as int }, dropped: false },
            side,
            speed as nat,
        ).pos,
{
    let ghost start = Slide { pos: Pos { row: row as int, col: col as int }, dropped: false };
    let mut r: usize = row;
    let mut c: usize = col;
    let mut dropped: bool = false;
    let mut blocked: bool = false;
    let mut taken: u32 = 0;
    proof {
        grid.lemma_view_wf();
    }
    while taken < speed && !blocked
        invariant
            grid.wf(),
            grid@.wf(),
            grid@.height <= usize::MAX,
            grid@.width <= usize::MAX,
            taken <= speed,
            r < grid@.height,
            c < grid@.width,
            slide_end(
                grid@,
                Slide { pos: Pos { row: r as int, col: c as int }, dropped },
                side,
                (speed - taken) as nat,
            ) == slide_end(grid@, start, side, speed as nat),
            blocked ==> slide_end(
                grid@,
                Slide { pos: Pos { row: r as int, col: c as int }, dropped },
                side,
                (speed - taken) as nat,
            ) == (Slide { pos: Pos { row: r as int, col: c as int }, dropped }),
        decreases (speed - taken) + (if blocked { 0int } else { 1int }),
    {
        let ghost from = Slide { pos: Pos { row: r as int, col: c as int }, dropped };
        let ghost level = Pos { row: r as int, col: side.beside(c as int) };
        match side.step(c) {
            Some(beside) => {
                assert(level == Pos { row: r as int, col: beside as int });
                if grid.is_empty_at(r, beside) {
                    c = beside;
                    assert(Pos { row: level.row + 1, col: level.col } == Pos {
                        row: (r + 1) as int,
                        col: beside as int,
                    });
                    if !dropped && grid.is_empty_at(r + 1, beside) {
                        r = r + 1;
                        dropped = true;
                    }
                    taken = taken + 1;
                } else {
                    blocked = true;
                }
            },
            None => {
                blocked = true;
            },
        }
    }
    (r, c)
}

/// Gives the cell at `(row, col)` its turn: sand and water follow their
/// rules, every other kind is left untouched.
pub fn move_particle(
    grid: &mut Grid,
    tracker: &mut MoveTracker,
    row: usize,
    col: usize,
    tie: TieBreak,
)
    requires
        old(grid).wf(),
        row < old(grid)@.height,
        col < old(grid)@.width,
    ensures
        final(grid).wf(),
        exists|side: Side|
            tie.allows(side) && (FrameState { grid: final(grid)@, marks: final(tracker)@ })
                == (FrameState { grid: old(grid)@, marks: old(tracker)@ }).after_visit(
                Pos { row: row as int, col: col as int },
                side,
            ),
{
    let ghost before = FrameState { grid: grid@, marks: tracker@ };
    let ghost here = Pos { row: row as int, col: col as int };
    match grid.get(row, col).particle_type {
        ParticleType::Sand => {
            move_sand(grid, tracker, row, col, tie);
        },
        ParticleType::Water => {
            move_water(grid, tracker, row, col, tie);
        },
        _ => {
            assert(tie.allows(tie.example()) && before == before.after_visit(here, tie.example()));
        },
    }
}

} // verus!
