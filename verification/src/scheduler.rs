//! The update scheduler: one frame is one scan of the whole grid, top row to
//! bottom row and left to right, in which every cell gets one turn.

use vstd::prelude::*;
use crate::chance::{Side, TieBreak};
use crate::grid::{Grid, GridView, Pos};
use crate::laws::{
    frame_sources, lemma_frame_conserves, lemma_frame_keeps_walls, lemma_frame_marks,
    lemma_frame_traces, traces,
};
use crate::particle::ParticleType;
use crate::rules::{move_particle, FrameState};
use crate::tracker::MoveTracker;

verus! {

/// The state of a frame that began in `start` once every cell that comes
/// before `(row, col)` in scan order has had its turn; `choice` gives the
/// side that the tie-break picked at each coordinate.
pub open spec fn scanned(
    start: FrameState,
    choice: spec_fn(Pos) -> Side,
    row: nat,
    col: nat,
) -> FrameState
    decreases row, col,
{
    if col > 0 {
        let turn = Pos { row: row as int, col: col - 1 };
        scanned(start, choice, row, (col - 1) as nat).after_visit(turn, choice(turn))
    } else if row > 0 {
        scanned(start, choice, (row - 1) as nat, start.grid.width as nat)
    } else {
        start
    }
}

/// The state at the end of a frame that began with `grid` and an empty record.
pub open spec fn frame(grid: GridView, choice: spec_fn(Pos) -> Side) -> FrameState {
    scanned(FrameState { grid, marks: Seq::empty() }, choice, grid.height as nat, 0)
}

/// `p` comes before `(row, col)` in scan order.
pub open spec fn comes_before(p: Pos, row: nat, col: nat) -> bool {
    p.row < row || (p.row == row && p.col < col)
}

/// A partial scan depends only on the sides chosen at the cells it has visited.
pub proof fn lemma_scanned_ignores_later(
    start: FrameState,
    first: spec_fn(Pos) -> Side,
    second: spec_fn(Pos) -> Side,
    row: nat,
    col: nat,
)
    requires
        forall|p: Pos| comes_before(p, row, col) ==> #[trigger] first(p) == second(p),
    ensures
        scanned(start, first, row, col) == scanned(start, second, row, col),
    decreases row, col,
{
    if col > 0 {
        lemma_scanned_ignores_later(start, first, second, row, (col - 1) as nat);
        assert(comes_before(Pos { row: row as int, col: col - 1 }, row, col));
    } else if row > 0 {
        lemma_scanned_ignores_later(
            start,
            first,
            second,
            (row - 1) as nat,
            start.grid.width as nat,
        );
    }
}

/// A turn leaves the dimensions of the grid as they were.
pub proof fn lemma_visit_keeps_dimensions(state: FrameState, p: Pos, side: Side)
    ensures
        state.after_visit(p, side).grid.width == state.grid.width,
        state.after_visit(p, side).grid.height == state.grid.height,
{
}

/// Advances the grid by one frame: clears the tracker, then gives every cell
/// its turn, rows from the top down and columns from the left. The result is
/// the frame that some choice of sides allowed by the tie-break produces.
///
/// Whatever sides were picked: the frame keeps its trace, so that no particle
/// rises or moves twice and no cell is moved to twice; the amount of matter
/// is what it was; the record is no longer than the number of mobile
/// particles; and no wall cell is altered.
pub fn step(grid: &mut Grid, tracker: &mut MoveTracker, tie: TieBreak)
    requires
        old(grid).wf(),
    ensures
        final(grid).wf(),
        exists|choice: spec_fn(Pos) -> Side|
            (forall|p: Pos| tie.allows(#[trigger] choice(p))) && (FrameState {
                grid: final(grid)@,
                marks: final(tracker)@,
            }) == frame(old(grid)@, choice),
        exists|sources: Seq<Pos>|
            traces(
                old(grid)@,
                FrameState { grid: final(grid)@, marks: final(tracker)@ },
                sources,
            ),
        final(grid)@.matter_count() == old(grid)@.matter_count(),
        final(tracker)@.no_duplicates(),
        final(tracker)@.len() <= old(grid)@.mobile_count(),
        forall|p: Pos|
            #![trigger final(grid)@.at(p)]
            old(grid)@.contains(p) && old(grid)@.at(p).particle_type is Boundary
                ==> final(grid)@.at(p) == old(grid)@.at(p),
{
    tracker.clear();
    let height = grid.height();
    let width = grid.width();
    let ghost start = FrameState { grid: grid@, marks: Seq::empty() };
    let ghost mut choice: spec_fn(Pos) -> Side = |p: Pos| tie.example();
    let mut row: usize = 0;
    while row < height
        invariant
            grid.wf(),
            row <= height,
            grid@.width == width == start.grid.width,
            grid@.height == height == start.grid.height,
            forall|p: Pos| tie.allows(#[trigger] choice(p)),
            (FrameState { grid: grid@, marks: tracker@ }) == scanned(start, choice, row as nat, 0),
        decreases height - row,
    {
        let mut col: usize = 0;
        while col < width
            invariant
                grid.wf(),
                row < height,
                col <= width,
                grid@.width == width == start.grid.width,
                grid@.height == height == start.grid.height,
                forall|p: Pos| tie.allows(#[trigger] choice(p)),
                (FrameState { grid: grid@, marks: tracker@ }) == scanned(
                    start,
                    choice,
                    row as nat,
                    col as nat,
                ),
            decreases width - col,
        {
            let ghost before = FrameState { grid: grid@, marks: tracker@ };
            let ghost here = Pos { row: row as int, col: col as int };
            let ghost earlier = choice;
            move_particle(grid, tracker, row, col, tie);
            proof {
                let after = FrameState { grid: grid@, marks: tracker@ };
                let side = choose|side: Side|
                    tie.allows(side) && after == before.after_visit(here, side);
                choice =
                |p: Pos|
                    if p == here {
                        side
                    } else {
                        earlier(p)
                    };
                lemma_scanned_ignores_later(start, earlier, choice, row as nat, col as nat);
                lemma_visit_keeps_dimensions(before, here, side);
                assert(choice(here) == side);
            }
            col += 1;
        }
        row += 1;
    }
    proof {
        let origin = old(grid)@;
        let end = FrameState { grid: grid@, marks: tracker@ };
        assert((forall|p: Pos| tie.allows(#[trigger] choice(p))) && end == frame(origin, choice));
        old(grid).lemma_view_wf();
        lemma_frame_traces(origin, choice);
        assert(traces(origin, end, frame_sources(origin, choice)));
        lemma_frame_conserves(origin, choice, |kind: ParticleType| kind.matter());
        lemma_frame_marks(origin, choice);
        lemma_frame_keeps_walls(origin, choice);
    }
}

} // verus!
