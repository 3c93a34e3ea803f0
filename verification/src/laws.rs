//! What holds of the movement rules and of a whole frame, whatever sides
//! the tie-break picks.

use vstd::prelude::*;
use crate::census::{lemma_positions_finite, lemma_relocate_keeps_counts};
use crate::chance::Side;
use crate::grid::{lemma_relocate_wf, GridView, Pos};
use crate::particle::{decayed_speed, Cell, ParticleType, SPEED_FLOOR};
use crate::rules::{
    fall_target, sand_target, slide_end, water_slide_target, water_target, FrameState, Slide,
};
use crate::scheduler::{frame, scanned};

verus! {

/// A sand particle never rises and only enters a free cell: its target is its
/// own cell, or a free cell no higher than it and at most one column away.
pub proof fn lemma_sand_target(grid: GridView, p: Pos, side: Side)
    ensures
        sand_target(grid, p, side) == p || grid.is_empty_at(sand_target(grid, p, side)),
        sand_target(grid, p, side).row >= p.row,
        p.col - 1 <= sand_target(grid, p, side).col <= p.col + 1,
{
}

/// A slide ends on its starting cell or on a free one, never rises, descends
/// at most the one row it is allowed, travels no further than its steps to
/// the chosen side, and has moved exactly when its column has changed.
pub proof fn lemma_slide_end(grid: GridView, from: Slide, side: Side, steps: nat)
    ensures
        slide_end(grid, from, side, steps).pos == from.pos || grid.is_empty_at(
            slide_end(grid, from, side, steps).pos,
        ),
        from.pos.row <= slide_end(grid, from, side, steps).pos.row,
        slide_end(grid, from, side, steps).pos.row <= from.pos.row + (if from.dropped {
            0int
        } else {
            1int
        }),
        side is Right ==> from.pos.col <= slide_end(grid, from, side, steps).pos.col
            <= from.pos.col + steps,
        side is Left ==> from.pos.col - steps <= slide_end(grid, from, side, steps).pos.col
            <= from.pos.col,
        slide_end(grid, from, side, steps).pos == from.pos <==> slide_end(
            grid,
            from,
            side,
            steps,
        ).pos.col == from.pos.col,
    decreases steps,
{
    let level = Pos { row: from.pos.row, col: side.beside(from.pos.col) };
    let below = Pos { row: level.row + 1, col: level.col };
    if steps == 0 || !grid.is_empty_at(level) {
    } else if !from.dropped && grid.is_empty_at(below) {
        lemma_slide_end(grid, Slide { pos: below, dropped: true }, side, (steps - 1) as nat);
    } else {
        lemma_slide_end(
            grid,
            Slide { pos: level, dropped: from.dropped },
            side,
            (steps - 1) as nat,
        );
    }
}

/// A water particle never rises and only enters a free cell; when it slides
/// it descends at most one row and travels at most as many columns as its
/// horizontal speed.
pub proof fn lemma_water_target(grid: GridView, p: Pos, side: Side)
    ensures
        water_target(grid, p, side) == p || grid.is_empty_at(water_target(grid, p, side)),
        water_target(grid, p, side).row >= p.row,
        water_slide_target(grid, p, side) == p || grid.is_empty_at(
            water_slide_target(grid, p, side),
        ),
        p.row <= water_slide_target(grid, p, side).row <= p.row + 1,
        p.col - grid.at(p).velocity.x <= water_slide_target(grid, p, side).col <= p.col
            + grid.at(p).velocity.x,
        side is Right ==> water_slide_target(grid, p, side).col >= p.col,
        side is Left ==> water_slide_target(grid, p, side).col <= p.col,
        water_slide_target(grid, p, side) == p <==> water_slide_target(grid, p, side).col
            == p.col,
{
    lemma_slide_end(grid, Slide { pos: p, dropped: false }, side, grid.at(p).velocity.x as nat);
}

/// The speed decay lowers any speed above the floor by exactly one, leaves
/// the others alone, and never takes a speed from the floor or above to
/// below the floor.
pub proof fn lemma_decay_floor(speed: u32)
    ensures
        speed > SPEED_FLOOR ==> decayed_speed(speed) == speed - 1,
        speed <= SPEED_FLOOR ==> decayed_speed(speed) == speed,
        speed >= SPEED_FLOOR ==> decayed_speed(speed) >= SPEED_FLOOR,
{
}

/// The speed after `moves` sideways moves in a row.
pub open spec fn speed_after(speed: u32, moves: nat) -> u32
    decreases moves,
{
    if moves == 0 {
        speed
    } else {
        decayed_speed(speed_after(speed, (moves - 1) as nat))
    }
}

/// Over repeated sideways moves a speed above the floor drops by one per
/// move until it reaches the floor, and stays there.
pub proof fn lemma_speed_settles(speed: u32, moves: nat)
    requires
        speed >= SPEED_FLOOR,
    ensures
        speed_after(speed, moves) == (if speed - moves >= SPEED_FLOOR {
            speed - moves
        } else {
            SPEED_FLOOR as int
        }),
        speed_after(speed, moves) > SPEED_FLOOR ==> speed_after(speed, moves + 1) < speed_after(
            speed,
            moves,
        ),
        speed_after(speed, moves) == SPEED_FLOOR ==> speed_after(speed, moves + 1)
            == SPEED_FLOOR,
    decreases moves,
{
    if moves > 0 {
        lemma_speed_settles(speed, (moves - 1) as nat);
    }
    assert(speed_after(speed, moves + 1) == decayed_speed(speed_after(speed, moves)));
}

/// A water particle that slides away from its cell arrives with its speed
/// decayed; one that falls, or stays, keeps its speed.
pub proof fn lemma_water_speed(state: FrameState, p: Pos, side: Side)
    requires
        state.grid.wf(),
        state.grid.contains(p),
        state.grid.at(p).particle_type is Water,
        !state.resolved(p),
    ensures
        ({
            let target = water_target(state.grid, p, side);
            let arrived = state.after_water(p, side).grid.at(target);
            let speed = state.grid.at(p).velocity.x;
            &&& arrived.particle_type is Water
            &&& arrived.velocity.y == state.grid.at(p).velocity.y
            &&& target.col != p.col ==> arrived.velocity.x == decayed_speed(speed)
            &&& target.col == p.col ==> arrived.velocity.x == speed
        }),
{
    lemma_water_target(state.grid, p, side);
}

/// The particle that stood at `from` when the frame began now stands at
/// `to`: the same kind with the same fall speed, unchanged or slowed by one
/// sideways move, and no higher than it was.
pub open spec fn carried(origin: GridView, now: GridView, from: Pos, to: Pos) -> bool {
    &&& origin.contains(from)
    &&& now.contains(to)
    &&& origin.at(from).particle_type.mobile()
    &&& now.at(to) == origin.at(from) || now.at(to) == origin.at(from).slowed()
    &&& from.row <= to.row
}

/// `state` is what a frame that began with the grid `origin` has come to,
/// and `sources` names, record by record, the cell that each recorded
/// particle came from: no particle is recorded twice, no cell is moved to
/// twice, every recorded particle stands where its record says, every
/// vacated cell that nothing has moved to is empty, every other cell is as it
/// was, and every cell moved to was empty or vacated.
pub open spec fn traces(origin: GridView, state: FrameState, sources: Seq<Pos>) -> bool {
    &&& state.grid.wf()
    &&& state.grid.width == origin.width
    &&& state.grid.height == origin.height
    &&& sources.len() == state.marks.len()
    &&& sources.no_duplicates()
    &&& state.marks.no_duplicates()
    &&& forall|i: int|
        #![trigger sources[i]]
        #![trigger state.marks[i]]
        0 <= i < sources.len() ==> carried(origin, state.grid, sources[i], state.marks[i])
    &&& forall|p: Pos|
        #![trigger state.grid.at(p)]
        origin.contains(p) && !sources.contains(p) && !state.marks.contains(p) ==> state.grid.at(
            p,
        ) == origin.at(p)
    &&& forall|p: Pos|
        #![trigger state.grid.at(p)]
        sources.contains(p) && !state.marks.contains(p) ==> state.grid.at(p) == Cell::empty()
    &&& forall|i: int|
        #![trigger state.marks[i]]
        0 <= i < state.marks.len() ==> origin.at(state.marks[i]).particle_type is Empty
            || sources.contains(state.marks[i])
}

/// The sources after the cell at `p` has had its turn: `p` joins them if the
/// turn left a record.
pub open spec fn sources_after(state: FrameState, sources: Seq<Pos>, p: Pos, side: Side) -> Seq<
    Pos,
> {
    if state.after_visit(p, side).marks.len() > state.marks.len() {
        sources.push(p)
    } else {
        sources
    }
}

proof fn lemma_push_contains(s: Seq<Pos>, last: Pos, p: Pos)
    ensures
        s.push(last).contains(p) <==> s.contains(p) || p == last,
{
    if s.contains(p) {
        let i = choose|i: int| 0 <= i < s.len() && s[i] == p;
        assert(s.push(last)[i] == p);
    }
    if p == last {
        assert(s.push(last)[s.len() as int] == p);
    }
}

proof fn lemma_push_no_duplicates(s: Seq<Pos>, last: Pos)
    requires
        s.no_duplicates(),
        !s.contains(last),
    ensures
        s.push(last).no_duplicates(),
{
}

/// Recording the arrival of a particle that has not moved yet keeps the trace.
proof fn lemma_arrival_traces(
    origin: GridView,
    state: FrameState,
    sources: Seq<Pos>,
    p: Pos,
    target: Pos,
    cell: Cell,
)
    requires
        traces(origin, state, sources),
        origin.contains(p),
        !state.resolved(p),
        state.grid.at(p).particle_type.mobile(),
        target == p || state.grid.is_empty_at(target),
        target.row >= p.row,
        cell == state.grid.at(p) || (cell == state.grid.at(p).slowed() && target != p),
    ensures
        traces(origin, state.arrive(p, target, cell), sources.push(p)),
{
    let next = state.arrive(p, target, cell);
    let next_sources = sources.push(p);
    // The particle has not moved before: a vacated cell would be empty.
    assert(!sources.contains(p)) by {
        if sources.contains(p) {
            assert(state.grid.at(p) == Cell::empty());
        }
    }
    assert(state.grid.at(p) == origin.at(p));
    // Nothing has moved to the target before: a recorded cell holds a particle.
    assert(!state.marks.contains(target)) by {
        if state.marks.contains(target) {
            let i = choose|i: int| 0 <= i < state.marks.len() && state.marks[i] == target;
            assert(carried(origin, state.grid, sources[i], state.marks[i]));
        }
    }
    lemma_relocate_wf(state.grid, p, target, cell);
    lemma_push_no_duplicates(sources, p);
    lemma_push_no_duplicates(state.marks, target);
    assert forall|i: int| 0 <= i < next_sources.len() implies carried(
        origin,
        next.grid,
        #[trigger] next_sources[i],
        next.marks[i],
    ) by {
        if i < sources.len() {
            assert(carried(origin, state.grid, sources[i], state.marks[i]));
            assert(state.marks.contains(state.marks[i]));
            assert(next.grid.at(state.marks[i]) == state.grid.at(state.marks[i]));
        } else {
            assert(next.grid.at(target) == cell);
        }
    }
    assert forall|i: int| 0 <= i < next_sources.len() implies carried(
        origin,
        next.grid,
        next_sources[i],
        #[trigger] next.marks[i],
    ) by {
        assert(carried(origin, next.grid, next_sources[i], next.marks[i]));
    }
    assert forall|i: int| 0 <= i < next.marks.len() implies origin.at(
        #[trigger] next.marks[i],
    ).particle_type is Empty || next_sources.contains(next.marks[i]) by {
        lemma_push_contains(sources, p, next.marks[i]);
        if i < state.marks.len() {
            assert(origin.at(state.marks[i]).particle_type is Empty || sources.contains(
                state.marks[i],
            ));
        } else if target != p && !sources.contains(target) {
            assert(state.grid.at(target) == origin.at(target));
        }
    }
    assert forall|q: Pos|
        origin.contains(q) && !next_sources.contains(q) && !next.marks.contains(
            q,
        ) implies #[trigger] next.grid.at(q) == origin.at(q) by {
        lemma_push_contains(sources, p, q);
        lemma_push_contains(state.marks, target, q);
        assert(state.grid.at(q) == origin.at(q));
    }
    assert forall|q: Pos|
        next_sources.contains(q) && !next.marks.contains(q) implies #[trigger] next.grid.at(q)
        == Cell::empty() by {
        lemma_push_contains(sources, p, q);
        lemma_push_contains(state.marks, target, q);
        if q != p {
            assert(state.grid.at(q) == Cell::empty());
        }
    }
}

/// A turn keeps the trace of the frame.
pub proof fn lemma_visit_traces(
    origin: GridView,
    state: FrameState,
    sources: Seq<Pos>,
    p: Pos,
    side: Side,
)
    requires
        traces(origin, state, sources),
        origin.contains(p),
    ensures
        traces(origin, state.after_visit(p, side), sources_after(state, sources, p, side)),
{
    let cell = state.grid.at(p);
    if !state.resolved(p) {
        match cell.particle_type {
            ParticleType::Sand => {
                let target = sand_target(state.grid, p, side);
                lemma_sand_target(state.grid, p, side);
                if target != p {
                    lemma_arrival_traces(origin, state, sources, p, target, cell);
                }
            },
            ParticleType::Water => {
                let target = water_target(state.grid, p, side);
                lemma_water_target(state.grid, p, side);
                if state.grid.is_empty_at(fall_target(state.grid, p)) || target == p {
                    lemma_arrival_traces(origin, state, sources, p, target, cell);
                } else {
                    lemma_arrival_traces(origin, state, sources, p, target, cell.slowed());
                }
            },
            _ => {},
        }
    }
}

/// A turn changes no count.
pub proof fn lemma_visit_keeps_counts(
    state: FrameState,
    p: Pos,
    side: Side,
    pick: spec_fn(ParticleType) -> bool,
)
    requires
        state.grid.wf(),
        state.grid.contains(p),
    ensures
        state.after_visit(p, side).grid.count_where(pick) == state.grid.count_where(pick),
{
    let cell = state.grid.at(p);
    lemma_sand_target(state.grid, p, side);
    lemma_water_target(state.grid, p, side);
    lemma_relocate_keeps_counts(state.grid, p, sand_target(state.grid, p, side), cell, pick);
    lemma_relocate_keeps_counts(state.grid, p, p, cell, pick);
    if state.grid.is_empty_at(fall_target(state.grid, p)) {
        lemma_relocate_keeps_counts(state.grid, p, fall_target(state.grid, p), cell, pick);
    }
    lemma_relocate_keeps_counts(
        state.grid,
        p,
        water_slide_target(state.grid, p, side),
        cell.slowed(),
        pick,
    );
}

/// The state in which a frame on `grid` begins.
pub open spec fn begin(grid: GridView) -> FrameState {
    FrameState { grid, marks: Seq::empty() }
}

/// The cells that the particles recorded by a partial scan came from, record
/// by record.
pub open spec fn scanned_sources(
    start: FrameState,
    choice: spec_fn(Pos) -> Side,
    row: nat,
    col: nat,
) -> Seq<Pos>
    decreases row, col,
{
    if col > 0 {
        let turn = Pos { row: row as int, col: col - 1 };
        sources_after(
            scanned(start, choice, row, (col - 1) as nat),
            scanned_sources(start, choice, row, (col - 1) as nat),
            turn,
            choice(turn),
        )
    } else if row > 0 {
        scanned_sources(start, choice, (row - 1) as nat, start.grid.width as nat)
    } else {
        Seq::empty()
    }
}

/// The cells that the particles recorded by a whole frame came from.
pub open spec fn frame_sources(grid: GridView, choice: spec_fn(Pos) -> Side) -> Seq<Pos> {
    scanned_sources(begin(grid), choice, grid.height as nat, 0)
}

/// `(row, col)` is a point that a scan of `grid` passes through.
pub open spec fn scan_point(grid: GridView, row: nat, col: nat) -> bool {
    (row < grid.height && col <= grid.width) || (row == grid.height && col == 0)
}

/// Every partial scan keeps the trace of its frame and changes no count.
pub proof fn lemma_scanned_traces(
    grid: GridView,
    choice: spec_fn(Pos) -> Side,
    row: nat,
    col: nat,
    pick: spec_fn(ParticleType) -> bool,
)
    requires
        grid.wf(),
        scan_point(grid, row, col),
    ensures
        traces(
            grid,
            scanned(begin(grid), choice, row, col),
            scanned_sources(begin(grid), choice, row, col),
        ),
        scanned(begin(grid), choice, row, col).grid.count_where(pick) == grid.count_where(pick),
    decreases row, col,
{
    if col > 0 {
        let turn = Pos { row: row as int, col: col - 1 };
        let earlier = scanned(begin(grid), choice, row, (col - 1) as nat);
        lemma_scanned_traces(grid, choice, row, (col - 1) as nat, pick);
        lemma_visit_traces(
            grid,
            earlier,
            scanned_sources(begin(grid), choice, row, (col - 1) as nat),
            turn,
            choice(turn),
        );
        lemma_visit_keeps_counts(earlier, turn, choice(turn), pick);
    } else if row > 0 {
        lemma_scanned_traces(grid, choice, (row - 1) as nat, grid.width as nat, pick);
    } else {
        assert(traces(grid, begin(grid), Seq::empty()));
    }
}

/// Matter is conserved: a frame redistributes particles and neither creates
/// nor destroys any, so every count by kind is what it was.
pub proof fn lemma_frame_conserves(
    grid: GridView,
    choice: spec_fn(Pos) -> Side,
    pick: spec_fn(ParticleType) -> bool,
)
    requires
        grid.wf(),
    ensures
        frame(grid, choice).grid.count_where(pick) == grid.count_where(pick),
        frame(grid, choice).grid.matter_count() == grid.matter_count(),
        frame(grid, choice).grid.mobile_count() == grid.mobile_count(),
{
    lemma_scanned_traces(grid, choice, grid.height as nat, 0, pick);
    lemma_scanned_traces(grid, choice, grid.height as nat, 0, |kind: ParticleType| kind.matter());
    lemma_scanned_traces(grid, choice, grid.height as nat, 0, |kind: ParticleType| kind.mobile());
}

/// A frame keeps its trace: see `traces`.
pub proof fn lemma_frame_traces(grid: GridView, choice: spec_fn(Pos) -> Side)
    requires
        grid.wf(),
    ensures
        traces(grid, frame(grid, choice), frame_sources(grid, choice)),
{
    lemma_scanned_traces(grid, choice, grid.height as nat, 0, |kind: ParticleType| kind.mobile());
}

/// In a traced frame every cell that held something and is not the source of
/// a record is exactly as it was, and nothing has moved to it.
pub proof fn lemma_traced_unmoved(origin: GridView, state: FrameState, sources: Seq<Pos>)
    requires
        traces(origin, state, sources),
    ensures
        forall|p: Pos|
            #![trigger state.grid.at(p)]
            origin.contains(p) && !(origin.at(p).particle_type is Empty) && !sources.contains(p)
                ==> state.grid.at(p) == origin.at(p) && !state.marks.contains(p),
{
    assert forall|p: Pos|
        origin.contains(p) && !(origin.at(p).particle_type is Empty) && !sources.contains(
            p,
        ) implies #[trigger] state.grid.at(p) == origin.at(p) && !state.marks.contains(p) by {
        if state.marks.contains(p) {
            let i = choose|i: int| 0 <= i < state.marks.len() && state.marks[i] == p;
            assert(origin.at(state.marks[i]).particle_type is Empty || sources.contains(
                state.marks[i],
            ));
        }
    }
}

/// In a traced frame walls and stones are exactly as they were.
pub proof fn lemma_traced_keeps_immobile(origin: GridView, state: FrameState, sources: Seq<Pos>)
    requires
        traces(origin, state, sources),
    ensures
        forall|p: Pos|
            #![trigger state.grid.at(p)]
            origin.contains(p) && (origin.at(p).particle_type is Boundary || origin.at(
                p,
            ).particle_type is Stone) ==> state.grid.at(p) == origin.at(p),
{
    lemma_traced_unmoved(origin, state, sources);
    assert forall|p: Pos|
        origin.contains(p) && (origin.at(p).particle_type is Boundary || origin.at(
            p,
        ).particle_type is Stone) implies #[trigger] state.grid.at(p) == origin.at(p) by {
        if sources.contains(p) {
            let i = choose|i: int| 0 <= i < sources.len() && sources[i] == p;
            assert(carried(origin, state.grid, sources[i], state.marks[i]));
        }
    }
}

/// In a traced frame no more coordinates are recorded than the grid holds
/// mobile particles.
pub proof fn lemma_traced_marks_bounded(origin: GridView, state: FrameState, sources: Seq<Pos>)
    requires
        traces(origin, state, sources),
    ensures
        state.marks.len() <= state.grid.mobile_count(),
{
    let mobile = |kind: ParticleType| kind.mobile();
    let holders = state.grid.positions_where(mobile);
    lemma_positions_finite(state.grid, mobile);
    state.marks.unique_seq_to_set();
    assert forall|p: Pos| state.marks.to_set().contains(p) implies holders.contains(p) by {
        let i = choose|i: int| 0 <= i < state.marks.len() && state.marks[i] == p;
        assert(carried(origin, state.grid, sources[i], state.marks[i]));
    }
    vstd::set_lib::lemma_len_subset(state.marks.to_set(), holders);
}

/// No particle rises, and none moves twice: at the end of a frame every
/// recorded particle stands no higher than the cell it came from, no cell is
/// the source of two records, and every particle that is not the source of
/// a record stands exactly where it stood.
pub proof fn lemma_frame_no_rise(grid: GridView, choice: spec_fn(Pos) -> Side)
    requires
        grid.wf(),
    ensures
        ({
            let end = frame(grid, choice);
            let sources = frame_sources(grid, choice);
            &&& sources.len() == end.marks.len()
            &&& sources.no_duplicates()
            &&& forall|i: int|
                #![trigger sources[i]]
                #![trigger end.marks[i]]
                0 <= i < sources.len() ==> carried(grid, end.grid, sources[i], end.marks[i])
                    && sources[i].row <= end.marks[i].row
            &&& forall|p: Pos|
                #![trigger end.grid.at(p)]
                grid.contains(p) && !(grid.at(p).particle_type is Empty) && !sources.contains(p)
                    ==> end.grid.at(p) == grid.at(p) && !end.marks.contains(p)
        }),
{
    lemma_frame_traces(grid, choice);
    lemma_traced_unmoved(grid, frame(grid, choice), frame_sources(grid, choice));
}

/// No cell is moved to twice in a frame, and the record is no longer than the
/// number of mobile particles in the grid.
pub proof fn lemma_frame_marks(grid: GridView, choice: spec_fn(Pos) -> Side)
    requires
        grid.wf(),
    ensures
        frame(grid, choice).marks.no_duplicates(),
        frame(grid, choice).marks.len() <= grid.mobile_count(),
{
    lemma_frame_traces(grid, choice);
    lemma_traced_marks_bounded(grid, frame(grid, choice), frame_sources(grid, choice));
    lemma_frame_conserves(grid, choice, |kind: ParticleType| kind.mobile());
}

/// A frame alters no wall and no stone; in particular a wall that encloses
/// the grid still encloses it afterwards.
pub proof fn lemma_frame_keeps_walls(grid: GridView, choice: spec_fn(Pos) -> Side)
    requires
        grid.wf(),
    ensures
        forall|p: Pos|
            #![trigger frame(grid, choice).grid.at(p)]
            grid.contains(p) && (grid.at(p).particle_type is Boundary || grid.at(
                p,
            ).particle_type is Stone) ==> frame(grid, choice).grid.at(p) == grid.at(p),
        (forall|p: Pos| grid.on_perimeter(p) ==> grid.at(p).particle_type is Boundary) ==> (
        forall|p: Pos|
            frame(grid, choice).grid.on_perimeter(p) ==> frame(grid, choice).grid.at(
                p,
            ).particle_type is Boundary),
{
    lemma_frame_traces(grid, choice);
    lemma_traced_keeps_immobile(grid, frame(grid, choice), frame_sources(grid, choice));
    let end = frame(grid, choice);
    if forall|p: Pos| grid.on_perimeter(p) ==> grid.at(p).particle_type is Boundary {
        assert forall|p: Pos| end.grid.on_perimeter(p) implies end.grid.at(
            p,
        ).particle_type is Boundary by {
            assert(grid.on_perimeter(p));
            assert(end.grid.at(p) == grid.at(p));
        }
    }
}

} // verus!
