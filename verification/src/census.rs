//! Counting the cells of a grid by what they hold.

use vstd::prelude::*;
use crate::grid::{GridView, Pos};
use crate::particle::{Cell, ParticleType};

verus! {

impl GridView {
    /// Every coordinate inside the grid.
    pub open spec fn positions(self) -> Set<Pos> {
        Set::new(|p: Pos| self.contains(p))
    }

    /// The coordinates whose cell holds a kind that `pick` selects.
    pub open spec fn positions_where(self, pick: spec_fn(ParticleType) -> bool) -> Set<Pos> {
        Set::new(|p: Pos| self.contains(p) && pick(self.at(p).particle_type))
    }

    /// How many cells hold a kind that `pick` selects.
    pub open spec fn count_where(self, pick: spec_fn(ParticleType) -> bool) -> nat {
        self.positions_where(pick).len()
    }

    /// How many cells hold matter: neither empty space nor wall.
    pub open spec fn matter_count(self) -> nat {
        self.count_where(|kind: ParticleType| kind.matter())
    }

    /// How many cells hold a particle that can move.
    pub open spec fn mobile_count(self) -> nat {
        self.count_where(|kind: ParticleType| kind.mobile())
    }
}

/// The coordinates of one row up to a column.
spec fn row_prefix(row: int, width: int) -> Set<Pos> {
    Set::new(|p: Pos| p.row == row && 0 <= p.col < width)
}

/// The coordinates of a block of whole rows.
spec fn block(width: int, height: int) -> Set<Pos> {
    Set::new(|p: Pos| 0 <= p.row < height && 0 <= p.col < width)
}

proof fn lemma_row_prefix_finite(row: int, width: int)
    requires
        0 <= width,
    ensures
        row_prefix(row, width).finite(),
    decreases width,
{
    if width == 0 {
        assert(row_prefix(row, width) =~= Set::<Pos>::empty());
    } else {
        lemma_row_prefix_finite(row, width - 1);
        assert(row_prefix(row, width) =~= row_prefix(row, width - 1).insert(
            Pos { row, col: width - 1 },
        ));
    }
}

proof fn lemma_block_finite(width: int, height: int)
    requires
        0 <= width,
        0 <= height,
    ensures
        block(width, height).finite(),
    decreases height,
{
    if height == 0 {
        assert(block(width, height) =~= Set::<Pos>::empty());
    } else {
        lemma_block_finite(width, height - 1);
        lemma_row_prefix_finite(height - 1, width);
        assert(block(width, height) =~= block(width, height - 1).union(
            row_prefix(height - 1, width),
        ));
    }
}

/// A grid has finitely many coordinates, so every count is a true count.
pub proof fn lemma_positions_finite(grid: GridView, pick: spec_fn(ParticleType) -> bool)
    requires
        grid.wf(),
    ensures
        grid.positions().finite(),
        grid.positions_where(pick).finite(),
        grid.positions_where(pick).subset_of(grid.positions()),
        grid.count_where(pick) <= grid.positions().len(),
{
    lemma_block_finite(grid.width, grid.height);
    assert(grid.positions() =~= block(grid.width, grid.height));
    vstd::set_lib::lemma_len_subset(grid.positions_where(pick), grid.positions());
}

/// Moving a particle into an empty cell changes no count: the two cells
/// trade places in every selection.
pub proof fn lemma_relocate_keeps_counts(
    grid: GridView,
    src: Pos,
    dst: Pos,
    cell: Cell,
    pick: spec_fn(ParticleType) -> bool,
)
    requires
        grid.wf(),
        grid.contains(src),
        dst == src || grid.is_empty_at(dst),
        cell.particle_type == grid.at(src).particle_type,
    ensures
        grid.relocate(src, dst, cell).count_where(pick) == grid.count_where(pick),
{
    let moved = grid.relocate(src, dst, cell);
    let before = grid.positions_where(pick);
    let after = moved.positions_where(pick);
    lemma_positions_finite(grid, pick);
    if dst == src {
        assert(after =~= before);
    } else {
        let takes_particle = pick(cell.particle_type);
        let takes_empty = pick(ParticleType::Empty);
        if takes_particle == takes_empty {
            assert(after =~= before);
        } else if takes_particle {
            assert(after =~= before.remove(src).insert(dst));
        } else {
            assert(after =~= before.remove(dst).insert(src));
        }
    }
}

} // verus!
