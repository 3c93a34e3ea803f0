//! The grid store: a fixed-size, row-major buffer of cells behind
//! bounds-checked accessors, and the wall that encloses it.

use vstd::prelude::*;
use crate::particle::{Cell, ParticleType};

verus! {

/// A grid coordinate: `row` counts from the top, `col` from the left.
pub struct Pos {
    pub row: int,
    pub col: int,
}

/// The mathematical content of a grid: its dimensions and the cell at every
/// coordinate inside them.
pub struct GridView {
    pub width: int,
    pub height: int,
    pub cells: Map<Pos, Cell>,
}

impl GridView {
    /// `p` lies inside the grid.
    pub open spec fn contains(self, p: Pos) -> bool {
        0 <= p.row < self.height && 0 <= p.col < self.width
    }

    /// The cells are defined exactly at the coordinates inside the grid.
    pub open spec fn wf(self) -> bool {
        &&& 0 <= self.width
        &&& 0 <= self.height
        &&& forall|p: Pos| self.cells.dom().contains(p) <==> self.contains(p)
    }

    pub open spec fn at(self, p: Pos) -> Cell {
        self.cells[p]
    }

    /// `p` lies inside the grid and nothing occupies it.
    pub open spec fn is_empty_at(self, p: Pos) -> bool {
        self.contains(p) && self.cells[p].particle_type is Empty
    }

    /// `p` lies on the outermost ring of the grid.
    pub open spec fn on_perimeter(self, p: Pos) -> bool {
        self.contains(p) && (p.row == 0 || p.row == self.height - 1 || p.col == 0 || p.col
            == self.width - 1)
    }

    /// The grid with `cell` written at `p`.
    pub open spec fn put(self, p: Pos, cell: Cell) -> GridView {
        GridView { width: self.width, height: self.height, cells: self.cells.insert(p, cell) }
    }

    /// The grid after a particle leaves `src` and `cell` arrives at `dst`:
    /// the source is cleared first, so a move onto itself keeps the particle.
    pub open spec fn relocate(self, src: Pos, dst: Pos, cell: Cell) -> GridView {
        self.put(src, Cell::empty()).put(dst, cell)
    }

    /// A grid of the given dimensions with nothing in it.
    pub open spec fn blank(width: int, height: int) -> GridView {
        GridView {
            width,
            height,
            cells: Map::new(
                |p: Pos| 0 <= p.row < height && 0 <= p.col < width,
                |p: Pos| Cell::empty(),
            ),
        }
    }

    /// The grid with a wall stamped on its perimeter and every other cell kept.
    pub open spec fn stamped(self) -> GridView {
        GridView {
            width: self.width,
            height: self.height,
            cells: Map::new(
                |p: Pos| self.contains(p),
                |p: Pos|
                    if self.on_perimeter(p) {
                        Cell::boundary()
                    } else {
                        self.cells[p]
                    },
            ),
        }
    }
}

/// Writing a cell inside a well-formed grid leaves it well formed.
pub proof fn lemma_put_wf(grid: GridView, p: Pos, cell: Cell)
    requires
        grid.wf(),
        grid.contains(p),
    ensures
        grid.put(p, cell).wf(),
{
    let next = grid.put(p, cell);
    assert forall|q: Pos| next.cells.dom().contains(q) <==> next.contains(q) by {
        assert(grid.cells.dom().contains(q) <==> grid.contains(q));
    }
}

/// Moving a particle between two cells of a well-formed grid leaves it well
/// formed.
pub proof fn lemma_relocate_wf(grid: GridView, src: Pos, dst: Pos, cell: Cell)
    requires
        grid.wf(),
        grid.contains(src),
        grid.contains(dst),
    ensures
        grid.relocate(src, dst, cell).wf(),
{
    lemma_put_wf(grid, src, Cell::empty());
    lemma_put_wf(grid.put(src, Cell::empty()), dst, cell);
}

/// Offset of `(row, col)` in a row-major buffer of rows `width` long.
pub open spec fn flat_index(width: int, row: int, col: int) -> int {
    row * width + col
}

proof fn lemma_flat_index_bound(width: int, height: int, row: int, col: int)
    requires
        0 <= row < height,
        0 <= col < width,
    ensures
        0 <= flat_index(width, row, col) < width * height,
        row * width + width <= width * height,
{
    assert(row * width >= 0) by (nonlinear_arith)
        requires
            0 <= row,
            0 <= width,
    ;
    assert(row * width + width <= width * height) by (nonlinear_arith)
        requires
            0 <= row < height,
            0 <= width,
    ;
}

proof fn lemma_flat_index_injective(width: int, r1: int, c1: int, r2: int, c2: int)
    requires
        0 <= c1 < width,
        0 <= c2 < width,
        flat_index(width, r1, c1) == flat_index(width, r2, c2),
    ensures
        r1 == r2,
        c1 == c2,
{
    if r1 < r2 {
        assert(r1 * width + width <= r2 * width) by (nonlinear_arith)
            requires
                r1 < r2,
                0 <= width,
        ;
    } else if r2 < r1 {
        assert(r2 * width + width <= r1 * width) by (nonlinear_arith)
            requires
                r2 < r1,
                0 <= width,
        ;
    }
}

/// The grid store. Its dimensions are fixed when it is made.
pub struct Grid {
    width: usize,
    height: usize,
    cells: Vec<Cell>,
}

impl View for Grid {
    type V = GridView;

    closed spec fn view(&self) -> GridView {
        GridView {
            width: self.width as int,
            height: self.height as int,
            cells: Map::new(
                |p: Pos| 0 <= p.row < self.height && 0 <= p.col < self.width,
                |p: Pos| self.cells@[flat_index(self.width as int, p.row, p.col)],
            ),
        }
    }
}

impl Grid {
    /// The buffer holds exactly one cell per coordinate.
    pub closed spec fn wf(&self) -> bool {
        &&& self.width * self.height <= usize::MAX
        &&& self.cells@.len() == self.width * self.height
    }

    /// The content of every grid is well formed, and its dimensions are
    /// machine-sized.
    pub proof fn lemma_view_wf(self)
        ensures
            self@.wf(),
            self@.width <= usize::MAX,
            self@.height <= usize::MAX,
    {
    }

    /// A grid of `width` by `height` empty cells.
    pub fn new(width: usize, height: usize) -> (grid: Grid)
        requires
            width * height <= usize::MAX,
        ensures
            grid.wf(),
            grid@ == GridView::blank(width as int, height as int),
    {
        let total: usize = width * height;
        let mut cells: Vec<Cell> = Vec::new();
        let mut i: usize = 0;
        while i < total
            invariant
                i <= total,
                cells@.len() == i,
                forall|k: int| 0 <= k < i ==> cells@[k] == Cell::empty(),
            decreases total - i,
        {
            cells.push(Cell::empty());
            i += 1;
        }
        let grid = Grid { width, height, cells };
        proof {
            assert forall|p: Pos| 0 <= p.row < height && 0 <= p.col < width implies cells@[flat_index(
                width as int,
                p.row,
                p.col,
            )] == Cell::empty() by {
                lemma_flat_index_bound(width as int, height as int, p.row, p.col);
            }
            assert(grid@.cells =~= GridView::blank(width as int, height as int).cells);
        }
        grid
    }

    pub fn width(&self) -> (w: usize)
        ensures
            w == self@.width,
    {
        self.width
    }

    pub fn height(&self) -> (h: usize)
        ensures
            h == self@.height,
    {
        self.height
    }

    /// The cell at `(row, col)`.
    pub fn get(&self, row: usize, col: usize) -> (cell: Cell)
        requires
            self.wf(),
            row < self@.height,
            col < self@.width,
        ensures
            cell == self@.at(Pos { row: row as int, col: col as int }),
    {
        proof {
            lemma_flat_index_bound(self.width as int, self.height as int, row as int, col as int);
        }
        self.cells[row * self.width + col]
    }

    /// Whether `(row, col)` lies inside the grid and nothing occupies it.
    pub fn is_empty_at(&self, row: usize, col: usize) -> (free: bool)
        requires
            self.wf(),
        ensures
            free == self@.is_empty_at(Pos { row: row as int, col: col as int }),
    {
        if row < self.height && col < self.width {
            self.get(row, col).particle_type == ParticleType::Empty
        } else {
            false
        }
    }

    /// Writes `cell` at `(row, col)` and touches nothing else.
    pub fn set(&mut self, row: usize, col: usize, cell: Cell)
        requires
            old(self).wf(),
            row < old(self)@.height,
            col < old(self)@.width,
        ensures
            final(self).wf(),
            final(self)@ == old(self)@.put(Pos { row: row as int, col: col as int }, cell),
    {
        proof {
            lemma_flat_index_bound(self.width as int, self.height as int, row as int, col as int);
        }
        let index: usize = row * self.width + col;
        self.cells.set(index, cell);
        proof {
            let here = Pos { row: row as int, col: col as int };
            let want = old(self)@.put(here, cell);
            assert forall|p: Pos| want.cells.dom().contains(p) implies #[trigger] self@.cells[p]
                == want.cells[p] by {
                if p != here {
                    lemma_flat_index_bound(self.width as int, self.height as int, p.row, p.col);
                    if flat_index(self.width as int, p.row, p.col) == index {
                        lemma_flat_index_injective(
                            self.width as int,
                            p.row,
                            p.col,
                            row as int,
                            col as int,
                        );
                    }
                }
            }
            assert(self@.cells =~= want.cells);
        }
    }

    /// Empties every cell, leaving the dimensions as they are.
    pub fn clear(&mut self)
        requires
            old(self).wf(),
        ensures
            final(self).wf(),
            final(self)@ == GridView::blank(old(self)@.width, old(self)@.height),
    {
        let total: usize = self.cells.len();
        let mut i: usize = 0;
        while i < total
            invariant
                i <= total,
                self.cells@.len() == total,
                self.width == old(self).width,
                self.height == old(self).height,
                forall|k: int| 0 <= k < i ==> self.cells@[k] == Cell::empty(),
            decreases total - i,
        {
            self.cells.set(i, Cell::empty());
            i += 1;
        }
        proof {
            let width = self.width as int;
            let height = self.height as int;
            assert forall|p: Pos| 0 <= p.row < height && 0 <= p.col < width implies self.cells@[flat_index(
                width,
                p.row,
                p.col,
            )] == Cell::empty() by {
                lemma_flat_index_bound(width, height, p.row, p.col);
            }
            assert(self@.cells =~= GridView::blank(width, height).cells);
        }
    }

    /// Stamps the wall on the perimeter: every cell of the first and last
    /// row and of the first and last column becomes a wall cell, and every
    /// other cell is kept.
    pub fn stamp_boundary(&mut self)
        requires
            old(self).wf(),
        ensures
            final(self).wf(),
            final(self)@ == old(self)@.stamped(),
    {
        let width = self.width;
        let height = self.height;
        let ghost before = self@;
        if width == 0 || height == 0 {
            assert(self@.cells =~= before.stamped().cells);
            return ;
        }
        let mut col: usize = 0;
        while col < width
            invariant
                self.wf(),
                0 < height,
                col <= width,
                self@.width == width == before.width,
                self@.height == height == before.height,
                forall|p: Pos|
                    before.contains(p) ==> #[trigger] self@.at(p) == (if (p.row == 0 || p.row
                        == height - 1) && p.col < col {
                        Cell::boundary()
                    } else {
                        before.at(p)
                    }),
            decreases width - col,
        {
            let ghost earlier = self@;
            self.set(0, col, Cell::boundary());
            self.set(height - 1, col, Cell::boundary());
            col += 1;
            assert forall|p: Pos| before.contains(p) implies #[trigger] self@.at(p) == (if (p.row
                == 0 || p.row == height - 1) && p.col < col {
                Cell::boundary()
            } else {
                before.at(p)
            }) by {
                assert(earlier.at(p) == earlier.cells[p]);
            }
        }
        let mut row: usize = 1;
        while row < height - 1
            invariant
                self.wf(),
                0 < width,
                0 < height,
                1 <= row,
                self@.width == width == before.width,
                self@.height == height == before.height,
                forall|p: Pos|
                    before.contains(p) ==> #[trigger] self@.at(p) == (if p.row == 0 || p.row
                        == height - 1 || ((p.col == 0 || p.col == width - 1) && p.row < row) {
                        Cell::boundary()
                    } else {
                        before.at(p)
                    }),
            decreases height - row,
        {
            let ghost earlier = self@;
            self.set(row, 0, Cell::boundary());
            self.set(row, width - 1, Cell::boundary());
            row += 1;
            assert forall|p: Pos| before.contains(p) implies #[trigger] self@.at(p) == (if p.row
                == 0 || p.row == height - 1 || ((p.col == 0 || p.col == width - 1) && p.row
                < row) {
                Cell::boundary()
            } else {
                before.at(p)
            }) by {
                assert(earlier.at(p) == earlier.cells[p]);
            }
        }
        proof {
            assert forall|p: Pos| before.contains(p) implies #[trigger] self@.cells[p]
                == before.stamped().cells[p] by {
                assert(self@.at(p) == self@.cells[p]);
            }
            assert(self@.cells =~= before.stamped().cells);
        }
    }

    /// Empties the grid and stamps the wall afresh.
    pub fn reset(&mut self)
        requires
            old(self).wf(),
        ensures
            final(self).wf(),
            final(self)@ == GridView::blank(old(self)@.width, old(self)@.height).stamped(),
    {
        self.clear();
        self.stamp_boundary();
    }
}

} // verus!
