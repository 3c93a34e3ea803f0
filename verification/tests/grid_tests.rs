use falling_sand::grid::Grid;
use falling_sand::particle::{Cell, ParticleType};

fn on_perimeter(grid: &Grid, row: usize, col: usize) -> bool {
    row == 0 || col == 0 || row == grid.height() - 1 || col == grid.width() - 1
}

#[test]
fn a_new_grid_is_empty() {
    let grid = Grid::new(7, 4);
    assert_eq!(grid.width(), 7);
    assert_eq!(grid.height(), 4);
    for row in 0..4 {
        for col in 0..7 {
            assert_eq!(grid.get(row, col), Cell::empty());
            assert!(grid.is_empty_at(row, col));
        }
    }
}

#[test]
fn set_writes_one_cell_only() {
    let mut grid = Grid::new(7, 4);
    grid.set(2, 5, Cell::water());
    grid.set(3, 6, Cell::sand());
    grid.set(0, 0, Cell::stone());
    for row in 0..4 {
        for col in 0..7 {
            let expected = match (row, col) {
                (2, 5) => Cell::water(),
                (3, 6) => Cell::sand(),
                (0, 0) => Cell::stone(),
                _ => Cell::empty(),
            };
            assert_eq!(grid.get(row, col), expected);
        }
    }
    grid.set(2, 5, Cell::empty());
    assert_eq!(grid.get(2, 5), Cell::empty());
    assert_eq!(grid.get(3, 6), Cell::sand());
}

#[test]
fn rows_and_columns_are_not_confused() {
    let mut grid = Grid::new(3, 5);
    grid.set(4, 2, Cell::stone());
    grid.set(1, 0, Cell::sand());
    assert_eq!(grid.get(4, 2), Cell::stone());
    assert_eq!(grid.get(1, 0), Cell::sand());
    assert_eq!(grid.get(0, 1), Cell::empty());
    assert_eq!(grid.get(2, 1), Cell::empty());
}

#[test]
fn is_empty_at_is_false_outside_the_grid() {
    let mut grid = Grid::new(3, 2);
    assert!(grid.is_empty_at(1, 2));
    assert!(!grid.is_empty_at(2, 0));
    assert!(!grid.is_empty_at(0, 3));
    assert!(!grid.is_empty_at(usize::MAX, usize::MAX));
    grid.set(1, 2, Cell::stone());
    assert!(!grid.is_empty_at(1, 2));
}

#[test]
fn stamp_boundary_walls_the_perimeter_and_keeps_the_rest() {
    let mut grid = Grid::new(6, 5);
    grid.set(2, 3, Cell::sand());
    grid.set(0, 2, Cell::water());
    grid.set(3, 0, Cell::stone());
    grid.stamp_boundary();
    for row in 0..5 {
        for col in 0..6 {
            let expected = if on_perimeter(&grid, row, col) {
                Cell::boundary()
            } else if (row, col) == (2, 3) {
                Cell::sand()
            } else {
                Cell::empty()
            };
            assert_eq!(grid.get(row, col), expected);
        }
    }
}

#[test]
fn stamp_boundary_is_idempotent() {
    let mut grid = Grid::new(6, 5);
    grid.set(2, 3, Cell::sand());
    grid.stamp_boundary();
    let mut once = Vec::new();
    for row in 0..5 {
        for col in 0..6 {
            once.push(grid.get(row, col));
        }
    }
    grid.stamp_boundary();
    let mut twice = Vec::new();
    for row in 0..5 {
        for col in 0..6 {
            twice.push(grid.get(row, col));
        }
    }
    assert_eq!(once, twice);
}

#[test]
fn stamp_boundary_on_small_grids() {
    let mut none = Grid::new(0, 0);
    none.stamp_boundary();
    assert_eq!(none.width(), 0);
    assert_eq!(none.height(), 0);

    let mut flat = Grid::new(4, 0);
    flat.stamp_boundary();
    assert_eq!(flat.width(), 4);

    let mut one = Grid::new(1, 1);
    one.stamp_boundary();
    assert_eq!(one.get(0, 0), Cell::boundary());

    let mut two = Grid::new(2, 2);
    two.stamp_boundary();
    for row in 0..2 {
        for col in 0..2 {
            assert_eq!(two.get(row, col), Cell::boundary());
        }
    }

    let mut strip = Grid::new(5, 1);
    strip.stamp_boundary();
    for col in 0..5 {
        assert_eq!(strip.get(0, col), Cell::boundary());
    }

    let mut three = Grid::new(3, 3);
    three.stamp_boundary();
    assert_eq!(three.get(1, 1), Cell::empty());
    assert_eq!(three.get(1, 0).particle_type, ParticleType::Boundary);
    assert_eq!(three.get(1, 2).particle_type, ParticleType::Boundary);
}

#[test]
fn clear_empties_every_cell() {
    let mut grid = Grid::new(6, 5);
    grid.stamp_boundary();
    grid.set(2, 3, Cell::sand());
    grid.clear();
    assert_eq!(grid.width(), 6);
    assert_eq!(grid.height(), 5);
    for row in 0..5 {
        for col in 0..6 {
            assert_eq!(grid.get(row, col), Cell::empty());
        }
    }
}

#[test]
fn reset_empties_the_grid_and_restores_the_wall() {
    let mut grid = Grid::new(6, 5);
    grid.set(2, 3, Cell::sand());
    grid.set(1, 1, Cell::stone());
    grid.set(0, 0, Cell::water());
    grid.reset();
    for row in 0..5 {
        for col in 0..6 {
            let expected = if on_perimeter(&grid, row, col) {
                Cell::boundary()
            } else {
                Cell::empty()
            };
            assert_eq!(grid.get(row, col), expected);
        }
    }
}
