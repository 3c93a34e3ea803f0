use falling_sand::brush::{apply_command, input_handler, paint, Brush, Command, Keys};
use falling_sand::grid::Grid;
use falling_sand::particle::{Cell, ParticleType};

const NO_KEYS: Keys = Keys { zero: false, z: false, one: false, two: false, three: false };

fn walled() -> Grid {
    let mut grid = Grid::new(12, 8);
    grid.stamp_boundary();
    grid
}

#[test]
fn a_session_starts_with_stone_in_hand() {
    assert_eq!(Brush::new(), Brush { tool: ParticleType::Stone, draw_flag: true });
}

#[test]
fn stone_is_laid_on_every_stroke() {
    let mut grid = walled();
    let mut brush = Brush::new();
    paint(&mut grid, &mut brush, 3, 3);
    paint(&mut grid, &mut brush, 3, 4);
    paint(&mut grid, &mut brush, 3, 5);
    assert_eq!(grid.get(3, 3), Cell::stone());
    assert_eq!(grid.get(3, 4), Cell::stone());
    assert_eq!(grid.get(3, 5), Cell::stone());
    assert_eq!(brush, Brush { tool: ParticleType::Stone, draw_flag: true });
}

#[test]
fn sand_is_laid_on_every_other_stroke() {
    let mut grid = walled();
    let mut brush = Brush { tool: ParticleType::Sand, draw_flag: true };
    paint(&mut grid, &mut brush, 3, 3);
    assert_eq!(grid.get(3, 3), Cell::sand());
    assert!(!brush.draw_flag);
    paint(&mut grid, &mut brush, 3, 4);
    assert_eq!(grid.get(3, 4), Cell::empty());
    assert!(brush.draw_flag);
    paint(&mut grid, &mut brush, 3, 4);
    assert_eq!(grid.get(3, 4), Cell::sand());
    assert!(!brush.draw_flag);
}

#[test]
fn water_is_laid_on_every_other_stroke() {
    let mut grid = walled();
    let mut brush = Brush { tool: ParticleType::Water, draw_flag: false };
    paint(&mut grid, &mut brush, 3, 3);
    assert_eq!(grid.get(3, 3), Cell::empty());
    assert!(brush.draw_flag);
    paint(&mut grid, &mut brush, 3, 3);
    assert_eq!(grid.get(3, 3), Cell::water());
    assert!(!brush.draw_flag);
}

#[test]
fn a_stroke_on_an_occupied_cell_lays_nothing() {
    let mut grid = walled();
    grid.set(3, 3, Cell::stone());
    let mut brush = Brush { tool: ParticleType::Sand, draw_flag: true };
    paint(&mut grid, &mut brush, 3, 3);
    assert_eq!(grid.get(3, 3), Cell::stone());
    assert!(brush.draw_flag);
    let mut brush = Brush { tool: ParticleType::Stone, draw_flag: true };
    grid.set(4, 4, Cell::water());
    paint(&mut grid, &mut brush, 4, 4);
    assert_eq!(grid.get(4, 4), Cell::water());
}

#[test]
fn the_eraser_empties_anything_but_the_wall() {
    let mut grid = walled();
    grid.set(3, 3, Cell::stone());
    grid.set(3, 4, Cell::sand());
    grid.set(3, 5, Cell::water());
    let mut brush = Brush { tool: ParticleType::Empty, draw_flag: true };
    paint(&mut grid, &mut brush, 3, 3);
    paint(&mut grid, &mut brush, 3, 4);
    paint(&mut grid, &mut brush, 3, 5);
    paint(&mut grid, &mut brush, 3, 6);
    paint(&mut grid, &mut brush, 0, 0);
    paint(&mut grid, &mut brush, 7, 5);
    assert_eq!(grid.get(3, 3), Cell::empty());
    assert_eq!(grid.get(3, 4), Cell::empty());
    assert_eq!(grid.get(3, 5), Cell::empty());
    assert_eq!(grid.get(3, 6), Cell::empty());
    assert_eq!(grid.get(0, 0), Cell::boundary());
    assert_eq!(grid.get(7, 5), Cell::boundary());
    assert_eq!(brush, Brush { tool: ParticleType::Empty, draw_flag: true });
}

#[test]
fn the_wall_tool_lays_nothing() {
    let mut grid = walled();
    let mut brush = Brush { tool: ParticleType::Boundary, draw_flag: true };
    paint(&mut grid, &mut brush, 3, 3);
    assert_eq!(grid.get(3, 3), Cell::empty());
    assert_eq!(brush, Brush { tool: ParticleType::Boundary, draw_flag: true });
}

#[test]
fn keys_stand_for_one_command_in_order_of_rank() {
    assert_eq!(NO_KEYS.command(), None);
    assert_eq!(Keys { zero: true, ..NO_KEYS }.command(), Some(Command::Select(ParticleType::Empty)));
    assert_eq!(Keys { z: true, ..NO_KEYS }.command(), Some(Command::Reset));
    assert_eq!(Keys { one: true, ..NO_KEYS }.command(), Some(Command::Select(ParticleType::Stone)));
    assert_eq!(Keys { two: true, ..NO_KEYS }.command(), Some(Command::Select(ParticleType::Sand)));
    assert_eq!(Keys { three: true, ..NO_KEYS }.command(), Some(Command::Select(ParticleType::Water)));
    let all = Keys { zero: true, z: true, one: true, two: true, three: true };
    assert_eq!(all.command(), Some(Command::Select(ParticleType::Empty)));
    assert_eq!(Keys { zero: false, ..all }.command(), Some(Command::Reset));
    assert_eq!(Keys { zero: false, z: false, ..all }.command(), Some(Command::Select(ParticleType::Sand)));
    assert_eq!(
        Keys { one: true, three: true, ..NO_KEYS }.command(),
        Some(Command::Select(ParticleType::Stone))
    );
}

#[test]
fn a_selection_changes_the_tool_only() {
    let mut grid = walled();
    grid.set(3, 3, Cell::sand());
    let mut brush = Brush { tool: ParticleType::Stone, draw_flag: false };
    apply_command(&mut grid, &mut brush, Command::Select(ParticleType::Water));
    assert_eq!(brush, Brush { tool: ParticleType::Water, draw_flag: false });
    assert_eq!(grid.get(3, 3), Cell::sand());
    assert_eq!(grid.get(0, 0), Cell::boundary());
}

#[test]
fn a_reset_empties_the_grid_and_keeps_the_wall() {
    let mut grid = walled();
    grid.set(3, 3, Cell::sand());
    grid.set(4, 4, Cell::stone());
    let mut brush = Brush { tool: ParticleType::Sand, draw_flag: false };
    apply_command(&mut grid, &mut brush, Command::Reset);
    assert_eq!(brush, Brush { tool: ParticleType::Sand, draw_flag: false });
    for row in 0..8 {
        for col in 0..12 {
            let edge = row == 0 || col == 0 || row == 7 || col == 11;
            let expected = if edge { Cell::boundary() } else { Cell::empty() };
            assert_eq!(grid.get(row, col), expected);
        }
    }
}

#[test]
fn input_handler_paints_under_the_pointer() {
    let mut grid = walled();
    let mut brush = Brush::new();
    let under = input_handler(&mut grid, &mut brush, 57, 32, true, NO_KEYS);
    assert_eq!(under, (5, 3));
    assert_eq!(grid.get(3, 5), Cell::stone());
    assert_eq!(grid.get(5, 3), Cell::empty());
}

#[test]
fn input_handler_without_the_button_only_reports_the_cell() {
    let mut grid = walled();
    let mut brush = Brush::new();
    let under = input_handler(&mut grid, &mut brush, 57, 32, false, NO_KEYS);
    assert_eq!(under, (5, 3));
    assert_eq!(grid.get(3, 5), Cell::empty());
    // With the button up the pointer may be anywhere.
    let under = input_handler(&mut grid, &mut brush, 5000, 7000, false, NO_KEYS);
    assert_eq!(under, (500, 700));
    assert_eq!(brush, Brush::new());
}

#[test]
fn input_handler_paints_before_it_obeys_the_keys() {
    let mut grid = walled();
    let mut brush = Brush { tool: ParticleType::Sand, draw_flag: true };
    let keys = Keys { three: true, ..NO_KEYS };
    input_handler(&mut grid, &mut brush, 40, 20, true, keys);
    // The stroke was made with the sand that was in hand.
    assert_eq!(grid.get(2, 4), Cell::sand());
    assert_eq!(brush, Brush { tool: ParticleType::Water, draw_flag: false });

    let keys = Keys { z: true, ..NO_KEYS };
    let mut brush = Brush::new();
    input_handler(&mut grid, &mut brush, 60, 20, true, keys);
    assert_eq!(grid.get(2, 6), Cell::empty());
    assert_eq!(grid.get(2, 4), Cell::empty());
    assert_eq!(grid.get(0, 0), Cell::boundary());
}
