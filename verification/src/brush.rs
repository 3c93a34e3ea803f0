//! The painting tool: what a stroke of the pointer and a key press do to the
//! grid and to the tool in hand.

use vstd::prelude::*;
use crate::display::{cell_index, cell_of_pixel};
use crate::grid::{Grid, GridView, Pos};
use crate::particle::{Cell, ParticleType};

verus! {

/// The tool in hand. Grainy tools (sand and water) lay a particle on every
/// other stroke only, which `draw_flag` keeps count of.
#[derive(Clone, Copy, Debug, PartialEq, Eq, Structural)]
pub struct Brush {
    pub tool: ParticleType,
    pub draw_flag: bool,
}

/// The keys that were pressed in one frame.
#[derive(Clone, Copy, Debug, PartialEq, Eq, Structural)]
pub struct Keys {
    pub zero: bool,
    pub z: bool,
    pub one: bool,
    pub two: bool,
    pub three: bool,
}

/// What a key press asks for.
#[derive(Clone, Copy, Debug, PartialEq, Eq, Structural)]
pub enum Command {
    /// Take the given tool in hand.
    Select(ParticleType),
    /// Empty the grid and stamp the wall afresh.
    Reset,
}

impl Keys {
    /// The one command that the pressed keys stand for: `0` selects the
    /// eraser, `Z` resets, `2` selects sand, `1` stone and `3` water, the
    /// earlier in this list winning when several are pressed.
    pub open spec fn spec_command(self) -> Option<Command> {
        if self.zero {
            Some(Command::Select(ParticleType::Empty))
        } else if self.z {
            Some(Command::Reset)
        } else if self.two {
            Some(Command::Select(ParticleType::Sand))
        } else if self.one {
            Some(Command::Select(ParticleType::Stone))
        } else if self.three {
            Some(Command::Select(ParticleType::Water))
        } else {
            None
        }
    }

    #[verifier::when_used_as_spec(spec_command)]
    pub fn command(self) -> (command: Option<Command>)
        ensures
            command == self.spec_command(),
    {
        if self.zero {
            Some(Command::Select(ParticleType::Empty))
        } else if self.z {
            Some(Command::Reset)
        } else if self.two {
            Some(Command::Select(ParticleType::Sand))
        } else if self.one {
            Some(Command::Select(ParticleType::Stone))
        } else if self.three {
            Some(Command::Select(ParticleType::Water))
        } else {
            None
        }
    }
}

impl Brush {
    /// The brush a session starts with: stone in hand.
    pub open spec fn spec_new() -> Brush {
        Brush { tool: ParticleType::Stone, draw_flag: true }
    }

    #[verifier::when_used_as_spec(spec_new)]
    pub fn new() -> (brush: Brush)
        ensures
            brush == Brush::spec_new(),
    {
        Brush { tool: ParticleType::Stone, draw_flag: true }
    }

    /// Whether the tool lays a particle only on every other stroke.
    pub open spec fn grainy(self) -> bool {
        self.tool is Sand || self.tool is Water
    }

    /// What a stroke on an empty cell lays there, if anything.
    pub open spec fn lays(self) -> Option<Cell> {
        match self.tool {
            ParticleType::Stone => Some(Cell::stone()),
            ParticleType::Sand => if self.draw_flag {
                Some(Cell::sand())
            } else {
                None
            },
            ParticleType::Water => if self.draw_flag {
                Some(Cell::water())
            } else {
                None
            },
            _ => None,
        }
    }

    /// The grid after a stroke at `p`: an empty cell receives what the tool
    /// lays; an occupied cell is emptied by the eraser unless it is wall.
    pub open spec fn stroke_grid(self, grid: GridView, p: Pos) -> GridView {
        if grid.at(p).particle_type is Empty {
            match self.lays() {
                Some(cell) => grid.put(p, cell),
                None => grid,
            }
        } else if self.tool is Empty && !(grid.at(p).particle_type is Boundary) {
            grid.put(p, Cell::empty())
        } else {
            grid
        }
    }

    /// The brush after a stroke at `p`: a grainy tool on an empty cell flips
    /// its flag.
    pub open spec fn stroke_brush(self, grid: GridView, p: Pos) -> Brush {
        if grid.at(p).particle_type is Empty && self.grainy() {
            Brush { tool: self.tool, draw_flag: !self.draw_flag }
        } else {
            self
        }
    }

    /// The brush after a command: a selection changes the tool in hand.
    pub open spec fn after_command(self, command: Command) -> Brush {
        match command {
            Command::Select(tool) => Brush { tool, draw_flag: self.draw_flag },
            Command::Reset => self,
        }
    }
}

/// The grid after a command: a reset empties it and stamps the wall afresh.
pub open spec fn grid_after_command(grid: GridView, command: Command) -> GridView {
    match command {
        Command::Select(_) => grid,
        Command::Reset => GridView::blank(grid.width, grid.height).stamped(),
    }
}

/// One stroke of the brush on the cell at `(row, col)`.
pub fn paint(grid: &mut Grid, brush: &mut Brush, row: usize, col: usize)
    requires
        old(grid).wf(),
        row < old(grid)@.height,
        col < old(grid)@.width,
    ensures
        final(grid).wf(),
        final(grid)@ == old(brush).stroke_grid(
            old(grid)@,
            Pos { row: row as int, col: col as int },
        ),
        *final(brush) == old(brush).stroke_brush(
            old(grid)@,
            Pos { row: row as int, col: col as int },
        ),
{
    let under = grid.get(row, col).particle_type;
    if under == ParticleType::Empty {
        match brush.tool {
            ParticleType::Stone => {
                grid.set(row, col, Cell::stone());
            },
            ParticleType::Sand => {
                if brush.draw_flag {
                    grid.set(row, col, Cell::sand());
                }
                brush.draw_flag = !brush.draw_flag;
            },
            ParticleType::Water => {
                if brush.draw_flag {
                    grid.set(row, col, Cell::water());
                }
                brush.draw_flag = !brush.draw_flag;
            },
            _ => {},
        }
    } else if brush.tool == ParticleType::Empty {
        if under != ParticleType::Boundary {
            grid.set(row, col, Cell::empty());
        }
    }
}

/// Carries out a command.
pub fn apply_command(grid: &mut Grid, brush: &mut Brush, command: Command)
    requires
        old(grid).wf(),
    ensures
        final(grid).wf(),
        final(grid)@ == grid_after_command(old(grid)@, command),
        *final(brush) == old(brush).after_command(command),
{
    match command {
        Command::Select(tool) => {
            brush.tool = tool;
        },
        Command::Reset => {
            grid.reset();
        },
    }
}

/// Handles the input of one frame: the pointer at pixel `(pointer_x,
/// pointer_y)`, whether its primary button is down, and the keys pressed.
/// A stroke is painted on the cell under the pointer if the button is down,
/// then the key command, if any, is carried out. Returns the column and the
/// row of the cell under the pointer.
pub fn input_handler(
    grid: &mut Grid,
    brush: &mut Brush,
    pointer_x: usize,
    pointer_y: usize,
    button_down: bool,
    keys: Keys,
) -> (under: (usize, usize))
    requires
        old(grid).wf(),
        button_down ==> cell_index(pointer_x as int) < old(grid)@.width && cell_index(
            pointer_y as int,
        ) < old(grid)@.height,
    ensures
        final(grid).wf(),
        under.0 == cell_index(pointer_x as int),
        under.1 == cell_index(pointer_y as int),
        ({
            let p = Pos { row: under.1 as int, col: under.0 as int };
            let stroked = if button_down {
                old(brush).stroke_grid(old(grid)@, p)
            } else {
                old(grid)@
            };
            let held = if button_down {
                old(brush).stroke_brush(old(grid)@, p)
            } else {
                *old(brush)
            };
            match keys.command() {
                Some(command) => final(grid)@ == grid_after_command(stroked, command)
                    && *final(brush) == held.after_command(command),
                None => final(grid)@ == stroked && *final(brush) == held,
            }
        }),
{
    let col = cell_of_pixel(pointer_x);
    let row = cell_of_pixel(pointer_y);
    if button_down {
        paint(grid, brush, row, col);
    }
    match keys.command() {
        Some(command) => {
            apply_command(grid, brush, command);
        },
        None => {},
    }
    (col, row)
}

} // verus!
