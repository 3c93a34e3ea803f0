//! Particle kinds and the cell value that a grid slot holds.

use vstd::prelude::*;

verus! {

/// Horizontal speed that a freshly created water particle starts with.
pub const DISPERSION_RATE: u32 = 10;

/// Horizontal speed below which a sliding water particle no longer slows down.
pub const SPEED_FLOOR: u32 = 3;

/// Rows that a mobile particle falls per frame.
pub const GRAVITY_STEP: u32 = 1;

/// The closed set of things a cell can hold.
#[derive(Clone, Copy, Debug, PartialEq, Eq, Structural)]
pub enum ParticleType {
    Empty,
    Sand,
    Stone,
    Water,
    Boundary,
}

impl ParticleType {
    /// Kinds that have a movement rule.
    pub open spec fn mobile(self) -> bool {
        self is Sand || self is Water
    }

    /// Kinds that count as matter: everything but empty space and the wall.
    pub open spec fn matter(self) -> bool {
        !(self is Empty) && !(self is Boundary)
    }

    pub fn is_mobile(self) -> (b: bool)
        ensures
            b == self.mobile(),
    {
        match self {
            ParticleType::Sand => true,
            ParticleType::Water => true,
            _ => false,
        }
    }

    pub fn is_matter(self) -> (b: bool)
        ensures
            b == self.matter(),
    {
        match self {
            ParticleType::Empty => false,
            ParticleType::Boundary => false,
            _ => true,
        }
    }
}

/// Speed in cells per frame: `x` sideways, `y` downwards.
#[derive(Clone, Copy, Debug, PartialEq, Eq, Structural)]
pub struct Velocity {
    pub x: u32,
    pub y: u32,
}

/// One grid slot: what it holds and how fast that moves.
#[derive(Clone, Copy, Debug, PartialEq, Eq, Structural)]
pub struct Cell {
    pub particle_type: ParticleType,
    pub velocity: Velocity,
}

/// The speed a water particle keeps after a sideways move: one less than
/// before, but never pushed below the floor.
pub open spec fn decayed_speed(speed: u32) -> u32 {
    if speed > SPEED_FLOOR {
        (speed - 1) as u32
    } else {
        speed
    }
}

impl Cell {
    pub open spec fn spec_empty() -> Cell {
        Cell { particle_type: ParticleType::Empty, velocity: Velocity { x: 0, y: 0 } }
    }

    pub open spec fn spec_sand() -> Cell {
        Cell { particle_type: ParticleType::Sand, velocity: Velocity { x: 0, y: GRAVITY_STEP } }
    }

    pub open spec fn spec_water() -> Cell {
        Cell {
            particle_type: ParticleType::Water,
            velocity: Velocity { x: DISPERSION_RATE, y: GRAVITY_STEP },
        }
    }

    pub open spec fn spec_stone() -> Cell {
        Cell { particle_type: ParticleType::Stone, velocity: Velocity { x: 0, y: 0 } }
    }

    pub open spec fn spec_boundary() -> Cell {
        Cell { particle_type: ParticleType::Boundary, velocity: Velocity { x: 0, y: 0 } }
    }

    /// The same particle after a sideways move.
    pub open spec fn slowed(self) -> Cell {
        Cell {
            particle_type: self.particle_type,
            velocity: Velocity { x: decayed_speed(self.velocity.x), y: self.velocity.y },
        }
    }

    #[verifier::when_used_as_spec(spec_empty)]
    pub fn empty() -> (cell: Cell)
        ensures
            cell == Cell::spec_empty(),
    {
        Cell { particle_type: ParticleType::Empty, velocity: Velocity { x: 0, y: 0 } }
    }

    #[verifier::when_used_as_spec(spec_sand)]
    pub fn sand() -> (cell: Cell)
        ensures
            cell == Cell::spec_sand(),
    {
        Cell { particle_type: ParticleType::Sand, velocity: Velocity { x: 0, y: GRAVITY_STEP } }
    }

    #[verifier::when_used_as_spec(spec_water)]
    pub fn water() -> (cell: Cell)
        ensures
            cell == Cell::spec_water(),
    {
        Cell {
            particle_type: ParticleType::Water,
            velocity: Velocity { x: DISPERSION_RATE, y: GRAVITY_STEP },
        }
    }

    #[verifier::when_used_as_spec(spec_stone)]
    pub fn stone() -> (cell: Cell)
        ensures
            cell == Cell::spec_stone(),
    {
        Cell { particle_type: ParticleType::Stone, velocity: Velocity { x: 0, y: 0 } }
    }

    #[verifier::when_used_as_spec(spec_boundary)]
    pub fn boundary() -> (cell: Cell)
        ensures
            cell == Cell::spec_boundary(),
    {
        Cell { particle_type: ParticleType::Boundary, velocity: Velocity { x: 0, y: 0 } }
    }

    /// Applies the speed decay of a sideways move.
    pub fn slow_down(self) -> (cell: Cell)
        ensures
            cell == self.slowed(),
    {
        let x: u32 = if self.velocity.x > SPEED_FLOOR {
            self.velocity.x - 1
        } else {
            self.velocity.x
        };
        Cell { particle_type: self.particle_type, velocity: Velocity { x, y: self.velocity.y } }
    }
}

} // verus!
