//! The tie-break between the two sideways directions, and the random draw
//! behind it.

use vstd::prelude::*;
use rand::Rng;

verus! {

/// Draws below this bound are taken out of a hundred.
pub const DRAW_RANGE: u32 = 100;

/// Draws under this threshold choose the right-hand side.
pub const RIGHT_SHARE: u32 = 50;

/// A sideways direction.
#[derive(Clone, Copy, Debug, PartialEq, Eq, Structural)]
pub enum Side {
    Left,
    Right,
}

impl Side {
    /// The column next to `col` on this side.
    pub open spec fn beside(self, col: int) -> int {
        match self {
            Side::Left => col - 1,
            Side::Right => col + 1,
        }
    }
}

impl Side {
    /// The column next to `col` on this side, if a `usize` can name it.
    pub fn step(self, col: usize) -> (next: Option<usize>)
        ensures
            match next {
                Some(c) => c == self.beside(col as int),
                None => self.beside(col as int) < 0 || self.beside(col as int) > usize::MAX,
            },
    {
        match self {
            Side::Left => col.checked_sub(1),
            Side::Right => col.checked_add(1),
        }
    }
}

/// How a blocked particle picks the side it tries.
#[derive(Clone, Copy, Debug, PartialEq, Eq, Structural)]
pub enum TieBreak {
    /// Each evaluation draws a side afresh, right and left equally likely.
    Random,
    /// Every evaluation tries the given side.
    Toward(Side),
}

impl TieBreak {
    /// One outcome this policy can produce.
    pub open spec fn example(self) -> Side {
        match self {
            TieBreak::Random => Side::Right,
            TieBreak::Toward(fixed) => fixed,
        }
    }

    /// `side` is an outcome this policy can produce.
    pub open spec fn allows(self, side: Side) -> bool {
        match self {
            TieBreak::Random => true,
            TieBreak::Toward(fixed) => side == fixed,
        }
    }

    /// The side to try for one evaluation.
    pub fn pick(self) -> (side: Side)
        ensures
            self.allows(side),
    {
        match self {
            TieBreak::Random => side_for_draw(random_below(DRAW_RANGE)),
            TieBreak::Toward(fixed) => fixed,
        }
    }
}

/// The side that a draw out of a hundred stands for.
pub fn side_for_draw(draw: u32) -> (side: Side)
    ensures
        side == (if draw < RIGHT_SHARE {
            Side::Right
        } else {
            Side::Left
        }),
{
    if draw < RIGHT_SHARE {
        Side::Right
    } else {
        Side::Left
    }
}

/// Calls `rand::thread_rng().gen_range(0..bound)`: a number drawn uniformly
/// from the thread-local generator. Trusted, not proved: the draw lies in
/// `0..bound`, as `Rng::gen_range` documents for a half-open range. The range
/// must not be empty, or `gen_range` panics. Nothing is claimed about which
/// number comes back, and two calls may differ. The generator is seeded from
/// the operating system on first use and panics if that source fails.
#[verifier::external_body]
fn random_below(bound: u32) -> (draw: u32)
    requires
        bound > 0,
    ensures
        draw < bound,
{
    rand::thread_rng().gen_range(0..bound)
}

} // verus!
