//! Single faces of a voxel, with their four corners.

use vstd::prelude::*;
use crate::color::Rgba;
use crate::position::Position;

verus! {

/// The six directions a face of a voxel can look.
#[derive(Copy, Clone, Debug, PartialEq, Eq, Structural)]
pub enum Direction {
    Left,
    Right,
    Down,
    Up,
    Back,
    Forward,
}

impl Direction {
    /// The direction that looks the other way.
    pub open spec fn opposite(self) -> Direction {
        match self {
            Direction::Left => Direction::Right,
            Direction::Right => Direction::Left,
            Direction::Down => Direction::Up,
            Direction::Up => Direction::Down,
            Direction::Back => Direction::Forward,
            Direction::Forward => Direction::Back,
        }
    }

    /// The number under which the renderer knows this direction.
    pub open spec fn normal_spec(self) -> int {
        match self {
            Direction::Left => 0,
            Direction::Right => 1,
            Direction::Down => 2,
            Direction::Up => 3,
            Direction::Back => 4,
            Direction::Forward => 5,
        }
    }

    /// normal data is packed in the shader
    #[must_use]
    pub fn get_normal(&self) -> (n: i32)
        ensures
            n == self.normal_spec(),
    {
        match self {
            Self::Left => 0i32,
            Self::Right => 1i32,
            Self::Down => 2i32,
            Self::Up => 3i32,
            Self::Back => 4i32,
            Self::Forward => 5i32,
        }
    }

    #[must_use]
    pub fn get_opposite(self) -> (d: Self)
        ensures
            d == self.opposite(),
    {
        match self {
            Self::Left => Self::Right,
            Self::Right => Self::Left,
            Self::Down => Self::Up,
            Self::Up => Self::Down,
            Self::Back => Self::Forward,
            Self::Forward => Self::Back,
        }
    }
}

/// Opposite directions come in pairs: the opposite of the opposite is the
/// direction itself, their numbers differ in the lowest bit alone, and no
/// direction is its own opposite.
pub proof fn lemma_opposite_pairs(d: Direction)
    ensures
        d.opposite().opposite() == d,
        d.opposite() != d,
        d.opposite().normal_spec() / 2 == d.normal_spec() / 2,
{
}

/// plane data with 4 vertices
pub struct Quad {
    pub color: Rgba,
    pub direction: Direction,
    pub corners: [[i32; 3]; 4],
}

/// The corner `(x + dx, y + dy, z + dz)` of the voxel at `pos`.
pub open spec fn corner(pos: Position, dx: int, dy: int, dz: int) -> Seq<i32> {
    seq![(pos.x + dx) as i32, (pos.y + dy) as i32, (pos.z + dz) as i32]
}

/// The four corners of the face of the voxel at `pos` that is drawn for
/// `direction`, in drawing order. Each face lies in the plane through `pos`
/// across the direction's axis; the faces of opposite directions have the
/// same corners in opposite order.
pub open spec fn quad_corners(direction: Direction, pos: Position) -> Seq<Seq<i32>> {
    match direction {
        Direction::Left => seq![
            corner(pos, 0, 0, 0),
            corner(pos, 0, 0, 1),
            corner(pos, 0, 1, 1),
            corner(pos, 0, 1, 0),
        ],
        Direction::Right => seq![
            corner(pos, 0, 1, 0),
            corner(pos, 0, 1, 1),
            corner(pos, 0, 0, 1),
            corner(pos, 0, 0, 0),
        ],
        Direction::Down => seq![
            corner(pos, 0, 0, 0),
            corner(pos, 1, 0, 0),
            corner(pos, 1, 0, 1),
            corner(pos, 0, 0, 1),
        ],
        Direction::Up => seq![
            corner(pos, 0, 0, 1),
            corner(pos, 1, 0, 1),
            corner(pos, 1, 0, 0),
            corner(pos, 0, 0, 0),
        ],
        Direction::Back => seq![
            corner(pos, 0, 0, 0),
            corner(pos, 0, 1, 0),
            corner(pos, 1, 1, 0),
            corner(pos, 1, 0, 0),
        ],
        Direction::Forward => seq![
            corner(pos, 1, 0, 0),
            corner(pos, 1, 1, 0),
            corner(pos, 0, 1, 0),
            corner(pos, 0, 0, 0),
        ],
    }
}

impl Quad {
    /// The corners of this quad, as sequences of three coordinates.
    pub open spec fn corners_spec(&self) -> Seq<Seq<i32>> {
        Seq::new(4, |i: int| self.corners@[i]@)
    }

    // the input position is assumed to be a voxel's (0,0,0) pos
    // therefore right / up / forward are offset by 1
    #[inline]
    #[must_use]
    pub fn from_direction(direction: Direction, pos: Position, color: Rgba) -> (q: Self)
        requires
            pos.x < i32::MAX,
            pos.y < i32::MAX,
            pos.z < i32::MAX,
        ensures
            q.color == color,
            q.direction == direction,
            q.corners_spec() == quad_corners(direction, pos),
    {
        let corners = match direction {
            Direction::Left => [
                [pos.x, pos.y, pos.z],
                [pos.x, pos.y, pos.z + 1],
                [pos.x, pos.y + 1, pos.z + 1],
                [pos.x, pos.y + 1, pos.z],
            ],
            Direction::Right => [
                [pos.x, pos.y + 1, pos.z],
                [pos.x, pos.y + 1, pos.z + 1],
                [pos.x, pos.y, pos.z + 1],
                [pos.x, pos.y, pos.z],
            ],
            Direction::Down => [
                [pos.x, pos.y, pos.z],
                [pos.x + 1, pos.y, pos.z],
                [pos.x + 1, pos.y, pos.z + 1],
                [pos.x, pos.y, pos.z + 1],
            ],
            Direction::Up => [
                [pos.x, pos.y, pos.z + 1],
                [pos.x + 1, pos.y, pos.z + 1],
                [pos.x + 1, pos.y, pos.z],
                [pos.x, pos.y, pos.z],
            ],
            Direction::Back => [
                [pos.x, pos.y, pos.z],
                [pos.x, pos.y + 1, pos.z],
                [pos.x + 1, pos.y + 1, pos.z],
                [pos.x + 1, pos.y, pos.z],
            ],
            Direction::Forward => [
                [pos.x + 1, pos.y, pos.z],
                [pos.x + 1, pos.y + 1, pos.z],
                [pos.x, pos.y + 1, pos.z],
                [pos.x, pos.y, pos.z],
            ],
        };
        let q = Quad { color, direction, corners };
        proof {
            let got = q.corners_spec();
            let want = quad_corners(direction, pos);
            assert(got.len() == want.len());
            assert forall|i: int| 0 <= i < 4 implies got[i] =~= want[i] by {
                assert(q.corners@[i]@.len() == 3);
            }
            assert(got =~= want);
        }
        q
    }
}

} // verus!
