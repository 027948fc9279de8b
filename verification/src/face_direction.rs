//! The six directions a face can look, and how each maps plane coordinates
//! to voxel coordinates.

use vstd::prelude::*;
use crate::lod::Lod;
use crate::position::Position;

verus! {

/// The direction of a face, for mapping plane coordinates to voxels.
#[derive(Copy, Clone, Debug, Eq, PartialEq, Hash, Structural)]
pub enum FaceDir {
    Up,
    Down,
    Left,
    Right,
    Forward,
    Back,
}

impl FaceDir {
    /// The number under which the renderer knows this direction.
    pub open spec fn normal_index_spec(self) -> u32 {
        match self {
            FaceDir::Left => 0u32,
            FaceDir::Right => 1u32,
            FaceDir::Down => 2u32,
            FaceDir::Up => 3u32,
            FaceDir::Forward => 4u32,
            FaceDir::Back => 5u32,
        }
    }

    /// The unit vector from a voxel to the neighbour this face looks at.
    pub open spec fn normal(self) -> Position {
        match self {
            FaceDir::Up => Position { x: 0, y: 1, z: 0 },
            FaceDir::Down => Position { x: 0, y: -1i32, z: 0 },
            FaceDir::Left => Position { x: -1i32, y: 0, z: 0 },
            FaceDir::Right => Position { x: 1, y: 0, z: 0 },
            FaceDir::Forward => Position { x: 0, y: 0, z: -1i32 },
            FaceDir::Back => Position { x: 0, y: 0, z: 1 },
        }
    }

    /// True for the three directions that look toward greater coordinates.
    pub open spec fn ascending(self) -> bool {
        self == FaceDir::Up || self == FaceDir::Right || self == FaceDir::Back
    }

    /// The voxel that owns the face at `(x, y)` of the plane `axis`: the
    /// plane's index is the coordinate along the direction's own axis.
    pub open spec fn plane_to_voxel(self, axis: int, x: int, y: int) -> (int, int, int) {
        match self {
            FaceDir::Up | FaceDir::Down => (x, axis, y),
            FaceDir::Left | FaceDir::Right => (axis, y, x),
            FaceDir::Forward | FaceDir::Back => (x, y, axis),
        }
    }

    /// normal data is packed in the shader
    #[must_use]
    pub fn normal_index(&self) -> (n: u32)
        ensures
            n == self.normal_index_spec(),
            n < 6,
    {
        match self {
            Self::Left => 0u32,
            Self::Right => 1u32,
            Self::Down => 2u32,
            Self::Up => 3u32,
            Self::Forward => 4u32,
            Self::Back => 5u32,
        }
    }

    /// direction to sample face culling
    #[must_use]
    pub fn air_sample_dir(&self) -> (d: Position)
        ensures
            d == self.normal(),
    {
        match self {
            Self::Up => Position::new(0, 1, 0),
            Self::Down => Position::new(0, -1, 0),
            Self::Left => Position::new(-1, 0, 0),
            Self::Right => Position::new(1, 0, 0),
            Self::Forward => Position::new(0, 0, -1),
            Self::Back => Position::new(0, 0, 1),
        }
    }

    /// offset input position with this face direction: the corner of the
    /// face, which for an ascending direction lies one step past the voxel.
    #[must_use]
    pub fn world_to_sample(&self, axis: i32, x: i32, y: i32, _lod: &Lod) -> (p: Position)
        requires
            self.ascending() ==> axis < i32::MAX,
        ensures
            ({
                let v = self.plane_to_voxel(axis as int, x as int, y as int);
                let step: int = if self.ascending() { 1 } else { 0 };
                &&& p.x == v.0 + step * self.normal().x
                &&& p.y == v.1 + step * self.normal().y
                &&& p.z == v.2 + step * self.normal().z
            }),
    {
        match self {
            Self::Up => Position::new(x, axis + 1, y),
            Self::Down => Position::new(x, axis, y),
            Self::Left => Position::new(axis, y, x),
            Self::Right => Position::new(axis + 1, y, x),
            Self::Forward => Position::new(x, y, axis),
            Self::Back => Position::new(x, y, axis + 1),
        }
    }

    /// The voxel that owns the face at `(x, y)` of the plane `axis`.
    #[must_use]
    pub fn voxel_of(&self, axis: i32, x: i32, y: i32) -> (p: Position)
        ensures
            (p.x as int, p.y as int, p.z as int) == self.plane_to_voxel(
                axis as int,
                x as int,
                y as int,
            ),
    {
        match self {
            Self::Up | Self::Down => Position::new(x, axis, y),
            Self::Left | Self::Right => Position::new(axis, y, x),
            Self::Forward | Self::Back => Position::new(x, y, axis),
        }
    }

    /// returns true if vertices should be reverse.
    /// (needed because indices are always same)
    #[must_use]
    pub fn reverse_order(&self) -> (r: bool)
        ensures
            r <==> (self == FaceDir::Up || self == FaceDir::Right || self == FaceDir::Forward),
    {
        match self {
            Self::Up => true,
            Self::Down => false,
            Self::Left => false,
            Self::Right => true,
            Self::Forward => true,
            Self::Back => false,
        }
    }

    /// get delta for traversing the previous axis pos
    #[must_use]
    pub fn negate_axis(&self) -> (d: i32)
        ensures
            d == (match self {
                FaceDir::Up => -1int,
                FaceDir::Right => -1int,
                FaceDir::Back => 1int,
                _ => 0int,
            }),
    {
        match self {
            Self::Up => -1,
            Self::Down => 0,
            Self::Left => 0,
            Self::Right => -1,
            Self::Forward => 0,
            Self::Back => 1,
        }
    }
}

} // verus!
