//! Levels of detail.

use vstd::prelude::*;

verus! {

/// level of detail
#[derive(Copy, Clone, PartialEq, Eq, Structural)]
pub enum Lod {
    L32,
    L16,
    L8,
    L4,
    L2,
}

impl Default for Lod {
    fn default() -> (l: Self)
        ensures
            l == Lod::L32,
    {
        Lod::L32
    }
}

impl Lod {
    /// The amount of voxels per axis at this level.
    pub open spec fn size_spec(self) -> int {
        match self {
            Lod::L32 => 32,
            Lod::L16 => 16,
            Lod::L8 => 8,
            Lod::L4 => 4,
            Lod::L2 => 2,
        }
    }

    /// the amount of voxels per axis
    #[must_use]
    pub fn size(self) -> (s: i32)
        ensures
            s == self.size_spec(),
    {
        match self {
            Self::L32 => 32,
            Self::L16 => 16,
            Self::L8 => 8,
            Self::L4 => 4,
            Self::L2 => 2,
        }
    }

    /// how much to multiply to reach next voxel
    /// lower lod gives higher jump
    #[must_use]
    pub fn jump_index(self) -> (j: i32)
        ensures
            j * self.size_spec() == 32,
    {
        match self {
            Self::L32 => 1,
            Self::L16 => 2,
            Self::L8 => 4,
            Self::L4 => 8,
            Self::L2 => 16,
        }
    }
}

} // verus!
