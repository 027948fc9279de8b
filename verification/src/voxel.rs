//! The built-in block kinds.

use vstd::prelude::*;

verus! {

#[derive(Eq, PartialEq, Copy, Clone, Debug, Structural)]
pub enum BlockType {
    Air,
    Grass,
    Dirt,
}

impl Default for BlockType {
    fn default() -> (b: Self)
        ensures
            b == BlockType::Air,
    {
        BlockType::Air
    }
}

impl BlockType {
    pub open spec fn solid(self) -> bool {
        self != BlockType::Air
    }

    #[must_use]
    pub fn is_solid(&self) -> (r: bool)
        ensures
            r == self.solid(),
    {
        match self {
            Self::Air => false,
            Self::Grass => true,
            Self::Dirt => true,
        }
    }

    #[must_use]
    pub fn is_air(&self) -> (r: bool)
        ensures
            r == !self.solid(),
    {
        !self.is_solid()
    }

    /// The block kinds that produce faces, in a fixed order.
    pub open spec fn meshable_spec() -> Seq<BlockType> {
        seq![BlockType::Grass, BlockType::Dirt]
    }

    /// The block kinds that produce faces: exactly the solid ones.
    #[must_use]
    pub fn meshable_block_types() -> (v: Vec<BlockType>)
        ensures
            v@ == Self::meshable_spec(),
            forall|b: BlockType| b.solid() <==> v@.contains(b),
    {
        let v = vec![BlockType::Grass, BlockType::Dirt];
        proof {
            assert(v@[0] == BlockType::Grass);
            assert(v@[1] == BlockType::Dirt);
            assert(v@ =~= Self::meshable_spec());
        }
        v
    }
}

#[derive(Copy, Clone, Debug)]
pub struct BlockData {
    pub block_type: BlockType,
}

impl Default for BlockData {
    fn default() -> (d: Self)
        ensures
            d.block_type == BlockType::Air,
    {
        BlockData { block_type: BlockType::Air }
    }
}

} // verus!
