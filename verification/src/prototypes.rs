//! Block prototypes and the registry that maps block identifiers to them.

use vstd::prelude::*;
use crate::chunk::BlockId;
use crate::color::Rgba;

verus! {

/// Most prototypes a registry can hold: one per block identifier.
pub const MAX_BLOCK_PROTOTYPES: usize = 65536;

/// A prototype as it is handed in, before it has an identifier.
pub trait RawPrototype {

}

/// A prototype that belongs to a registry.
pub trait Prototype {

}

/// A finished set of prototypes, found by name.
pub trait Prototypes {
    type T: Prototype;

    fn get(&self, name: &str) -> Option<&Self::T>;
}

/// A block kind as handed to the registry: its properties, without identifier.
#[derive(Debug)]
pub struct RawBlockPrototype {
    pub name: String,
    pub is_transparent: bool,
    pub is_meshable: bool,
    pub color: Rgba,
}

impl RawPrototype for RawBlockPrototype {

}

/// A registered block kind.
#[derive(Debug)]
pub struct BlockPrototype {
    pub id: BlockId,
    pub name: String,
    pub is_transparent: bool,
    pub is_meshable: bool,
    pub color: Rgba,
}

impl Prototype for BlockPrototype {

}

/// Why a prototype was not registered.
#[derive(Debug, Clone, Copy, PartialEq, Eq, Structural)]
pub enum PrototypeError {
    /// A prototype of that name is registered already.
    DuplicateName,
    /// Every block identifier is taken.
    RegistryFull,
}

/// True when entry `i` carries identifier `i` and no name occurs twice.
pub open spec fn well_numbered(blocks: Seq<BlockPrototype>) -> bool {
    &&& blocks.len() <= MAX_BLOCK_PROTOTYPES
    &&& forall|i: int| 0 <= i < blocks.len() ==> (#[trigger] blocks[i]).id == i
    &&& forall|i: int, j: int|
        0 <= i < j < blocks.len() ==> (#[trigger] blocks[i]).name@ != (#[trigger] blocks[j]).name@
}

/// True when one of `blocks` is called `name`.
pub open spec fn has_name(blocks: Seq<BlockPrototype>, name: Seq<char>) -> bool {
    exists|i: int| 0 <= i < blocks.len() && (#[trigger] blocks[i]).name@ == name
}

/// The place of `name` among `blocks`, if it occurs.
fn position_of(blocks: &Vec<BlockPrototype>, name: &String) -> (r: Option<usize>)
    ensures
        r is Some <==> has_name(blocks@, name@),
        r is Some ==> r->0 < blocks.len() && blocks[r->0 as int].name@ == name@,
{
    let mut i: usize = 0;
    while i < blocks.len()
        invariant
            i <= blocks.len(),
            forall|j: int| 0 <= j < i ==> (#[trigger] blocks[j]).name@ != name@,
        decreases blocks.len() - i,
    {
        if blocks[i].name == *name {
            return Some(i);
        }
        i += 1;
    }
    None
}

/// Prototypes in the order of their identifiers.
struct Numbered {
    blocks: Vec<BlockPrototype>,
}

impl Numbered {
    #[verifier::type_invariant]
    spec fn inv(self) -> bool {
        well_numbered(self.blocks@)
    }
}

/// The block registry: every registered prototype, by identifier.
/// Built once by a [`BlockPrototypesBuilder`] and read thereafter.
pub struct BlockPrototypes {
    numbered: Numbered,
}

impl BlockPrototypes {
    /// The prototypes, each at the index that is its identifier.
    pub closed spec fn view(&self) -> Seq<BlockPrototype> {
        self.numbered.blocks@
    }

    /// True when `id` names a registered block kind.
    pub open spec fn knows(&self, id: BlockId) -> bool {
        id < self@.len()
    }

    /// True when voxels of kind `id` hide what lies behind them.
    pub open spec fn is_solid(&self, id: BlockId) -> bool {
        self.knows(id) && !self@[id as int].is_transparent
    }

    /// The number of registered prototypes. Identifiers run from zero up to
    /// it, and entry `i` has identifier `i`.
    #[must_use]
    pub fn len(&self) -> (n: usize)
        ensures
            n == self@.len(),
            well_numbered(self@),
    {
        proof {
            use_type_invariant(&self.numbered);
        }
        self.numbered.blocks.len()
    }

    /// The prototype with the given identifier.
    #[must_use]
    pub fn by_id(&self, id: BlockId) -> (r: Option<&BlockPrototype>)
        ensures
            r is Some <==> self.knows(id),
            r is Some ==> *r->0 == self@[id as int] && r->0.id == id,
    {
        proof {
            use_type_invariant(&self.numbered);
        }
        if (id as usize) < self.numbered.blocks.len() {
            Some(&self.numbered.blocks[id as usize])
        } else {
            None
        }
    }

    /// The prototype of a registered identifier.
    #[must_use]
    pub fn block(&self, id: BlockId) -> (block: &BlockPrototype)
        requires
            self.knows(id),
        ensures
            *block == self@[id as int],
            block.id == id,
    {
        proof {
            use_type_invariant(&self.numbered);
        }
        &self.numbered.blocks[id as usize]
    }

    /// The prototype with the given name.
    #[must_use]
    pub fn get_by_name(&self, name: &str) -> (r: Option<&BlockPrototype>)
        ensures
            r is Some <==> has_name(self@, name@),
            r is Some ==> r->0.name@ == name@ && self.knows(r->0.id) && self@[r->0.id as int]
                == *r->0,
    {
        proof {
            use_type_invariant(&self.numbered);
        }
        let owned = name.to_owned();
        match position_of(&self.numbered.blocks, &owned) {
            Some(i) => Some(&self.numbered.blocks[i]),
            None => None,
        }
    }
}

impl Prototypes for BlockPrototypes {
    type T = BlockPrototype;

    fn get(&self, name: &str) -> (r: Option<&BlockPrototype>)
        ensures
            r is Some <==> has_name(self@, name@),
            r is Some ==> r->0.name@ == name@ && self.knows(r->0.id) && self@[r->0.id as int]
                == *r->0,
    {
        self.get_by_name(name)
    }
}

/// Collects prototypes and numbers them in the order of their arrival.
pub struct BlockPrototypesBuilder {
    numbered: Numbered,
}

impl BlockPrototypesBuilder {
    /// The prototypes registered so far.
    pub closed spec fn view(&self) -> Seq<BlockPrototype> {
        self.numbered.blocks@
    }

    #[must_use]
    pub fn new() -> (b: Self)
        ensures
            b@.len() == 0,
    {
        BlockPrototypesBuilder { numbered: Numbered { blocks: Vec::new() } }
    }

    /// Registers a prototype under the next free identifier and returns that
    /// identifier. A name can be registered once, and there are
    /// `MAX_BLOCK_PROTOTYPES` identifiers.
    pub fn add(&mut self, prototype: RawBlockPrototype) -> (r: Result<BlockId, PrototypeError>)
        ensures
            match r {
                Ok(id) => {
                    &&& !has_name(old(self)@, prototype.name@)
                    &&& id == old(self)@.len()
                    &&& final(self)@ == old(self)@.push(
                        BlockPrototype {
                            id,
                            name: prototype.name,
                            is_transparent: prototype.is_transparent,
                            is_meshable: prototype.is_meshable,
                            color: prototype.color,
                        },
                    )
                },
                Err(PrototypeError::DuplicateName) => {
                    &&& has_name(old(self)@, prototype.name@)
                    &&& final(self)@ == old(self)@
                },
                Err(PrototypeError::RegistryFull) => {
                    &&& !has_name(old(self)@, prototype.name@)
                    &&& old(self)@.len() == MAX_BLOCK_PROTOTYPES
                    &&& final(self)@ == old(self)@
                },
            },
    {
        proof {
            use_type_invariant(&self.numbered);
        }
        if position_of(&self.numbered.blocks, &prototype.name).is_some() {
            return Err(PrototypeError::DuplicateName);
        }
        let next = self.numbered.blocks.len();
        if next >= MAX_BLOCK_PROTOTYPES {
            return Err(PrototypeError::RegistryFull);
        }
        let id = next as BlockId;
        let block = BlockPrototype {
            id,
            name: prototype.name,
            is_transparent: prototype.is_transparent,
            is_meshable: prototype.is_meshable,
            color: prototype.color,
        };
        let mut taken = Numbered { blocks: Vec::new() };
        core::mem::swap(&mut self.numbered, &mut taken);
        let mut blocks = taken.blocks;
        blocks.push(block);
        self.numbered = Numbered { blocks };
        Ok(id)
    }

    /// The registry of everything that was added.
    #[must_use]
    pub fn build(self) -> (registry: BlockPrototypes)
        ensures
            registry@ == self@,
    {
        BlockPrototypes { numbered: self.numbered }
    }
}

} // verus!
