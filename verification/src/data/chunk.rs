//! A chunk: a box of blocks with their meta data, kept persistently.

use crate::data::block::{Block, BlockDictonary, MetaBlock, MetaData};
use crate::storage::cuboid::Cuboid;
use crate::storage::purse::share;
use std::sync::Arc;
use vstd::prelude::*;

verus! {

/// The edge of a chunk where none is given.
pub const CHUNK_SIZE: usize = 256;

/// A persistent box of `width` by `height` by `depth` places, each with a
/// block and its meta data. It may carry a dictionary for the names of its
/// blocks, which it never reads.
pub struct Chunk {
    dictonary: Option<Arc<BlockDictonary>>,
    blocks: Cuboid<Block>,
    meta_data: Cuboid<MetaData>,
    default_block: Block,
    x_size: usize,
    y_size: usize,
    z_size: usize,
}

impl Chunk {
    #[verifier::type_invariant]
    spec fn well_formed(self) -> bool {
        &&& self.blocks.width() == self.x_size
        &&& self.blocks.height() == self.y_size
        &&& self.blocks.depth() == self.z_size
        &&& self.meta_data.width() == self.x_size
        &&& self.meta_data.height() == self.y_size
        &&& self.meta_data.depth() == self.z_size
    }

    /// The extent along x.
    pub closed spec fn width(self) -> nat {
        self.x_size as nat
    }

    /// The extent along y.
    pub closed spec fn height(self) -> nat {
        self.y_size as nat
    }

    /// The extent along z.
    pub closed spec fn depth(self) -> nat {
        self.z_size as nat
    }

    /// The block that the chunk was made with.
    pub closed spec fn default_block(self) -> Block {
        self.default_block
    }

    /// The dictionary that the chunk carries, if any.
    pub closed spec fn dictionary(self) -> Option<BlockDictonary> {
        match self.dictonary {
            Some(dictionary) => Some(*dictionary),
            None => None,
        }
    }

    /// Whether `(x, y, z)` lies inside the chunk.
    pub open spec fn contains(self, x: int, y: int, z: int) -> bool {
        0 <= x < self.width() && 0 <= y < self.height() && 0 <= z < self.depth()
    }

    /// What a read of `(x, y, z)` gives.
    pub closed spec fn at(self, x: int, y: int, z: int) -> MetaBlock {
        MetaBlock { block: self.blocks.at(x, y, z), meta_data: self.meta_data.at(x, y, z) }
    }

    /// What every place of a new chunk reads as: `default_block` without a
    /// data value.
    pub open spec fn untouched(default_block: Block) -> MetaBlock {
        MetaBlock { block: default_block, meta_data: MetaData::blank() }
    }

    /// A chunk of `CHUNK_SIZE` cubed places that all hold `default_block`
    /// without a data value. It carries no dictionary.
    pub fn new(default_block: Block) -> (chunk: Chunk)
        ensures
            chunk.width() == CHUNK_SIZE,
            chunk.height() == CHUNK_SIZE,
            chunk.depth() == CHUNK_SIZE,
            chunk.default_block() == default_block,
            chunk.dictionary().is_none(),
            forall|x: int, y: int, z: int| chunk.at(x, y, z) == Chunk::untouched(default_block),
    {
        Chunk::with_size(default_block, CHUNK_SIZE, CHUNK_SIZE, CHUNK_SIZE)
    }

    /// A chunk of `x_size` by `y_size` by `z_size` places that all hold
    /// `default_block` without a data value. It carries no dictionary.
    pub fn with_size(default_block: Block, x_size: usize, y_size: usize, z_size: usize) -> (chunk:
        Chunk)
        ensures
            chunk.width() == x_size,
            chunk.height() == y_size,
            chunk.depth() == z_size,
            chunk.default_block() == default_block,
            chunk.dictionary().is_none(),
            forall|x: int, y: int, z: int| chunk.at(x, y, z) == Chunk::untouched(default_block),
    {
        let blank_meta = MetaData::new();
        Chunk {
            dictonary: None,
            blocks: Cuboid::new(x_size, y_size, z_size, default_block),
            meta_data: Cuboid::new(x_size, y_size, z_size, blank_meta),
            default_block,
            x_size,
            y_size,
            z_size,
        }
    }

    /// This chunk with `dictonary` as its dictionary.
    pub fn set_dict(&self, dictonary: &Arc<BlockDictonary>) -> (chunk: Chunk)
        ensures
            chunk.dictionary() == Some(**dictonary),
            chunk.width() == self.width(),
            chunk.height() == self.height(),
            chunk.depth() == self.depth(),
            chunk.default_block() == self.default_block(),
            forall|x: int, y: int, z: int| chunk.at(x, y, z) == self.at(x, y, z),
    {
        proof {
            use_type_invariant(self);
        }
        Chunk {
            dictonary: Some(share(dictonary)),
            blocks: self.blocks.clone(),
            meta_data: self.meta_data.clone(),
            default_block: self.default_block,
            x_size: self.x_size,
            y_size: self.y_size,
            z_size: self.z_size,
        }
    }

    /// Reads `(x, y, z)`. Outside the chunk that is the default block
    /// without a data value.
    pub fn get_block(&self, x: usize, y: usize, z: usize) -> (block: MetaBlock)
        ensures
            block == self.at(x as int, y as int, z as int),
    {
        let block = *self.blocks.get(x, y, z);
        let meta = *self.meta_data.get(x, y, z);
        MetaBlock::fuse(block, meta)
    }

    /// Writes `block` at `(x, y, z)`. Inside the chunk this gives a chunk
    /// that differs from `self` at `(x, y, z)` alone; outside it gives a
    /// chunk that reads as `self` everywhere.
    pub fn set_block(&self, x: usize, y: usize, z: usize, block: MetaBlock) -> (chunk: Chunk)
        ensures
            chunk.width() == self.width(),
            chunk.height() == self.height(),
            chunk.depth() == self.depth(),
            chunk.default_block() == self.default_block(),
            chunk.dictionary() == self.dictionary(),
            self.contains(x as int, y as int, z as int) ==> chunk.at(x as int, y as int, z as int)
                == block,
            forall|i: int, j: int, k: int|
                (i, j, k) != (x as int, y as int, z as int) || !self.contains(i, j, k) ==> chunk.at(
                    i,
                    j,
                    k,
                ) == self.at(i, j, k),
    {
        proof {
            use_type_invariant(self);
        }
        let blocks = match self.blocks.set(x, y, z, *block.get_block()) {
            Some(blocks) => blocks,
            None => self.blocks.clone(),
        };
        let meta_data = match self.meta_data.set(x, y, z, *block.get_meta_data()) {
            Some(meta_data) => meta_data,
            None => self.meta_data.clone(),
        };
        Chunk {
            dictonary: match &self.dictonary {
                Some(dictionary) => Some(share(dictionary)),
                None => None,
            },
            blocks,
            meta_data,
            default_block: self.default_block,
            x_size: self.x_size,
            y_size: self.y_size,
            z_size: self.z_size,
        }
    }
}

impl Clone for Chunk {
    /// A second chunk over the same places.
    fn clone(&self) -> (chunk: Chunk)
        ensures
            chunk.width() == self.width(),
            chunk.height() == self.height(),
            chunk.depth() == self.depth(),
            chunk.default_block() == self.default_block(),
            chunk.dictionary() == self.dictionary(),
            forall|x: int, y: int, z: int| chunk.at(x, y, z) == self.at(x, y, z),
    {
        proof {
            use_type_invariant(self);
        }
        Chunk {
            dictonary: match &self.dictonary {
                Some(dictionary) => Some(share(dictionary)),
                None => None,
            },
            blocks: self.blocks.clone(),
            meta_data: self.meta_data.clone(),
            default_block: self.default_block,
            x_size: self.x_size,
            y_size: self.y_size,
            z_size: self.z_size,
        }
    }
}

} // verus!
