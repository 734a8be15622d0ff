//! The world: a plane of chunks without bounds, kept persistently. Chunks
//! come into being when a block is first written into them.
//!
//! All chunks of a world are cubes of one size. A chunk is found under the
//! corner from which the coordinates inside it count: with a chunk size of
//! 10, the chunk between the corners (10, 0) and (20, 10) is found under
//! (10, 0).

use crate::data::block::MetaBlock;
use crate::data::chunk::{Chunk, CHUNK_SIZE};
use std::sync::Arc;
use vstd::arithmetic::div_mod::{lemma_fundamental_div_mod, lemma_fundamental_div_mod_converse};
use vstd::prelude::*;

verus! {

/// The persistent hash map of the crate im.
#[verifier::external_type_specification]
#[verifier::external_body]
#[verifier::reject_recursive_types(K)]
#[verifier::reject_recursive_types(V)]
#[verifier::reject_recursive_types(S)]
pub struct ExHashMap<K, V, S>(im::HashMap<K, V, S>);

/// A persistent map from corners to the chunks under them.
pub type ChunkMap = im::HashMap<(i32, i32), Arc<Chunk>>;

/// The entries of a map of chunks: the chunk under each corner.
pub uninterp spec fn chunk_map(map: ChunkMap) -> Map<(i32, i32), Chunk>;

/// `HashMap::new` of the crate im: a map without entries.
#[verifier::external_body]
fn chunk_map_new() -> (made: ChunkMap)
    ensures
        chunk_map(made).dom() == Set::<(i32, i32)>::empty(),
{
    im::HashMap::new()
}

/// `HashMap::get` of the crate im: the chunk under `corner`, if the map
/// has one.
#[verifier::external_body]
fn chunk_map_get<'a>(map: &'a ChunkMap, corner: &(i32, i32)) -> (chunk: Option<&'a Arc<Chunk>>)
    ensures
        match chunk {
            Some(found) => chunk_map(*map).contains_key(*corner) && **found == chunk_map(
                *map,
            )[*corner],
            None => !chunk_map(*map).contains_key(*corner),
        },
{
    map.get(corner)
}

/// `HashMap::contains_key` of the crate im: whether the map has a chunk
/// under `corner`.
#[verifier::external_body]
fn chunk_map_contains(map: &ChunkMap, corner: &(i32, i32)) -> (found: bool)
    ensures
        found == chunk_map(*map).contains_key(*corner),
{
    map.contains_key(corner)
}

/// `HashMap::update` of the crate im: a new map with `chunk` under
/// `corner`, in place of what `map` has there, and with the other entries
/// of `map`.
#[verifier::external_body]
fn chunk_map_update(map: &ChunkMap, corner: (i32, i32), chunk: Arc<Chunk>) -> (updated: ChunkMap)
    ensures
        chunk_map(updated) == chunk_map(*map).insert(corner, *chunk),
{
    map.update(corner, chunk)
}

/// `Clone::clone` of the hash map of the crate im: a map with the same
/// entries.
#[verifier::external_body]
fn chunk_map_clone(map: &ChunkMap) -> (copy: ChunkMap)
    ensures
        chunk_map(copy) == chunk_map(*map),
{
    map.clone()
}

/// The corner of the chunk that holds `coordinate` on one axis: the
/// greatest multiple of `size` that is not above `coordinate`, and
/// `i32::MIN` where that multiple is no `i32`.
pub open spec fn chunk_origin(coordinate: int, size: int) -> int {
    let floor = coordinate - coordinate % size;
    if floor < i32::MIN {
        i32::MIN as int
    } else {
        floor
    }
}

/// Where `coordinate` lies inside its chunk on one axis: its distance from
/// 0, counted around the chunk.
pub open spec fn chunk_offset(coordinate: int, size: int) -> int {
    (if coordinate < 0 {
        -coordinate
    } else {
        coordinate
    }) % size
}

/// The corner on one axis.
fn origin_of(coordinate: i32, size: usize) -> (origin: i32)
    requires
        0 < size <= i32::MAX,
    ensures
        origin == chunk_origin(coordinate as int, size as int),
{
    let size = size as i64;
    let coordinate = coordinate as i64;
    if coordinate >= 0 {
        (coordinate - coordinate % size) as i32
    } else {
        let distance = -coordinate;
        let over = distance % size;
        let under = if over == 0 {
            0
        } else {
            size - over
        };
        proof {
            lemma_fundamental_div_mod(distance as int, size as int);
            let quotient = distance as int / size as int;
            if over == 0 {
                assert(coordinate as int == (-quotient) * size + 0) by (nonlinear_arith)
                    requires
                        distance as int == size * quotient + 0,
                        coordinate as int == -(distance as int),
                ;
                lemma_fundamental_div_mod_converse(coordinate as int, size as int, -quotient, 0);
            } else {
                assert(coordinate as int == (-quotient - 1) * size + (size - over)) by (nonlinear_arith)
                    requires
                        distance as int == size * quotient + over,
                        coordinate as int == -(distance as int),
                ;
                lemma_fundamental_div_mod_converse(
                    coordinate as int,
                    size as int,
                    -quotient - 1,
                    size - over,
                );
            }
        }
        let floor = coordinate - under;
        if floor < i32::MIN as i64 {
            i32::MIN
        } else {
            floor as i32
        }
    }
}

/// The place on one axis inside the chunk.
fn offset_of(coordinate: i32, size: usize) -> (offset: usize)
    requires
        0 < size <= i32::MAX,
    ensures
        offset == chunk_offset(coordinate as int, size as int),
        offset < size,
{
    let distance: i64 = if coordinate < 0 {
        -(coordinate as i64)
    } else {
        coordinate as i64
    };
    (distance % (size as i64)) as usize
}

/// A persistent world. A place reads as the block that was last written
/// there; where no chunk exists yet it reads as nothing, or as the default
/// block of the world.
pub struct World {
    chunks: ChunkMap,
    default_block: MetaBlock,
    chunk_size: usize,
}

impl World {
    #[verifier::type_invariant]
    spec fn well_formed(self) -> bool {
        &&& 0 < self.chunk_size <= i32::MAX
        &&& forall|corner: (i32, i32)| #[trigger]
            chunk_map(self.chunks).contains_key(corner) ==> {
                &&& chunk_map(self.chunks)[corner].width() == self.chunk_size
                &&& chunk_map(self.chunks)[corner].height() == self.chunk_size
                &&& chunk_map(self.chunks)[corner].depth() == self.chunk_size
            }
    }

    /// The edge of the chunks: at least 1, and an `i32`.
    pub closed spec fn chunk_size(self) -> int {
        self.chunk_size as int
    }

    /// The block that places without a chunk read as.
    pub closed spec fn default_block(self) -> MetaBlock {
        self.default_block
    }

    /// The chunks that exist, each under its corner.
    pub closed spec fn chunks(self) -> Map<(i32, i32), Chunk> {
        chunk_map(self.chunks)
    }

    /// The corner of the chunk that holds the column `(x, y)`.
    pub open spec fn corner_of(self, x: i32, y: i32) -> (i32, i32) {
        (
            chunk_origin(x as int, self.chunk_size()) as i32,
            chunk_origin(y as int, self.chunk_size()) as i32,
        )
    }

    /// The place of `(x, y, z)` inside its chunk.
    pub open spec fn place_of(self, x: i32, y: i32, z: i32) -> (int, int, int) {
        (
            chunk_offset(x as int, self.chunk_size()),
            chunk_offset(y as int, self.chunk_size()),
            chunk_offset(z as int, self.chunk_size()),
        )
    }

    /// What `(x, y, z)` holds, if its chunk exists.
    pub open spec fn block_at(self, x: i32, y: i32, z: i32) -> Option<MetaBlock> {
        if self.chunks().contains_key(self.corner_of(x, y)) {
            let place = self.place_of(x, y, z);
            Some(self.chunks()[self.corner_of(x, y)].at(place.0, place.1, place.2))
        } else {
            None
        }
    }

    /// What `(x, y, z)` holds, or the default block of the world where its
    /// chunk does not exist.
    pub open spec fn block_or_default(self, x: i32, y: i32, z: i32) -> MetaBlock {
        match self.block_at(x, y, z) {
            Some(block) => block,
            None => self.default_block(),
        }
    }

    /// A world without chunks, with chunks of `CHUNK_SIZE`.
    pub fn new(default_block: MetaBlock) -> (world: World)
        ensures
            world.chunk_size() == CHUNK_SIZE,
            world.default_block() == default_block,
            world.chunks() == Map::<(i32, i32), Chunk>::empty(),
    {
        World { chunks: chunk_map_new(), default_block, chunk_size: CHUNK_SIZE }
    }

    /// A world without chunks, with chunks of `chunk_size`.
    pub fn with_chunk_size(default_block: MetaBlock, chunk_size: usize) -> (world: World)
        requires
            0 < chunk_size <= i32::MAX,
        ensures
            world.chunk_size() == chunk_size,
            world.default_block() == default_block,
            world.chunks() == Map::<(i32, i32), Chunk>::empty(),
    {
        World { chunks: chunk_map_new(), default_block, chunk_size }
    }

    /// The corner of the chunk that holds the column `(x, y)`.
    pub fn get_chunk_index(&self, x: i32, y: i32) -> (corner: (i32, i32))
        ensures
            corner == self.corner_of(x, y),
    {
        proof {
            use_type_invariant(self);
        }
        (origin_of(x, self.chunk_size), origin_of(y, self.chunk_size))
    }

    /// The chunk that holds the column `(x, y)`, if it exists.
    pub fn get_chunk_at(&self, x: i32, y: i32) -> (chunk: Option<&Chunk>)
        ensures
            match chunk {
                Some(found) => self.chunks().contains_key(self.corner_of(x, y)) && *found
                    == self.chunks()[self.corner_of(x, y)],
                None => !self.chunks().contains_key(self.corner_of(x, y)),
            },
    {
        let index = self.get_chunk_index(x, y);
        let result = chunk_map_get(&self.chunks, &index);
        match result {
            Some(x) => Some(&**x),
            None => None,
        }
    }

    /// Whether the chunk that holds the column `(x, y)` exists.
    pub fn has_chunk_at(&self, x: i32, y: i32) -> (found: bool)
        ensures
            found == self.chunks().contains_key(self.corner_of(x, y)),
    {
        let index = self.get_chunk_index(x, y);
        chunk_map_contains(&self.chunks, &index)
    }

    /// The place of `(x, y, z)` inside its chunk.
    fn convert_coords(&self, x: i32, y: i32, z: i32) -> (place: (usize, usize, usize))
        ensures
            (place.0 as int, place.1 as int, place.2 as int) == self.place_of(x, y, z),
            place.0 < self.chunk_size(),
            place.1 < self.chunk_size(),
            place.2 < self.chunk_size(),
    {
        proof {
            use_type_invariant(self);
        }
        let x = offset_of(x, self.chunk_size);
        let y = offset_of(y, self.chunk_size);
        let z = offset_of(z, self.chunk_size);
        (x, y, z)
    }

    /// What `(x, y, z)` holds, if its chunk exists.
    pub fn get_block_at(&self, x: i32, y: i32, z: i32) -> (block: Option<MetaBlock>)
        ensures
            block == self.block_at(x, y, z),
    {
        let chunk = self.get_chunk_at(x, y);
        let (x, y, z) = self.convert_coords(x, y, z);
        if let Some(chunk) = chunk {
            Some(chunk.get_block(x, y, z))
        } else {
            None
        }
    }

    /// What `(x, y, z)` holds, or the default block of the world where its
    /// chunk does not exist.
    pub fn get_block_defaulting(&self, x: i32, y: i32, z: i32) -> (block: MetaBlock)
        ensures
            block == self.block_or_default(x, y, z),
    {
        let maybe_block = self.get_block_at(x, y, z);
        if let Some(block) = maybe_block {
            block
        } else {
            self.default_block
        }
    }

    /// Whether the chunk of `(x, y, z)` exists.
    pub fn block_exists(&self, x: i32, y: i32, _z: i32) -> (found: bool)
        ensures
            found == self.chunks().contains_key(self.corner_of(x, y)),
    {
        self.has_chunk_at(x, y)
    }

    /// What `(i, j, k)` holds once `block` is written at `(x, y, z)`. The
    /// write brings the chunk of `(x, y, z)` into being where it was not;
    /// in that chunk the one place of `(x, y, z)` holds `block`, and every
    /// other place holds what it held, or the untouched default where the
    /// chunk is new. Other chunks are as they were.
    pub open spec fn after_write(
        self,
        x: i32,
        y: i32,
        z: i32,
        block: MetaBlock,
        i: i32,
        j: i32,
        k: i32,
    ) -> Option<MetaBlock> {
        if self.corner_of(i, j) != self.corner_of(x, y) {
            self.block_at(i, j, k)
        } else if self.place_of(i, j, k) == self.place_of(x, y, z) {
            Some(block)
        } else {
            match self.block_at(i, j, k) {
                Some(held) => Some(held),
                None => Some(Chunk::untouched(self.default_block().block)),
            }
        }
    }

    /// The chunks of this world and a new chunk under `(x, y)`, in place of
    /// what was there.
    #[allow(dead_code)]
    fn create_chunk(&self, x: i32, y: i32) -> (chunks: ChunkMap)
        ensures
            chunk_map(chunks).dom() == self.chunks().dom().insert((x, y)),
            chunk_map(chunks)[(x, y)].width() == self.chunk_size(),
            chunk_map(chunks)[(x, y)].height() == self.chunk_size(),
            chunk_map(chunks)[(x, y)].depth() == self.chunk_size(),
            forall|i: int, j: int, k: int|
                chunk_map(chunks)[(x, y)].at(i, j, k) == Chunk::untouched(self.default_block().block),
            forall|corner: (i32, i32)|
                corner != (x, y) && self.chunks().contains_key(corner) ==> chunk_map(chunks)[corner]
                    == self.chunks()[corner],
    {
        let size = self.chunk_size;
        let chunk = Chunk::with_size(*self.default_block.get_block(), size, size, size);
        chunk_map_update(&self.chunks, (x, y), Arc::new(chunk))
    }

    /// Writes `block` at `(x, y, z)`, in a new chunk where the place has
    /// none yet. This gives a new world; `self` is as it was.
    pub fn set_block_defaulting(&self, x: i32, y: i32, z: i32, block: MetaBlock) -> (world: World)
        ensures
            world.chunk_size() == self.chunk_size(),
            world.default_block() == self.default_block(),
            world.chunks().dom() == self.chunks().dom().insert(self.corner_of(x, y)),
            forall|corner: (i32, i32)|
                corner != self.corner_of(x, y) && self.chunks().contains_key(corner)
                    ==> world.chunks()[corner] == self.chunks()[corner],
            forall|i: i32, j: i32, k: i32| #[trigger]
                world.block_at(i, j, k) == self.after_write(x, y, z, block, i, j, k),
            world.block_or_default(x, y, z) == block,
    {
        proof {
            use_type_invariant(self);
        }
        let index = self.get_chunk_index(x, y);
        let (cx, cy, cz) = self.convert_coords(x, y, z);
        let new_chunk = match chunk_map_get(&self.chunks, &index) {
            Some(old_chunk) => old_chunk.set_block(cx, cy, cz, block),
            None => {
                let size = self.chunk_size;
                let empty_chunk = Chunk::with_size(*self.default_block.get_block(), size, size, size);
                empty_chunk.set_block(cx, cy, cz, block)
            },
        };
        let new_chunks = chunk_map_update(&self.chunks, index, Arc::new(new_chunk));
        let world = World {
            chunks: new_chunks,
            default_block: self.default_block,
            chunk_size: self.chunk_size,
        };
        world
    }
}

impl Clone for World {
    /// A second world over the same chunks.
    fn clone(&self) -> (world: World)
        ensures
            world.chunk_size() == self.chunk_size(),
            world.default_block() == self.default_block(),
            world.chunks() == self.chunks(),
    {
        proof {
            use_type_invariant(self);
        }
        World {
            chunks: chunk_map_clone(&self.chunks),
            default_block: self.default_block,
            chunk_size: self.chunk_size,
        }
    }
}

} // verus!
