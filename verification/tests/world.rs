use rewind::data::{Block, BlockDictonary, BlockTable, Chunk, MetaBlock, MetaData, World, CHUNK_SIZE};
use std::sync::Arc;

fn block(id: u16) -> MetaBlock {
    MetaBlock::fuse(Block::new_from_ids(0, id), MetaData::new())
}

#[test]
fn chunk_new_holds_the_default_everywhere() {
    let chunk = Chunk::new(Block::new_from_ids(0, 1));
    assert_eq!(CHUNK_SIZE, 256);
    assert_eq!(chunk.get_block(0, 0, 0), block(1));
    assert_eq!(chunk.get_block(255, 255, 255), block(1));
    assert_eq!(chunk.get_block(256, 0, 0), block(1));
}

#[test]
fn chunk_set_block_changes_one_place() {
    let old = Chunk::with_size(Block::new_from_ids(0, 1), 4, 4, 4);
    let written = MetaBlock::fuse(Block::new_from_ids(2, 3), MetaData::new().set_data_value(9));
    let new = old.set_block(1, 2, 3, written);
    for x in 0..4 {
        for y in 0..4 {
            for z in 0..4 {
                let expected = if (x, y, z) == (1, 2, 3) { written } else { block(1) };
                assert_eq!(new.get_block(x, y, z), expected);
                assert_eq!(old.get_block(x, y, z), block(1));
            }
        }
    }
}

#[test]
fn chunk_set_block_outside_changes_nothing() {
    let old = Chunk::with_size(Block::new_from_ids(0, 1), 2, 2, 2);
    let new = old.set_block(2, 0, 0, block(5));
    for x in 0..3 {
        for y in 0..3 {
            for z in 0..3 {
                assert_eq!(new.get_block(x, y, z), block(1));
            }
        }
    }
}

#[test]
fn chunk_set_dict_keeps_the_blocks() {
    let mut table = BlockTable::new("minecraft");
    table.add_name("air");
    let mut dictionary = BlockDictonary::new();
    dictionary.add_table(table);
    let chunk = Chunk::with_size(Block::new_from_ids(0, 0), 2, 2, 2).set_block(1, 1, 1, block(4));
    let named = chunk.set_dict(&Arc::new(dictionary));
    assert_eq!(named.get_block(1, 1, 1), block(4));
    assert_eq!(named.get_block(0, 0, 0), block(0));
    assert_eq!(named.clone().get_block(1, 1, 1), block(4));
}

#[test]
fn world_chunk_index_floors_to_the_chunk_size() {
    let world = World::with_chunk_size(block(0), 16);
    assert_eq!(world.get_chunk_index(0, 0), (0, 0));
    assert_eq!(world.get_chunk_index(5, 15), (0, 0));
    assert_eq!(world.get_chunk_index(16, 31), (16, 16));
    assert_eq!(world.get_chunk_index(-1, -16), (-16, -16));
    assert_eq!(world.get_chunk_index(-17, 100), (-32, 96));
    assert_eq!(world.get_chunk_index(i32::MAX, i32::MIN), (2147483632, -2147483648));
}

#[test]
fn world_chunk_index_with_the_default_chunk_size() {
    let world = World::new(block(0));
    assert_eq!(world.get_chunk_index(255, 256), (0, 256));
    assert_eq!(world.get_chunk_index(-1, -257), (-256, -512));
}

#[test]
fn world_chunk_index_stops_at_the_least_coordinate() {
    let world = World::with_chunk_size(block(0), 10);
    assert_eq!(world.get_chunk_index(i32::MIN, i32::MIN + 1), (i32::MIN, i32::MIN));
    assert_eq!(world.get_chunk_index(i32::MIN + 8, i32::MIN + 9), (-2147483640, -2147483640));
    assert_eq!(world.get_chunk_index(-2147483641, 0), (i32::MIN, 0));
    let whole = World::with_chunk_size(block(0), i32::MAX as usize);
    assert_eq!(whole.get_chunk_index(-1, i32::MAX), (-2147483647, 2147483647));
    assert_eq!(whole.get_chunk_index(i32::MIN, i32::MAX - 1), (i32::MIN, 0));
}

#[test]
fn world_is_empty_before_the_first_write() {
    let world = World::with_chunk_size(block(1), 16);
    assert_eq!(world.get_block_at(5, 5, 5), None);
    assert_eq!(world.get_block_defaulting(5, 5, 5), block(1));
    assert!(!world.has_chunk_at(5, 5));
    assert!(!world.block_exists(5, 5, 5));
    assert!(world.get_chunk_at(5, 5).is_none());
}

#[test]
fn world_write_makes_the_chunk() {
    let old = World::with_chunk_size(block(1), 16);
    let new = old.set_block_defaulting(5, 5, 5, block(2));
    assert_eq!(new.get_block_at(5, 5, 5), Some(block(2)));
    assert_eq!(new.get_block_defaulting(5, 5, 5), block(2));
    assert_eq!(new.get_block_at(6, 5, 5), Some(block(1)));
    assert_eq!(new.get_block_at(15, 15, 0), Some(block(1)));
    assert_eq!(new.get_block_at(16, 5, 5), None);
    assert_eq!(new.get_block_at(-1, 5, 5), None);
    assert!(new.has_chunk_at(0, 15));
    assert!(new.block_exists(15, 0, 99));
    assert!(!new.has_chunk_at(16, 0));
    assert!(new.get_chunk_at(3, 3).is_some());
    assert_eq!(new.get_chunk_at(3, 3).unwrap().get_block(5, 5, 5), block(2));
    assert_eq!(old.get_block_at(5, 5, 5), None);
}

#[test]
fn world_new_chunk_drops_the_default_data_value() {
    let default = MetaBlock::fuse(Block::new_from_ids(0, 1), MetaData::new().set_data_value(3));
    let world = World::with_chunk_size(default, 16).set_block_defaulting(0, 0, 0, block(2));
    assert_eq!(world.get_block_defaulting(1, 0, 0), block(1));
    assert_eq!(world.get_block_defaulting(16, 0, 0), default);
}

#[test]
fn world_keeps_negative_and_positive_apart() {
    let world = World::with_chunk_size(block(0), 16)
        .set_block_defaulting(5, 5, 0, block(1))
        .set_block_defaulting(-5, 5, 0, block(2))
        .set_block_defaulting(5, -5, 0, block(3))
        .set_block_defaulting(-16, -16, 0, block(4));
    assert_eq!(world.get_block_defaulting(5, 5, 0), block(1));
    assert_eq!(world.get_block_defaulting(-5, 5, 0), block(2));
    assert_eq!(world.get_block_defaulting(5, -5, 0), block(3));
    assert_eq!(world.get_block_defaulting(-16, -16, 0), block(4));
    assert_eq!(world.get_block_defaulting(-11, 5, 0), block(0));
}

#[test]
fn world_wraps_the_height_into_the_chunk() {
    let world = World::with_chunk_size(block(0), 16).set_block_defaulting(0, 0, 5, block(1));
    assert_eq!(world.get_block_defaulting(0, 0, 5), block(1));
    assert_eq!(world.get_block_defaulting(0, 0, -5), block(1));
    assert_eq!(world.get_block_defaulting(0, 0, 21), block(1));
    assert_eq!(world.get_block_defaulting(0, 0, 4), block(0));
}

#[test]
fn world_handles_the_least_coordinate() {
    let world = World::new(block(0)).set_block_defaulting(i32::MIN, i32::MIN, i32::MIN, block(1));
    assert_eq!(world.get_block_defaulting(i32::MIN, i32::MIN, i32::MIN), block(1));
    assert_eq!(world.get_block_at(i32::MIN + 1, i32::MIN, i32::MIN), Some(block(0)));
    assert_eq!(world.get_chunk_index(i32::MIN, i32::MIN), (i32::MIN, i32::MIN));
}

#[test]
fn world_clone_reads_the_same() {
    let world = World::with_chunk_size(block(0), 16).set_block_defaulting(1, 2, 3, block(1));
    let copy = world.clone();
    let later = world.set_block_defaulting(1, 2, 3, block(2));
    assert_eq!(copy.get_block_at(1, 2, 3), Some(block(1)));
    assert_eq!(later.get_block_at(1, 2, 3), Some(block(2)));
    assert_eq!(copy.get_block_at(100, 2, 3), None);
}
