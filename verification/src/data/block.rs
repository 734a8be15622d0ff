//! A single block, in the "provider":"name" style, as a pair of numbers.

use std::collections::HashMap;
use vstd::hash_map::StringHashMap;
use vstd::prelude::*;
use vstd::string::StringExecFns;

verus! {

broadcast use vstd::std_specs::hash::group_hash_axioms;

/// The identity of a kind of block: the number of its provider and its
/// number with that provider. A `BlockDictonary` gives the names.
#[derive(Clone, Copy, Debug, PartialEq, Eq, Structural)]
pub struct Block {
    pub provider: u16,
    pub id: u16,
}

impl Block {
    /// The block `id` of provider `provider`.
    pub fn new_from_ids(provider: u16, id: u16) -> (block: Block)
        ensures
            block == (Block { provider, id }),
    {
        Block { provider, id }
    }
}

/// What a block carries beside its identity: a data value, or nothing.
#[derive(Clone, Copy, Debug, PartialEq, Eq, Structural)]
pub struct MetaData {
    pub data_value: Option<i32>,
}

impl MetaData {
    /// Meta data without a data value.
    pub open spec fn blank() -> MetaData {
        MetaData { data_value: None }
    }

    /// Meta data without a data value.
    pub fn new() -> (meta: MetaData)
        ensures
            meta == MetaData::blank(),
    {
        MetaData { data_value: None }
    }

    /// This meta data with `data_value` as its data value.
    pub fn set_data_value(&self, data_value: i32) -> (meta: MetaData)
        ensures
            meta == (MetaData { data_value: Some(data_value) }),
    {
        let mut new_meta = *self;
        new_meta.data_value = Some(data_value);
        new_meta
    }

    /// The data value, if there is one.
    pub fn get_data_value(&self) -> (data_value: Option<i32>)
        ensures
            data_value == self.data_value,
    {
        self.data_value
    }
}

/// A block with its meta data: what one place in the world holds.
#[derive(Clone, Copy, Debug, PartialEq, Eq, Structural)]
pub struct MetaBlock {
    pub block: Block,
    pub meta_data: MetaData,
}

impl MetaBlock {
    /// The pair of `block` and `meta`.
    pub fn fuse(block: Block, meta: MetaData) -> (pair: MetaBlock)
        ensures
            pair == (MetaBlock { block, meta_data: meta }),
    {
        MetaBlock { block, meta_data: meta }
    }

    /// The block of the pair.
    pub fn get_block(&self) -> (block: &Block)
        ensures
            *block == self.block,
    {
        &self.block
    }

    /// The meta data of the pair.
    pub fn get_meta_data(&self) -> (meta: &MetaData)
        ensures
            *meta == self.meta_data,
    {
        &self.meta_data
    }
}

/// The blocks of one provider: their names and their numbers, each found by
/// the other. In "minecraft:air" the provider is "minecraft" and the name
/// is "air".
pub struct BlockTable {
    provider: String,
    name_to_val: StringHashMap<u16>,
    val_to_name: HashMap<u16, String>,
    highest: Option<u16>,
}

impl BlockTable {
    /// The name of the provider.
    pub closed spec fn provider_name(self) -> Seq<char> {
        self.provider@
    }

    /// The number of each name.
    pub closed spec fn values(self) -> Map<Seq<char>, u16> {
        self.name_to_val@
    }

    /// The name of each number.
    pub closed spec fn names(self) -> Map<u16, Seq<char>> {
        self.val_to_name@.map_values(|name: String| name@)
    }

    /// The number that the next name gets: one more than the greatest
    /// number that a name was ever given, 0 if none was.
    pub closed spec fn next_value(self) -> int {
        match self.highest {
            Some(highest) => highest + 1,
            None => 0,
        }
    }

    /// An empty table for the provider `provider`.
    pub fn new(provider: &str) -> (table: BlockTable)
        ensures
            table.provider_name() == provider@,
            table.values() == Map::<Seq<char>, u16>::empty(),
            table.names() == Map::<u16, Seq<char>>::empty(),
            table.next_value() == 0,
    {
        let table = BlockTable {
            provider: String::from_str(provider),
            name_to_val: StringHashMap::new(),
            val_to_name: HashMap::new(),
            highest: None,
        };
        table
    }

    /// Gives `name` the number `val`, and `val` the name `name`. A pair
    /// that held `name` or `val` before is overwritten on that side only.
    pub fn add_pair(&mut self, name: &str, val: u16)
        ensures
            final(self).provider_name() == old(self).provider_name(),
            final(self).values() == old(self).values().insert(name@, val),
            final(self).names() == old(self).names().insert(val, name@),
            final(self).next_value() == if val < old(self).next_value() {
                old(self).next_value()
            } else {
                val + 1
            },
    {
        let raised = match self.highest {
            Some(highest) => if highest < val {
                val
            } else {
                highest
            },
            None => val,
        };
        self.name_to_val.insert(String::from_str(name), val);
        self.val_to_name.insert(val, String::from_str(name));
        self.highest = Some(raised);
    }

    /// The number that the next name gets.
    fn new_id(&self) -> (id: u16)
        requires
            self.next_value() <= u16::MAX,
        ensures
            id == self.next_value(),
    {
        match self.highest {
            Some(highest) => highest + 1,
            None => 0,
        }
    }

    /// Adds `name` under the next free number, and gives that number.
    pub fn add_name(&mut self, name: &str) -> (id: u16)
        requires
            old(self).next_value() <= u16::MAX,
        ensures
            id == old(self).next_value(),
            final(self).provider_name() == old(self).provider_name(),
            final(self).values() == old(self).values().insert(name@, id),
            final(self).names() == old(self).names().insert(id, name@),
            final(self).next_value() == id + 1,
    {
        let id = self.new_id();
        self.add_pair(name, id);
        id
    }

    /// The number of the block `name`, which the table must hold.
    pub fn lookup_value(&self, name: &str) -> (val: u16)
        requires
            self.values().contains_key(name@),
        ensures
            val == self.values()[name@],
    {
        *self.name_to_val.get(name).unwrap()
    }

    /// The name of the block `val`, which the table must hold.
    pub fn lookup_name(&self, val: u16) -> (name: &str)
        requires
            self.names().contains_key(val),
        ensures
            name@ == self.names()[val],
    {
        self.val_to_name.get(&val).unwrap().as_str()
    }

    /// The name of the provider.
    pub fn get_provider(&self) -> (provider: &str)
        ensures
            provider@ == self.provider_name(),
    {
        self.provider.as_str()
    }
}

/// The tables of all providers: from "provider":"name" to a `Block` and
/// back.
pub struct BlockDictonary {
    provider_id_to_blocktable: HashMap<u16, BlockTable>,
    provider_name_to_id: StringHashMap<u16>,
    provider_id_to_name: HashMap<u16, String>,
    highest: Option<u16>,
}

impl BlockDictonary {
    /// The table of each provider number.
    pub closed spec fn tables(self) -> Map<u16, BlockTable> {
        self.provider_id_to_blocktable@
    }

    /// The number of each provider name.
    pub closed spec fn provider_ids(self) -> Map<Seq<char>, u16> {
        self.provider_name_to_id@
    }

    /// The name of each provider number.
    pub closed spec fn provider_names(self) -> Map<u16, Seq<char>> {
        self.provider_id_to_name@.map_values(|name: String| name@)
    }

    /// The number that the next table gets: one more than the greatest
    /// number that a table was ever put under, 0 if none was.
    pub closed spec fn next_id(self) -> int {
        match self.highest {
            Some(highest) => highest + 1,
            None => 0,
        }
    }

    /// Whether the dictionary can name `block`.
    pub open spec fn knows_block(self, block: Block) -> bool {
        self.tables().contains_key(block.provider) && self.tables()[block.provider].names().contains_key(
            block.id,
        )
    }

    /// Whether the dictionary has a block for `"provider":"name"`.
    pub open spec fn knows_name(self, provider: Seq<char>, name: Seq<char>) -> bool {
        &&& self.provider_ids().contains_key(provider)
        &&& self.tables().contains_key(self.provider_ids()[provider])
        &&& self.tables()[self.provider_ids()[provider]].values().contains_key(name)
    }

    /// An empty dictionary.
    pub fn new() -> (dictionary: BlockDictonary)
        ensures
            dictionary.tables() == Map::<u16, BlockTable>::empty(),
            dictionary.provider_ids() == Map::<Seq<char>, u16>::empty(),
            dictionary.provider_names() == Map::<u16, Seq<char>>::empty(),
            dictionary.next_id() == 0,
    {
        let dictionary = BlockDictonary {
            provider_id_to_blocktable: HashMap::new(),
            provider_name_to_id: StringHashMap::new(),
            provider_id_to_name: HashMap::new(),
            highest: None,
        };
        dictionary
    }

    /// The number that the next table gets.
    fn new_id(&self) -> (id: u16)
        requires
            self.next_id() <= u16::MAX,
        ensures
            id == self.next_id(),
    {
        match self.highest {
            Some(highest) => highest + 1,
            None => 0,
        }
    }

    /// Puts `table` under the provider number `id`. What stood under `id`
    /// or under the provider's name before is overwritten on that side
    /// only.
    pub fn add_pair(&mut self, table: BlockTable, id: u16)
        ensures
            final(self).tables() == old(self).tables().insert(id, table),
            final(self).provider_ids() == old(self).provider_ids().insert(table.provider_name(), id),
            final(self).provider_names() == old(self).provider_names().insert(
                id,
                table.provider_name(),
            ),
            final(self).next_id() == if id < old(self).next_id() {
                old(self).next_id()
            } else {
                id + 1
            },
    {
        let raised = match self.highest {
            Some(highest) => if highest < id {
                id
            } else {
                highest
            },
            None => id,
        };
        self.provider_id_to_name.insert(id, String::from_str(table.get_provider()));
        self.provider_name_to_id.insert(String::from_str(table.get_provider()), id);
        self.provider_id_to_blocktable.insert(id, table);
        self.highest = Some(raised);
        assert(final(self).provider_names() =~= old(self).provider_names().insert(
            id,
            table.provider_name(),
        ));
    }

    /// Adds `table` under the next free provider number, and gives that
    /// number.
    pub fn add_table(&mut self, table: BlockTable) -> (id: u16)
        requires
            old(self).next_id() <= u16::MAX,
        ensures
            id == old(self).next_id(),
            final(self).tables() == old(self).tables().insert(id, table),
            final(self).provider_ids() == old(self).provider_ids().insert(table.provider_name(), id),
            final(self).provider_names() == old(self).provider_names().insert(
                id,
                table.provider_name(),
            ),
            final(self).next_id() == id + 1,
    {
        let id = self.new_id();
        self.add_pair(table, id);
        id
    }

    /// The `("provider", "name")` of `block`, which the dictionary must
    /// know.
    pub fn decode_block(&self, block: Block) -> (name: (&str, &str))
        requires
            self.knows_block(block),
        ensures
            name.0@ == self.tables()[block.provider].provider_name(),
            name.1@ == self.tables()[block.provider].names()[block.id],
    {
        let table = self.provider_id_to_blocktable.get(&block.provider).unwrap();
        let id = table.lookup_name(block.id);
        (table.get_provider(), id)
    }

    /// The block of `("provider", "name")`, which the dictionary must know.
    pub fn encode_block(&self, name: (&str, &str)) -> (block: Block)
        requires
            self.knows_name(name.0@, name.1@),
        ensures
            block.provider == self.provider_ids()[name.0@],
            block.id == self.tables()[self.provider_ids()[name.0@]].values()[name.1@],
    {
        let provider_id = *self.provider_name_to_id.get(name.0).unwrap();
        let blocktable = self.provider_id_to_blocktable.get(&provider_id).unwrap();
        let block_id = blocktable.lookup_value(name.1);
        Block::new_from_ids(provider_id, block_id)
    }
}

} // verus!
