//! What the world is made of: blocks, chunks, the world itself, and the
//! transactions that change it.

pub mod block;
pub mod chunk;
pub mod transaction;
pub mod world;

pub use crate::data::block::{Block, BlockDictonary, BlockTable, MetaBlock, MetaData};
pub use crate::data::chunk::{Chunk, CHUNK_SIZE};
pub use crate::data::transaction::{
    RawTransaction, RawTransactionBuilder, Timestamp, Transaction, TransactionID, TransactionType,
};
pub use crate::data::world::World;
