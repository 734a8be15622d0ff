//! A retroactively editable, versioned store for a voxel world.
//!
//! Every write is a transaction in an append-only log. Any committed
//! transaction can be undone later, and the state of a block is rebuilt by
//! replaying the transactions that concern it.

pub mod data;
pub mod history;
pub mod storage;
pub mod worldline;

use crate::data::block::MetaBlock;
use crate::data::chunk::{Chunk, CHUNK_SIZE};
use crate::data::transaction::{RawTransaction, Transaction, TransactionID, TransactionType};
use crate::data::world::World;
use crate::history::{
    history_of, is_history, is_next_id, lemma_resolved_place_kept, lemma_undo_again_keeps_history,
    log_sound, replay, resolved_place, run_history,
};
use crate::worldline::WorldLine;
use vstd::prelude::*;
use vstd::slice::slice_subrange;

verus! {

/// Whether `transaction` is committed in a world `world` with the log
/// `log`: a `SetBlock` always, a `Replace` if its place holds the block
/// that it expects, an `Undo` if the log holds what it undoes.
pub open spec fn accepted(
    world: World,
    log: Map<TransactionID, Transaction>,
    transaction: RawTransaction,
) -> bool {
    match transaction.kind() {
        TransactionType::SetBlock { .. } => true,
        TransactionType::Replace { block_current, .. } => match transaction.coords() {
            Some(place) => world.block_or_default(place.0, place.1, place.2) == block_current,
            None => false,
        },
        TransactionType::Undo { transaction: target } => log.contains_key(target),
    }
}

/// Whether `after` is `before` with `block` written at `place`: the chunk
/// of `place` exists, no chunk is gone, every other chunk is the chunk
/// that it was, and every place reads as `World::after_write` says.
pub open spec fn written(before: World, after: World, place: (i32, i32, i32), block: MetaBlock) -> bool {
    &&& after.chunk_size() == before.chunk_size()
    &&& after.default_block() == before.default_block()
    &&& after.chunks().dom() == before.chunks().dom().insert(before.corner_of(place.0, place.1))
    &&& forall|corner: (i32, i32)|
        corner != before.corner_of(place.0, place.1) && before.chunks().contains_key(corner)
            ==> after.chunks()[corner] == before.chunks()[corner]
    &&& forall|i: i32, j: i32, k: i32| #[trigger]
        after.block_at(i, j, k) == before.after_write(place.0, place.1, place.2, block, i, j, k)
}

/// Whether the world `after` and the log `now` are what committing
/// `committed` makes of the world `before`. A `SetBlock` or `Replace`
/// writes its block at its place. An `Undo` writes, at the place where
/// the undone transaction acts, what the history of that place leaves
/// there, the `Undo` itself being part of that history.
pub open spec fn effect(
    before: World,
    after: World,
    now: Map<TransactionID, Transaction>,
    default_block: MetaBlock,
    committed: Transaction,
) -> bool {
    match committed.transaction.kind() {
        TransactionType::SetBlock { block_set } => committed.transaction.coords() matches Some(place)
            && written(before, after, place, block_set),
        TransactionType::Replace { block_set, .. } => committed.transaction.coords() matches Some(
            place,
        ) && written(before, after, place, block_set),
        TransactionType::Undo { transaction: target } => resolved_place(now, target) matches Some(
            place,
        ) && is_history(now, place, history_of(now, place)) && written(
            before,
            after,
            place,
            replay(history_of(now, place), default_block),
        ),
    }
}

/// Writing a block where the same write has just put it leaves the world
/// as the first write left it.
pub proof fn lemma_written_again(
    first: World,
    second: World,
    third: World,
    place: (i32, i32, i32),
    block: MetaBlock,
)
    requires
        written(first, second, place, block),
        written(second, third, place, block),
    ensures
        forall|i: i32, j: i32, k: i32| third.block_at(i, j, k) == second.block_at(i, j, k),
{
}

/// Undoing is idempotent: where two `Undo`s of one transaction are
/// committed one after the other, the world after the second reads as the
/// world after the first, at every place.
pub proof fn lemma_undo_twice(
    start: World,
    once: World,
    twice: World,
    log: Map<TransactionID, Transaction>,
    first: Transaction,
    second: Transaction,
    default_block: MetaBlock,
)
    requires
        log_sound(log),
        first.undone().is_some(),
        second.undone() == first.undone(),
        log.contains_key(first.id),
        log[first.id] == first,
        forall|held: TransactionID| #[trigger] log.contains_key(held) ==> held.before(second.id),
        effect(start, once, log, default_block, first),
        effect(once, twice, log.insert(second.id, second), default_block, second),
    ensures
        forall|i: i32, j: i32, k: i32| twice.block_at(i, j, k) == once.block_at(i, j, k),
{
    let target = first.undone().unwrap();
    lemma_resolved_place_kept(log, second, target);
    let place = resolved_place(log, target).unwrap();
    lemma_undo_again_keeps_history(log, first.id, second, place, history_of(log, place));
    lemma_written_again(
        start,
        once,
        twice,
        place,
        replay(history_of(log, place), default_block),
    );
}

/// Applies `transaction` to `world` and `world_line` as one step: either
/// it is committed, and both are changed, or it is rejected, and neither
/// is.
pub fn apply(
    world: &mut World,
    world_line: &mut WorldLine,
    default_block: MetaBlock,
    transaction: RawTransaction,
) -> (committed: Option<Transaction>)
    requires
        old(world_line).has_room(),
    ensures
        committed.is_some() <==> accepted(*old(world), old(world_line)@, transaction),
        committed.is_none() ==> *final(world) == *old(world) && *final(world_line) == *old(
            world_line,
        ),
        log_sound(old(world_line)@),
        log_sound(final(world_line)@),
        committed matches Some(new) ==> {
            &&& new.transaction == transaction
            &&& is_next_id(old(world_line)@, new.id)
            &&& !old(world_line)@.contains_key(new.id)
            &&& final(world_line)@ == old(world_line)@.insert(new.id, new)
            &&& final(world_line)@.len() == old(world_line)@.len() + 1
            &&& effect(*old(world), *final(world), final(world_line)@, default_block, new)
        },
{
    proof {
        use_type_invariant(&transaction);
        transaction.lemma_place_unless_undo();
        use_type_invariant(&*world_line);
        world_line.lemma_sound();
    }
    let transaction_type = transaction.get_transaction_type();
    match transaction_type {
        TransactionType::SetBlock { block_set } => {
            let (x, y, z) = transaction.get_coords().unwrap();
            *world = world.set_block_defaulting(x, y, z, block_set);
            Some(world_line.add_transaction(transaction))
        },
        TransactionType::Replace { block_current, block_set } => {
            let (x, y, z) = transaction.get_coords().unwrap();
            let old_block = world.get_block_defaulting(x, y, z);
            if old_block == block_current {
                *world = world.set_block_defaulting(x, y, z, block_set);
                Some(world_line.add_transaction(transaction))
            } else {
                None
            }
        },
        TransactionType::Undo { transaction: tid } => {
            if let Some(_) = world_line.lookup_transaction(tid) {
                let final_trans = world_line.add_transaction(transaction);
                let (x, y, z) = world_line.get_undone_block(tid).unwrap();
                let history: Vec<Transaction> = world_line.get_block_history(x, y, z);
                let new_block = run_history(history.as_slice(), default_block);
                *world = world.set_block_defaulting(x, y, z, new_block);
                Some(final_trans)
            } else {
                None
            }
        },
    }
}

/// The history of `(x, y, z)` in `world_line`, each transaction with the
/// block that the place held just before it: what replaying the
/// transactions before it leaves there.
pub fn block_history(world_line: &WorldLine, default_block: MetaBlock, x: i32, y: i32, z: i32) -> (history:
    Vec<(MetaBlock, Transaction)>)
    ensures
        is_history(world_line@, (x, y, z), history_of(world_line@, (x, y, z))),
        history@.len() == history_of(world_line@, (x, y, z)).len(),
        forall|i: int|
            0 <= i < history@.len() ==> {
                &&& (#[trigger] history@[i]).1 == history_of(world_line@, (x, y, z))[i]
                &&& history@[i].0 == replay(
                    history_of(world_line@, (x, y, z)).take(i),
                    default_block,
                )
            },
{
    let transactions: Vec<Transaction> = world_line.get_block_history(x, y, z);
    let mut output: Vec<(MetaBlock, Transaction)> = Vec::new();
    let mut i: usize = 0;
    while i < transactions.len()
        invariant
            i <= transactions@.len(),
            output@.len() == i,
            forall|k: int|
                0 <= k < i ==> {
                    &&& (#[trigger] output@[k]).1 == transactions@[k]
                    &&& output@[k].0 == replay(transactions@.take(k), default_block)
                },
        decreases transactions@.len() - i,
    {
        let history = slice_subrange(transactions.as_slice(), 0, i);
        let block: MetaBlock = run_history(history, default_block);
        output.push((block, transactions[i]));
        i = i + 1;
    }
    output
}

/// A world with its history: a `World` and the `WorldLine` of the
/// transactions that made it.
pub struct Rewind {
    world_line: WorldLine,
    world: World,
    default_block: MetaBlock,
}

impl Rewind {
    /// The world as it is now.
    pub closed spec fn world(self) -> World {
        self.world
    }

    /// The log of committed transactions.
    pub closed spec fn world_line(self) -> WorldLine {
        self.world_line
    }

    /// The block that a place holds before anything is written there.
    pub closed spec fn default_block(self) -> MetaBlock {
        self.default_block
    }

    /// An empty world with an empty log.
    pub fn new(default_block: MetaBlock) -> (rewind: Rewind)
        ensures
            rewind.default_block() == default_block,
            rewind.world().default_block() == default_block,
            rewind.world().chunk_size() == CHUNK_SIZE,
            rewind.world().chunks() == Map::<(i32, i32), Chunk>::empty(),
            rewind.world_line()@ == Map::<TransactionID, Transaction>::empty(),
    {
        let world_line = WorldLine::new();
        let world = World::new(default_block);
        Rewind { world_line, world, default_block }
    }

    /// An empty world with chunks of `chunk_size`, with an empty log.
    pub fn with_chunk_size(default_block: MetaBlock, chunk_size: usize) -> (rewind: Rewind)
        requires
            0 < chunk_size <= i32::MAX,
        ensures
            rewind.default_block() == default_block,
            rewind.world().default_block() == default_block,
            rewind.world().chunk_size() == chunk_size,
            rewind.world().chunks() == Map::<(i32, i32), Chunk>::empty(),
            rewind.world_line()@ == Map::<TransactionID, Transaction>::empty(),
    {
        let world_line = WorldLine::new();
        let world = World::with_chunk_size(default_block, chunk_size);
        Rewind { world_line, world, default_block }
    }

    /// The world as it is now. Later transactions do not change what was
    /// handed out.
    pub fn get_world_state(&self) -> (world: World)
        ensures
            world.chunk_size() == self.world().chunk_size(),
            world.default_block() == self.world().default_block(),
            world.chunks() == self.world().chunks(),
    {
        self.world.clone()
    }

    /// Applies `transaction`. If it is committed, the committed transaction
    /// is handed back, the log has gained it and the world shows its
    /// effect; if it is rejected, log and world are as they were.
    pub fn apply_transaction(&mut self, transaction: RawTransaction) -> (committed: Option<
        Transaction,
    >)
        requires
            old(self).world_line().has_room(),
        ensures
            final(self).default_block() == old(self).default_block(),
            committed.is_some() <==> accepted(old(self).world(), old(self).world_line()@, transaction),
            committed.is_none() ==> *final(self) == *old(self),
            log_sound(old(self).world_line()@),
            log_sound(final(self).world_line()@),
            committed matches Some(new) ==> {
                &&& new.transaction == transaction
                &&& is_next_id(old(self).world_line()@, new.id)
                &&& !old(self).world_line()@.contains_key(new.id)
                &&& final(self).world_line()@ == old(self).world_line()@.insert(new.id, new)
                &&& final(self).world_line()@.len() == old(self).world_line()@.len() + 1
                &&& effect(
                    old(self).world(),
                    final(self).world(),
                    final(self).world_line()@,
                    old(self).default_block(),
                    new,
                )
            },
    {
        apply(&mut self.world, &mut self.world_line, self.default_block, transaction)
    }

    /// The history of `(x, y, z)`, oldest first: each transaction with the
    /// block that the place held just before it.
    pub fn get_block_history(&self, x: i32, y: i32, z: i32) -> (history: Vec<
        (MetaBlock, Transaction),
    >)
        ensures
            is_history(
                self.world_line()@,
                (x, y, z),
                history_of(self.world_line()@, (x, y, z)),
            ),
            history@.len() == history_of(self.world_line()@, (x, y, z)).len(),
            forall|i: int|
                0 <= i < history@.len() ==> {
                    &&& (#[trigger] history@[i]).1 == history_of(self.world_line()@, (x, y, z))[i]
                    &&& history@[i].0 == replay(
                        history_of(self.world_line()@, (x, y, z)).take(i),
                        self.default_block(),
                    )
                },
    {
        block_history(&self.world_line, self.default_block, x, y, z)
    }
}

} // verus!
