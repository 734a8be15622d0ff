//! What a log means: which transaction undoes which, which transactions
//! make the history of a place, and what block a history leaves there.
//!
//! The log is read as a map from ids to committed transactions. The
//! functions that compute on the real log are stated against the
//! definitions here.

use crate::data::block::MetaBlock;
use crate::data::transaction::{Transaction, TransactionID, TransactionType};
use vstd::prelude::*;

verus! {

/// What holds of every log: it is finite; every entry is stored under its
/// own id and has a place exactly if it is no `Undo`; and every `Undo`
/// names a transaction that the log holds under an earlier id.
pub open spec fn log_sound(log: Map<TransactionID, Transaction>) -> bool {
    &&& log.dom().finite()
    &&& forall|id: TransactionID| #[trigger]
        log.contains_key(id) ==> {
            &&& log[id].id == id
            &&& log[id].transaction.well_formed()
            &&& (log[id].undone() matches Some(target) ==> log.contains_key(target)
                && target.before(id))
        }
}

/// Whether `id` may be given to the next transaction: its minor number is
/// 0 and its major number is one above the greatest in the log, or 0 in an
/// empty log.
pub open spec fn is_next_id(log: Map<TransactionID, Transaction>, id: TransactionID) -> bool {
    &&& id.sub_id == 0
    &&& forall|held: TransactionID| #[trigger] log.contains_key(held) ==> held.id < id.id
    &&& id.id == 0 || exists|held: TransactionID| #[trigger]
        log.contains_key(held) && held.id + 1 == id.id
}

/// Whether the log holds `undo` and `undo` is an `Undo` of `target`.
pub open spec fn undoes(
    log: Map<TransactionID, Transaction>,
    undo: TransactionID,
    target: TransactionID,
) -> bool {
    log.contains_key(undo) && log[undo].undone() == Some(target)
}

/// Whether `undo` is the earliest `Undo` of `target` in the log.
pub open spec fn is_first_undo(
    log: Map<TransactionID, Transaction>,
    undo: TransactionID,
    target: TransactionID,
) -> bool {
    &&& undoes(log, undo, target)
    &&& forall|other: TransactionID| #[trigger] undoes(log, other, target) ==> !other.before(undo)
}

/// The earliest `Undo` of `target` in the log, if there is one.
pub open spec fn first_undo(log: Map<TransactionID, Transaction>, target: TransactionID) -> Option<
    TransactionID,
> {
    if exists|undo: TransactionID| is_first_undo(log, undo, target) {
        Some(choose|undo: TransactionID| is_first_undo(log, undo, target))
    } else {
        None
    }
}

/// The place of an id among all ids, as one number.
pub open spec fn rank(id: TransactionID) -> int {
    id.id * 0x1_0000_0000 + id.sub_id
}

/// The chain of undos that starts at `id`: `id` itself, then the earliest
/// `Undo` of `id`, then the earliest `Undo` of that one, and so on until a
/// link has no `Undo`. In a sound log an `Undo` comes after what it
/// undoes, so the chain climbs and ends.
pub open spec fn undo_chain(log: Map<TransactionID, Transaction>, id: TransactionID) -> Seq<
    TransactionID,
>
    decreases 0x1_0000_0000_0000_0000 - rank(id),
{
    match first_undo(log, id) {
        Some(undo) => if id.before(undo) {
            seq![id] + undo_chain(log, undo)
        } else {
            seq![id]
        },
        None => seq![id],
    }
}

/// The ids of the transactions that write at `place`.
pub open spec fn affecting(log: Map<TransactionID, Transaction>, place: (i32, i32, i32)) -> Set<
    TransactionID,
> {
    Set::new(
        |id: TransactionID|
            log.contains_key(id) && !(log[id].transaction.kind() is Undo)
                && log[id].transaction.coords() == Some(place),
    )
}

/// Whether `id` belongs to the history of `place`: it is on the chain of
/// undos of a transaction that writes there.
pub open spec fn in_history(
    log: Map<TransactionID, Transaction>,
    place: (i32, i32, i32),
    id: TransactionID,
) -> bool {
    exists|origin: TransactionID| #[trigger]
        affecting(log, place).contains(origin) && undo_chain(log, origin).contains(id)
}

/// Whether the ids of `transactions` climb.
pub open spec fn ascending(transactions: Seq<Transaction>) -> bool {
    forall|i: int, j: int|
        0 <= i < j < transactions.len() ==> transactions[i].id.before(transactions[j].id)
}

/// Whether `transactions` is the history of `place`: the entries of the
/// log that belong to it, each once, by ascending id.
pub open spec fn is_history(
    log: Map<TransactionID, Transaction>,
    place: (i32, i32, i32),
    transactions: Seq<Transaction>,
) -> bool {
    &&& ascending(transactions)
    &&& forall|i: int|
        0 <= i < transactions.len() ==> log.contains_key(#[trigger] transactions[i].id)
            && log[transactions[i].id] == transactions[i]
    &&& forall|i: int|
        0 <= i < transactions.len() ==> in_history(log, place, #[trigger] transactions[i].id)
    &&& forall|id: TransactionID|
        in_history(log, place, id) ==> exists|i: int|
            0 <= i < transactions.len() && #[trigger] transactions[i].id == id
}

/// The history of `place`. `lemma_history_is_unique` shows that there is
/// at most one.
pub open spec fn history_of(log: Map<TransactionID, Transaction>, place: (i32, i32, i32)) -> Seq<
    Transaction,
> {
    choose|transactions: Seq<Transaction>| is_history(log, place, transactions)
}

/// The place where the transaction `id` acts: its own place, or for an
/// `Undo` the place where the transaction that it undoes acts.
pub open spec fn resolved_place(log: Map<TransactionID, Transaction>, id: TransactionID) -> Option<
    (i32, i32, i32),
>
    decreases rank(id),
{
    if !log.contains_key(id) {
        None
    } else {
        match log[id].undone() {
            Some(target) => if target.before(id) {
                resolved_place(log, target)
            } else {
                None
            },
            None => log[id].transaction.coords(),
        }
    }
}

/// The ids that the `Undo`s among `transactions` name.
pub open spec fn undone_ids(transactions: Seq<Transaction>) -> Set<TransactionID> {
    Set::new(
        |id: TransactionID|
            exists|i: int| 0 <= i < transactions.len() && #[trigger] transactions[i].undone() == Some(id),
    )
}

/// What a place holds after `transaction`, if it held `block` before and
/// the transactions in `undone` count as never committed. A `Replace`
/// that does not find the block that it expects changes nothing.
pub open spec fn replay_step(block: MetaBlock, transaction: Transaction, undone: Set<TransactionID>) -> MetaBlock {
    if undone.contains(transaction.id) {
        block
    } else {
        match transaction.transaction.kind() {
            TransactionType::SetBlock { block_set } => block_set,
            TransactionType::Replace { block_current, block_set } => if block == block_current {
                block_set
            } else {
                block
            },
            TransactionType::Undo { .. } => block,
        }
    }
}

/// What a place holds after `transactions` in their order, if it held
/// `default_block` before and the transactions in `undone` count as never
/// committed.
pub open spec fn replay_without(
    transactions: Seq<Transaction>,
    undone: Set<TransactionID>,
    default_block: MetaBlock,
) -> MetaBlock
    decreases transactions.len(),
{
    if transactions.len() == 0 {
        default_block
    } else {
        replay_step(
            replay_without(transactions.drop_last(), undone, default_block),
            transactions.last(),
            undone,
        )
    }
}

/// What a place holds after `transactions` in their order, if it held
/// `default_block` before: every transaction that an `Undo` among them
/// names is left out, and the others are applied one after the other.
pub open spec fn replay(transactions: Seq<Transaction>, default_block: MetaBlock) -> MetaBlock {
    replay_without(transactions, undone_ids(transactions), default_block)
}

/// The earliest `Undo` of a transaction is the only one that is earliest.
pub proof fn lemma_first_undo_is(
    log: Map<TransactionID, Transaction>,
    undo: TransactionID,
    target: TransactionID,
)
    requires
        is_first_undo(log, undo, target),
    ensures
        first_undo(log, target) == Some(undo),
{
}

/// A chain of undos starts with the transaction that it is the chain of.
pub proof fn lemma_chain_starts(log: Map<TransactionID, Transaction>, id: TransactionID)
    ensures
        undo_chain(log, id).len() >= 1,
        undo_chain(log, id)[0] == id,
{
}

/// The chain of undos of a transaction in the log stays in the log.
pub proof fn lemma_chain_in_log(log: Map<TransactionID, Transaction>, id: TransactionID)
    requires
        log.contains_key(id),
    ensures
        forall|i: int|
            0 <= i < undo_chain(log, id).len() ==> log.contains_key(
                #[trigger] undo_chain(log, id)[i],
            ),
    decreases 0x1_0000_0000_0000_0000 - rank(id),
{
    match first_undo(log, id) {
        Some(undo) => {
            if id.before(undo) {
                lemma_chain_in_log(log, undo);
                assert forall|i: int| 0 <= i < undo_chain(log, id).len() implies log.contains_key(
                    #[trigger] undo_chain(log, id)[i],
                ) by {
                    if i > 0 {
                        assert(undo_chain(log, id)[i] == undo_chain(log, undo)[i - 1]);
                    }
                }
            }
        },
        None => {},
    }
}

/// In a sound log every transaction acts at a place.
pub proof fn lemma_resolved_place_exists(log: Map<TransactionID, Transaction>, id: TransactionID)
    requires
        log_sound(log),
        log.contains_key(id),
    ensures
        resolved_place(log, id).is_some(),
    decreases rank(id),
{
    match log[id].undone() {
        Some(target) => {
            lemma_resolved_place_exists(log, target);
        },
        None => {
            log[id].transaction.lemma_place_unless_undo();
        },
    }
}

/// Whether a transaction in `transactions` has the id `id`.
spec fn has_id(transactions: Seq<Transaction>, id: TransactionID) -> bool {
    exists|i: int| 0 <= i < transactions.len() && #[trigger] transactions[i].id == id
}

/// Two sequences of climbing ids with the same members are the same.
proof fn lemma_ascending_ids_unique(a: Seq<Transaction>, b: Seq<Transaction>)
    requires
        ascending(a),
        ascending(b),
        forall|i: int| 0 <= i < a.len() ==> has_id(b, #[trigger] a[i].id),
        forall|j: int| 0 <= j < b.len() ==> has_id(a, #[trigger] b[j].id),
    ensures
        a.len() == b.len(),
        forall|i: int| 0 <= i < a.len() ==> a[i].id == b[i].id,
    decreases a.len(),
{
    if a.len() == 0 {
        if b.len() > 0 {
            assert(has_id(a, b[0].id));
        }
    } else {
        let last_a = a.len() - 1;
        let j = choose|j: int| 0 <= j < b.len() && #[trigger] b[j].id == a[last_a].id;
        let last_b = b.len() - 1;
        let i = choose|i: int| 0 <= i < a.len() && #[trigger] a[i].id == b[last_b].id;
        assert(j == last_b) by {
            if j < last_b {
                assert(b[j].id.before(b[last_b].id));
                if i < last_a {
                    assert(a[i].id.before(a[last_a].id));
                }
            }
        }
        let front_a = a.drop_last();
        let front_b = b.drop_last();
        assert forall|i: int| 0 <= i < front_a.len() implies has_id(
            front_b,
            #[trigger] front_a[i].id,
        ) by {
            let j = choose|j: int| 0 <= j < b.len() && #[trigger] b[j].id == a[i].id;
            assert(a[i].id.before(a[last_a].id));
            assert(front_b[j].id == front_a[i].id);
        }
        assert forall|j: int| 0 <= j < front_b.len() implies has_id(
            front_a,
            #[trigger] front_b[j].id,
        ) by {
            let i = choose|i: int| 0 <= i < a.len() && #[trigger] a[i].id == b[j].id;
            assert(b[j].id.before(b[last_b].id));
            assert(front_a[i].id == front_b[j].id);
        }
        lemma_ascending_ids_unique(front_a, front_b);
        assert forall|i: int| 0 <= i < a.len() implies a[i].id == b[i].id by {
            if i < last_a {
                assert(front_a[i].id == front_b[i].id);
            }
        }
    }
}

/// A place has one history: two sequences that are both its history are
/// the same sequence.
pub proof fn lemma_history_is_unique(
    log: Map<TransactionID, Transaction>,
    place: (i32, i32, i32),
    a: Seq<Transaction>,
    b: Seq<Transaction>,
)
    requires
        is_history(log, place, a),
        is_history(log, place, b),
    ensures
        a == b,
{
    assert forall|i: int| 0 <= i < a.len() implies has_id(b, #[trigger] a[i].id) by {}
    lemma_ascending_ids_unique(a, b);
}

/// A sequence that is the history of a place is `history_of` that place.
pub proof fn lemma_history_of(
    log: Map<TransactionID, Transaction>,
    place: (i32, i32, i32),
    transactions: Seq<Transaction>,
)
    requires
        is_history(log, place, transactions),
    ensures
        history_of(log, place) == transactions,
{
    lemma_history_is_unique(log, place, history_of(log, place), transactions);
}

/// Replaying depends on the undone ids only as far as they are ids of the
/// transactions that are replayed.
proof fn lemma_replay_agrees(
    transactions: Seq<Transaction>,
    undone: Set<TransactionID>,
    other: Set<TransactionID>,
    default_block: MetaBlock,
)
    requires
        forall|i: int|
            0 <= i < transactions.len() ==> undone.contains((#[trigger] transactions[i]).id)
                == other.contains(transactions[i].id),
    ensures
        replay_without(transactions, undone, default_block) == replay_without(
            transactions,
            other,
            default_block,
        ),
    decreases transactions.len(),
{
    if transactions.len() > 0 {
        let front = transactions.drop_last();
        assert forall|i: int| 0 <= i < front.len() implies undone.contains((#[trigger] front[i]).id)
            == other.contains(front[i].id) by {}
        lemma_replay_agrees(front, undone, other, default_block);
    }
}

/// Undoing the last write restores what was there before it: a history
/// that ends in a write and the `Undo` of that write leaves what the
/// history before the write leaves.
pub proof fn lemma_undo_restores(
    before: Seq<Transaction>,
    write: Transaction,
    undo: Transaction,
    default_block: MetaBlock,
)
    requires
        forall|i: int| 0 <= i < before.len() ==> (#[trigger] before[i]).id != write.id,
        write.undone().is_none(),
        undo.undone() == Some(write.id),
    ensures
        replay(before.push(write).push(undo), default_block) == replay(before, default_block),
{
    let full = before.push(write).push(undo);
    let undone = undone_ids(full);
    assert(full.drop_last() =~= before.push(write));
    assert(before.push(write).drop_last() =~= before);
    lemma_replay_agrees(before, undone, undone_ids(before), default_block);
    let middle = before.push(write);
    assert(replay_without(middle, undone, default_block) == replay_step(
        replay_without(before, undone, default_block),
        write,
        undone,
    ));
}

/// Among the `Undo`s of a transaction one is the earliest.
pub proof fn lemma_earliest_undo_exists(
    log: Map<TransactionID, Transaction>,
    undo: TransactionID,
    target: TransactionID,
)
    requires
        undoes(log, undo, target),
    ensures
        first_undo(log, target).is_some(),
    decreases rank(undo),
{
    if !is_first_undo(log, undo, target) {
        let other = choose|other: TransactionID|
            undoes(log, other, target) && other.before(undo);
        lemma_earliest_undo_exists(log, other, target);
    }
}

/// A later `Undo` of a transaction that was undone before is the earliest
/// `Undo` of nothing.
proof fn lemma_first_undo_kept(
    log: Map<TransactionID, Transaction>,
    again: Transaction,
    id: TransactionID,
)
    requires
        again.undone() matches Some(target) && first_undo(log, target).is_some(),
        forall|held: TransactionID| #[trigger] log.contains_key(held) ==> held.before(again.id),
    ensures
        first_undo(log.insert(again.id, again), id) == first_undo(log, id),
{
    let longer = log.insert(again.id, again);
    let target = again.undone().unwrap();
    assert forall|undo: TransactionID, undone: TransactionID|
        undoes(longer, undo, undone) <==> undoes(log, undo, undone) || (undo == again.id && undone
            == target) by {}
    match first_undo(log, id) {
        Some(first) => {
            lemma_first_undo_is(longer, first, id);
        },
        None => {
            assert forall|undo: TransactionID| !is_first_undo(longer, undo, id) by {
                if is_first_undo(longer, undo, id) {
                    assert(is_first_undo(log, undo, id));
                }
            }
        },
    }
}

/// A later `Undo` of a transaction that was undone before changes no chain
/// of undos.
proof fn lemma_chain_kept(log: Map<TransactionID, Transaction>, again: Transaction, id: TransactionID)
    requires
        again.undone() matches Some(target) && first_undo(log, target).is_some(),
        forall|held: TransactionID| #[trigger] log.contains_key(held) ==> held.before(again.id),
    ensures
        undo_chain(log.insert(again.id, again), id) == undo_chain(log, id),
    decreases 0x1_0000_0000_0000_0000 - rank(id),
{
    lemma_first_undo_kept(log, again, id);
    match first_undo(log, id) {
        Some(undo) => {
            if id.before(undo) {
                lemma_chain_kept(log, again, undo);
            }
        },
        None => {},
    }
}

/// Undoing a transaction once more changes no history: where the log
/// holds an `Undo` of a transaction, a later `Undo` of the same
/// transaction leaves the history of every place as it was, and with it
/// what replaying that history gives.
pub proof fn lemma_undo_again_keeps_history(
    log: Map<TransactionID, Transaction>,
    undo: TransactionID,
    again: Transaction,
    place: (i32, i32, i32),
    history: Seq<Transaction>,
)
    requires
        again.undone() matches Some(target) && undoes(log, undo, target),
        forall|held: TransactionID| #[trigger] log.contains_key(held) ==> held.before(again.id),
        is_history(log, place, history),
    ensures
        is_history(log.insert(again.id, again), place, history),
        history_of(log.insert(again.id, again), place) == history_of(log, place),
        forall|default_block: MetaBlock|
            replay(history_of(log.insert(again.id, again), place), default_block) == replay(
                history_of(log, place),
                default_block,
            ),
{
    let longer = log.insert(again.id, again);
    let target = again.undone().unwrap();
    lemma_earliest_undo_exists(log, undo, target);
    assert forall|id: TransactionID| in_history(longer, place, id) <==> in_history(
        log,
        place,
        id,
    ) by {
        if in_history(longer, place, id) {
            let origin = choose|origin: TransactionID| #[trigger]
                affecting(longer, place).contains(origin) && undo_chain(longer, origin).contains(
                    id,
                );
            lemma_chain_kept(log, again, origin);
            assert(affecting(log, place).contains(origin));
        }
        if in_history(log, place, id) {
            let origin = choose|origin: TransactionID| #[trigger]
                affecting(log, place).contains(origin) && undo_chain(log, origin).contains(id);
            lemma_chain_kept(log, again, origin);
            assert(affecting(longer, place).contains(origin));
        }
    }
    lemma_history_of(longer, place, history);
    lemma_history_of(log, place, history);
}

/// A transaction that the log gains later changes the place of none that
/// it holds.
pub proof fn lemma_resolved_place_kept(
    log: Map<TransactionID, Transaction>,
    later: Transaction,
    id: TransactionID,
)
    requires
        log_sound(log),
        log.contains_key(id),
        !log.contains_key(later.id),
    ensures
        resolved_place(log.insert(later.id, later), id) == resolved_place(log, id),
    decreases rank(id),
{
    match log[id].undone() {
        Some(target) => {
            lemma_resolved_place_kept(log, later, target);
        },
        None => {},
    }
}

/// The log only grows, and counts its commits: a log that grew out of the
/// empty log by commits alone holds exactly as many transactions as were
/// committed, and the commits have the major numbers 0, 1, 2 and so on in
/// their order, each above all before it, with the minor number 0.
pub proof fn lemma_log_counts_commits(
    logs: Seq<Map<TransactionID, Transaction>>,
    committed: Seq<Transaction>,
)
    requires
        logs.len() == committed.len() + 1,
        logs[0] == Map::<TransactionID, Transaction>::empty(),
        forall|i: int|
            0 <= i < committed.len() ==> is_next_id(#[trigger] logs[i], committed[i].id) && logs[i
                + 1] == logs[i].insert(committed[i].id, committed[i]),
    ensures
        forall|i: int|
            0 <= i < logs.len() ==> (#[trigger] logs[i]).dom().finite() && logs[i].len() == i,
        forall|i: int|
            0 <= i < committed.len() ==> (#[trigger] committed[i]).id == (TransactionID {
                id: i as u32,
                sub_id: 0,
            }) && i <= u32::MAX,
        forall|i: int, j: int|
            0 <= i < j < committed.len() ==> committed[i].id.before(committed[j].id),
    decreases committed.len(),
{
    if committed.len() > 0 {
        let last = committed.len() - 1;
        lemma_log_counts_commits(logs.drop_last(), committed.drop_last());
        let log = logs[last];
        assert(logs.drop_last()[last] == log);
        assert forall|i: int| 0 <= i < last implies (#[trigger] committed[i]).id == (TransactionID {
            id: i as u32,
            sub_id: 0,
        }) && i <= u32::MAX by {
            assert(committed.drop_last()[i] == committed[i]);
        }
        lemma_holds_earlier_commits(logs, committed, last);
        if last > 0 {
            assert(log.contains_key(committed[last - 1].id));
        }
        assert forall|i: int| 0 <= i < logs.len() implies (#[trigger] logs[i]).dom().finite()
            && logs[i].len() == i by {
            if i <= last {
                assert(logs.drop_last()[i] == logs[i]);
            }
        }
    }
}

/// A log that grew by commits alone holds the commits before it and no
/// other transaction.
proof fn lemma_holds_earlier_commits(
    logs: Seq<Map<TransactionID, Transaction>>,
    committed: Seq<Transaction>,
    at: int,
)
    requires
        logs.len() == committed.len() + 1,
        logs[0] == Map::<TransactionID, Transaction>::empty(),
        forall|i: int|
            0 <= i < committed.len() ==> logs[i + 1] == (#[trigger] logs[i]).insert(
                committed[i].id,
                committed[i],
            ),
        0 <= at < logs.len(),
    ensures
        forall|held: TransactionID|
            logs[at].contains_key(held) <==> exists|i: int|
                0 <= i < at && #[trigger] committed[i].id == held,
    decreases at,
{
    if at > 0 {
        lemma_holds_earlier_commits(logs, committed, at - 1);
        assert forall|held: TransactionID| logs[at].contains_key(held) implies exists|i: int|
            0 <= i < at && #[trigger] committed[i].id == held by {
            if held != committed[at - 1].id {
                assert(logs[at - 1].contains_key(held));
                let i = choose|i: int| 0 <= i < at - 1 && #[trigger] committed[i].id == held;
                assert(0 <= i < at && committed[i].id == held);
            }
        }
    }
}

/// Whether `ids` holds `id`.
fn holds_id(ids: &Vec<TransactionID>, id: TransactionID) -> (found: bool)
    ensures
        found == ids@.contains(id),
{
    let mut at: usize = 0;
    while at < ids.len()
        invariant
            at <= ids@.len(),
            forall|i: int| 0 <= i < at ==> ids@[i] != id,
        decreases ids@.len() - at,
    {
        if ids[at] == id {
            return true;
        }
        at = at + 1;
    }
    false
}

/// Replays `history` on a place that held `default_block`: transactions
/// that an `Undo` in `history` names are left out, the others are applied
/// in the order in which they stand.
pub fn run_history(history: &[Transaction], default_block: MetaBlock) -> (block: MetaBlock)
    ensures
        block == replay(history@, default_block),
{
    let mut undos: Vec<TransactionID> = Vec::new();
    let mut at: usize = 0;
    while at < history.len()
        invariant
            at <= history@.len(),
            forall|id: TransactionID|
                undos@.contains(id) <==> exists|i: int|
                    0 <= i < at && #[trigger] history@[i].undone() == Some(id),
        decreases history@.len() - at,
    {
        let ghost before = undos@;
        if let TransactionType::Undo { transaction } =
            history[at].get_transaction().get_transaction_type() {
            undos.push(transaction);
            assert forall|id: TransactionID| undos@.contains(id) implies exists|i: int|
                0 <= i < at + 1 && #[trigger] history@[i].undone() == Some(id) by {
                if !before.contains(id) {
                    assert(history@[at as int].undone() == Some(id));
                }
            }
            assert forall|id: TransactionID|
                (exists|i: int|
                    0 <= i < at + 1 && #[trigger] history@[i].undone() == Some(
                        id,
                    )) implies undos@.contains(id) by {
                let i = choose|i: int| 0 <= i < at + 1 && #[trigger] history@[i].undone() == Some(id);
                if i < at {
                    assert(before.contains(id));
                    let k = choose|k: int| 0 <= k < before.len() && before[k] == id;
                    assert(undos@[k] == id);
                } else {
                    assert(undos@[undos@.len() - 1] == id);
                }
            }
        }
        at = at + 1;
    }
    let ghost undone = undone_ids(history@);
    let mut block = default_block;
    let mut at: usize = 0;
    while at < history.len()
        invariant
            at <= history@.len(),
            undone == undone_ids(history@),
            forall|id: TransactionID| undos@.contains(id) == undone.contains(id),
            block == replay_without(history@.take(at as int), undone, default_block),
        decreases history@.len() - at,
    {
        let transaction = &history[at];
        proof {
            let next = history@.take(at + 1);
            assert(next.drop_last() =~= history@.take(at as int));
        }
        if !holds_id(&undos, transaction.get_id()) {
            match transaction.get_transaction().get_transaction_type() {
                TransactionType::SetBlock { block_set } => {
                    block = block_set;
                },
                TransactionType::Replace { block_current, block_set } => {
                    if block == block_current {
                        block = block_set;
                    }
                },
                TransactionType::Undo { .. } => {},
            }
        }
        at = at + 1;
    }
    assert(history@.take(at as int) =~= history@);
    block
}

} // verus!
