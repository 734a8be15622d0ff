//! The world line: the log of all committed transactions, in the order of
//! their ids. Nothing is ever taken out of it or changed in it.

use crate::data::transaction::{RawTransaction, Transaction, TransactionID, TransactionType};
use crate::history::{
    affecting, first_undo, history_of, in_history, is_history, is_next_id, lemma_chain_in_log,
    lemma_chain_starts, lemma_first_undo_is, lemma_history_of, lemma_resolved_place_exists,
    log_sound, rank, resolved_place, undo_chain, undoes,
};
use vstd::prelude::*;
use vstd::set_lib::lemma_map_size;

verus! {

/// The persistent ordered map of the crate im.
#[verifier::external_type_specification]
#[verifier::external_body]
#[verifier::reject_recursive_types(K)]
#[verifier::reject_recursive_types(V)]
pub struct ExOrdMap<K, V>(im::OrdMap<K, V>);

/// The persistent ordered set of the crate im.
#[verifier::external_type_specification]
#[verifier::external_body]
#[verifier::reject_recursive_types(A)]
pub struct ExOrdSet<A>(im::OrdSet<A>);

/// The log as it is stored: committed transactions under their ids, an id
/// being the pair of its major and minor number.
pub type LogMap = im::OrdMap<(u32, u32), Transaction>;

/// A set of ids, an id being the pair of its major and minor number.
pub type IdSet = im::OrdSet<(u32, u32)>;

/// The entries of a stored log.
pub uninterp spec fn log_entries(log: LogMap) -> Map<(u32, u32), Transaction>;

/// The members of a set of ids.
pub uninterp spec fn id_set(ids: IdSet) -> Set<(u32, u32)>;

/// The order of pairs: by the first number, then by the second.
pub open spec fn pair_before(a: (u32, u32), b: (u32, u32)) -> bool {
    a.0 < b.0 || (a.0 == b.0 && a.1 < b.1)
}

/// Whether `listed` holds the entries of `entries`, each once, by
/// ascending key.
pub open spec fn lists_entries(
    listed: Seq<((u32, u32), Transaction)>,
    entries: Map<(u32, u32), Transaction>,
) -> bool {
    &&& forall|i: int, j: int| 0 <= i < j < listed.len() ==> pair_before(listed[i].0, listed[j].0)
    &&& forall|i: int|
        0 <= i < listed.len() ==> entries.contains_key(#[trigger] listed[i].0)
            && entries[listed[i].0] == listed[i].1
    &&& forall|key: (u32, u32)|
        entries.contains_key(key) ==> exists|i: int|
            0 <= i < listed.len() && #[trigger] listed[i].0 == key
}

/// Whether `listed` holds the members of `ids`, each once, in ascending
/// order.
pub open spec fn lists_ids(listed: Seq<(u32, u32)>, ids: Set<(u32, u32)>) -> bool {
    &&& forall|i: int, j: int| 0 <= i < j < listed.len() ==> pair_before(listed[i], listed[j])
    &&& forall|i: int| 0 <= i < listed.len() ==> ids.contains(#[trigger] listed[i])
    &&& forall|id: (u32, u32)|
        ids.contains(id) ==> exists|i: int| 0 <= i < listed.len() && #[trigger] listed[i] == id
}

/// `OrdMap::new` of the crate im: a map without entries.
#[verifier::external_body]
fn log_new() -> (log: LogMap)
    ensures
        log_entries(log).dom() == Set::<(u32, u32)>::empty(),
{
    im::OrdMap::new()
}

/// `OrdMap::len` of the crate im: the number of entries.
#[verifier::external_body]
fn log_len(log: &LogMap) -> (length: usize)
    ensures
        length == log_entries(*log).len(),
{
    log.len()
}

/// `OrdMap::get_max` of the crate im: the entry with the greatest key, or
/// `None` for a map without entries.
#[verifier::external_body]
fn log_get_max(log: &LogMap) -> (last: Option<((u32, u32), Transaction)>)
    ensures
        match last {
            Some(entry) => {
                &&& log_entries(*log).contains_key(entry.0)
                &&& log_entries(*log)[entry.0] == entry.1
                &&& forall|key: (u32, u32)| #[trigger]
                    log_entries(*log).contains_key(key) ==> !pair_before(entry.0, key)
            },
            None => log_entries(*log).dom() == Set::<(u32, u32)>::empty(),
        },
{
    log.get_max().copied()
}

/// `OrdMap::get` of the crate im: the entry under `key`, if the map has
/// one.
#[verifier::external_body]
fn log_get(log: &LogMap, key: &(u32, u32)) -> (found: Option<Transaction>)
    ensures
        found == if log_entries(*log).contains_key(*key) {
            Some(log_entries(*log)[*key])
        } else {
            None
        },
{
    log.get(key).copied()
}

/// `OrdMap::update` of the crate im: a new map with `transaction` under
/// `key`, in place of what `log` has there, and with the other entries of
/// `log`.
#[verifier::external_body]
fn log_update(log: &LogMap, key: (u32, u32), transaction: Transaction) -> (updated: LogMap)
    ensures
        log_entries(updated) == log_entries(*log).insert(key, transaction),
{
    log.update(key, transaction)
}

/// `OrdMap::iter` of the crate im: the entries from the lowest key to the
/// highest, copied into a vector.
#[verifier::external_body]
fn log_ascending(log: &LogMap) -> (listed: Vec<((u32, u32), Transaction)>)
    ensures
        lists_entries(listed@, log_entries(*log)),
{
    log.iter().map(|(key, transaction)| (*key, *transaction)).collect()
}

/// `OrdSet::new` of the crate im: a set without members.
#[verifier::external_body]
fn ids_new() -> (ids: IdSet)
    ensures
        id_set(ids) == Set::<(u32, u32)>::empty(),
{
    im::OrdSet::new()
}

/// `OrdSet::insert` of the crate im: `id` becomes a member; the other
/// members stay.
#[verifier::external_body]
fn ids_insert(ids: &mut IdSet, id: (u32, u32))
    ensures
        id_set(*final(ids)) == id_set(*old(ids)).insert(id),
{
    ids.insert(id);
}

/// `OrdSet::iter` of the crate im: the members from the lowest to the
/// highest, copied into a vector.
#[verifier::external_body]
fn ids_ascending(ids: &IdSet) -> (listed: Vec<(u32, u32)>)
    ensures
        lists_ids(listed@, id_set(*ids)),
{
    ids.iter().copied().collect()
}

/// The log of committed transactions. Its view maps every id that was
/// given out to the transaction that was committed under it.
pub struct WorldLine {
    transactions: LogMap,
}

impl View for WorldLine {
    type V = Map<TransactionID, Transaction>;

    closed spec fn view(&self) -> Map<TransactionID, Transaction> {
        Map::new(
            |id: TransactionID| log_entries(self.transactions).contains_key(id.pair()),
            |id: TransactionID| log_entries(self.transactions)[id.pair()],
        )
    }
}

impl WorldLine {
    /// What holds of every log: it is finite and sound.
    #[verifier::type_invariant]
    pub closed spec fn well_formed(self) -> bool {
        log_entries(self.transactions).dom().finite() && log_sound(self@)
    }

    /// Every log is sound.
    pub proof fn lemma_sound(self)
        requires
            self.well_formed(),
        ensures
            log_sound(self@),
    {
    }

    /// Whether the next transaction can get an id: no major number in the
    /// log is the greatest `u32`.
    pub open spec fn has_room(self) -> bool {
        forall|id: TransactionID| #[trigger] self@.contains_key(id) ==> id.id < u32::MAX
    }

    /// Whether `transaction` can be committed next: there is room, and if it
    /// is an `Undo`, the log holds what it undoes.
    pub open spec fn admits(self, transaction: RawTransaction) -> bool {
        &&& self.has_room()
        &&& transaction.undone() matches Some(target) ==> self@.contains_key(target)
    }

    /// A log without transactions.
    pub fn new() -> (line: WorldLine)
        ensures
            line@ == Map::<TransactionID, Transaction>::empty(),
            log_sound(line@),
    {
        let transactions = log_new();
        proof {
            let view = Map::new(
                |id: TransactionID| log_entries(transactions).contains_key(id.pair()),
                |id: TransactionID| log_entries(transactions)[id.pair()],
            );
            assert(view =~= Map::<TransactionID, Transaction>::empty());
        }
        WorldLine { transactions }
    }

    /// The number of committed transactions.
    pub fn len(&self) -> (length: usize)
        ensures
            length == self@.len(),
    {
        proof {
            use_type_invariant(self);
            let stored = log_entries(self.transactions).dom();
            let id_of = |key: (u32, u32)| TransactionID { id: key.0, sub_id: key.1 };
            assert(stored.map(id_of) =~= self@.dom());
            lemma_map_size(stored, self@.dom(), id_of);
        }
        log_len(&self.transactions)
    }

    /// Whether the next transaction can get an id.
    pub fn room_left(&self) -> (room: bool)
        ensures
            room == self.has_room(),
    {
        match log_get_max(&self.transactions) {
            Some((key, _)) => {
                proof {
                    let last = TransactionID { id: key.0, sub_id: key.1 };
                    assert(self@.contains_key(last));
                }
                key.0 < u32::MAX
            },
            None => true,
        }
    }

    /// Commits `transaction` under the next id, and gives the committed
    /// transaction. The log gains this one entry and keeps all others.
    pub fn add_transaction(&mut self, transaction: RawTransaction) -> (committed: Transaction)
        requires
            old(self).admits(transaction),
        ensures
            committed.transaction == transaction,
            is_next_id(old(self)@, committed.id),
            !old(self)@.contains_key(committed.id),
            final(self)@ == old(self)@.insert(committed.id, committed),
            final(self)@.len() == old(self)@.len() + 1,
            log_sound(old(self)@),
            log_sound(final(self)@),
    {
        proof {
            use_type_invariant(&*self);
            use_type_invariant(&transaction);
        }
        let last_transaction = log_get_max(&self.transactions);
        let id = match last_transaction {
            Some((key, _)) => {
                let last = TransactionID::new_from_parts(key.0, key.1);
                assert(self@.contains_key(last));
                last.increment_major()
            },
            None => TransactionID::new(),
        };
        let new_transaction = Transaction::new(transaction, id);
        let ghost before = self@;
        let key = (id.get_id(), id.get_sub_id());
        let updated = log_update(&self.transactions, key, new_transaction);
        proof {
            let after = Map::new(
                |id: TransactionID| log_entries(updated).contains_key(id.pair()),
                |id: TransactionID| log_entries(updated)[id.pair()],
            );
            assert(after =~= before.insert(id, new_transaction));
        }
        self.transactions = updated;
        new_transaction
    }

    /// The transaction that was committed under `transaction_id`, if any.
    pub fn lookup_transaction(&self, transaction_id: TransactionID) -> (found: Option<Transaction>)
        ensures
            found == if self@.contains_key(transaction_id) {
                Some(self@[transaction_id])
            } else {
                None
            },
    {
        let key = (transaction_id.get_id(), transaction_id.get_sub_id());
        log_get(&self.transactions, &key)
    }

    /// The earliest `Undo` of `transaction_id` in the log, if it was undone.
    /// Undoing a transaction more than once is the same as undoing it
    /// once, so the earliest stands for all.
    pub fn get_undo(&self, transaction_id: TransactionID) -> (undo: Option<TransactionID>)
        ensures
            undo == first_undo(self@, transaction_id),
            undo matches Some(found) ==> transaction_id.before(found),
    {
        proof {
            use_type_invariant(self);
        }
        let transactions = log_ascending(&self.transactions);
        let mut at: usize = 0;
        while at < transactions.len()
            invariant
                at <= transactions@.len(),
                lists_entries(transactions@, log_entries(self.transactions)),
                log_sound(self@),
                forall|i: int|
                    0 <= i < at ==> (#[trigger] transactions@[i]).1.undone() != Some(transaction_id),
            decreases transactions@.len() - at,
        {
            let key = transactions[at].0;
            let v = transactions[at].1;
            match v.get_transaction().get_transaction_type() {
                TransactionType::Undo { transaction } => {
                    if transaction == transaction_id {
                        let found = TransactionID::new_from_parts(key.0, key.1);
                        proof {
                            assert forall|other: TransactionID| #[trigger]
                                undoes(self@, other, transaction_id) implies !other.before(found) by {
                                let j = choose|j: int|
                                    0 <= j < transactions@.len() && #[trigger] transactions@[j].0
                                        == other.pair();
                                if j > at {
                                    assert(pair_before(transactions@[at as int].0, transactions@[j].0));
                                }
                            }
                            lemma_first_undo_is(self@, found, transaction_id);
                        }
                        return Some(found);
                    }
                },
                _ => (),
            }
            at = at + 1;
        }
        None
    }

    /// The chain of undos of `transaction_id`: the id itself, the earliest
    /// `Undo` of it, the earliest `Undo` of that one, and so on.
    pub fn get_undo_history(&self, transaction_id: TransactionID) -> (history: Vec<TransactionID>)
        ensures
            history@ == undo_chain(self@, transaction_id),
    {
        let mut history: Vec<TransactionID> = Vec::new();
        let mut transaction = Some(transaction_id);
        loop
            invariant_except_break
                transaction.is_some(),
                history@ + undo_chain(self@, transaction.unwrap()) == undo_chain(
                    self@,
                    transaction_id,
                ),
            ensures
                history@ == undo_chain(self@, transaction_id),
            decreases
                    match transaction {
                        Some(t) => 0x1_0000_0000_0000_0000 - rank(t),
                        None => 0,
                    },
        {
            let t = match transaction {
                Some(t) => t,
                None => {
                    break ;
                },
            };
            history.push(t);
            transaction = self.get_undo(t);
            if transaction.is_none() {
                break ;
            }
        }
        history
    }

    /// The ids of the transactions that write at `(x, y, z)`. An `Undo`
    /// names no place and is not among them.
    pub fn get_transactions_for_block(&self, x: i32, y: i32, z: i32) -> (ids: IdSet)
        ensures
            forall|id: TransactionID|
                id_set(ids).contains(#[trigger] id.pair()) <==> affecting(self@, (x, y, z)).contains(id),
    {
        proof {
            use_type_invariant(self);
        }
        let mut set = ids_new();
        let transactions = log_ascending(&self.transactions);
        let mut at: usize = 0;
        while at < transactions.len()
            invariant
                at <= transactions@.len(),
                lists_entries(transactions@, log_entries(self.transactions)),
                log_sound(self@),
                forall|key: (u32, u32)|
                    id_set(set).contains(key) <==> exists|i: int|
                        0 <= i < at && (#[trigger] transactions@[i]).0 == key
                            && transactions@[i].1.transaction.coords() == Some((x, y, z)),
            decreases transactions@.len() - at,
        {
            let key = transactions[at].0;
            let v = transactions[at].1;
            let here = match v.get_transaction().get_coords() {
                Some((i, j, k)) => i == x && j == y && k == z,
                None => false,
            };
            if here {
                ids_insert(&mut set, key);
            }
            at = at + 1;
        }
        proof {
            assert forall|id: TransactionID|
                id_set(set).contains(#[trigger] id.pair()) <==> affecting(self@, (x, y, z)).contains(
                    id,
                ) by {
                if id_set(set).contains(id.pair()) {
                    let i = choose|i: int|
                        0 <= i < at && (#[trigger] transactions@[i]).0 == id.pair()
                            && transactions@[i].1.transaction.coords() == Some((x, y, z));
                    assert(self@.contains_key(id));
                    self@[id].transaction.lemma_place_unless_undo();
                }
            }
        }
        set
    }

    /// The place where the transaction `transaction` acts: its own place,
    /// or for an `Undo` the place where the transaction that it undoes
    /// acts. `None` for an id that the log does not hold.
    pub fn get_undone_block(&self, transaction: TransactionID) -> (place: Option<(i32, i32, i32)>)
        ensures
            place == resolved_place(self@, transaction),
            place.is_some() <==> self@.contains_key(transaction),
        decreases rank(transaction),
    {
        proof {
            use_type_invariant(self);
            if self@.contains_key(transaction) {
                lemma_resolved_place_exists(self@, transaction);
            }
        }
        if let Some(t) = self.lookup_transaction(transaction) {
            match t.get_transaction().get_transaction_type() {
                TransactionType::Undo { transaction: tid } => self.get_undone_block(tid),
                _ => t.get_transaction().get_coords(),
            }
        } else {
            None
        }
    }

    /// The history of `(x, y, z)`: the transactions that write there and
    /// the chains of undos of each of them, every transaction once, by
    /// ascending id.
    pub fn get_block_history(&self, x: i32, y: i32, z: i32) -> (history: Vec<Transaction>)
        ensures
            is_history(self@, (x, y, z), history@),
            history@ == history_of(self@, (x, y, z)),
    {
        proof {
            use_type_invariant(self);
        }
        let ghost place = (x, y, z);
        let mut set = self.get_transactions_for_block(x, y, z);
        let origins = ids_ascending(&set);
        proof {
            assert forall|id: TransactionID|
                id_set(set).contains(#[trigger] id.pair()) implies in_history(self@, place, id) by {
                lemma_chain_starts(self@, id);
            }
        }
        let mut at: usize = 0;
        while at < origins.len()
            invariant
                at <= origins@.len(),
                log_sound(self@),
                forall|i: int|
                    0 <= i < origins@.len() ==> affecting(self@, place).contains(
                        TransactionID { id: (#[trigger] origins@[i]).0, sub_id: origins@[i].1 },
                    ),
                forall|id: TransactionID|
                    affecting(self@, place).contains(id) ==> id_set(set).contains(#[trigger] id.pair()),
                forall|id: TransactionID|
                    affecting(self@, place).contains(id) ==> exists|i: int|
                        0 <= i < origins@.len() && #[trigger] origins@[i] == id.pair(),
                forall|id: TransactionID|
                    id_set(set).contains(#[trigger] id.pair()) ==> in_history(self@, place, id),
                forall|i: int, id: TransactionID|
                    0 <= i < at && undo_chain(
                        self@,
                        TransactionID { id: (#[trigger] origins@[i]).0, sub_id: origins@[i].1 },
                    ).contains(id) ==> id_set(set).contains(#[trigger] id.pair()),
            decreases origins@.len() - at,
        {
            let origin = TransactionID::new_from_parts(origins[at].0, origins[at].1);
            let chain = self.get_undo_history(origin);
            let mut link: usize = 0;
            while link < chain.len()
                invariant
                    link <= chain@.len(),
                    at < origins@.len(),
                    origin == (TransactionID { id: origins@[at as int].0, sub_id: origins@[at as int].1 }),
                    affecting(self@, place).contains(origin),
                    chain@ == undo_chain(self@, origin),
                    forall|id: TransactionID|
                        affecting(self@, place).contains(id) ==> id_set(set).contains(
                            #[trigger] id.pair(),
                        ),
                    forall|id: TransactionID|
                        id_set(set).contains(#[trigger] id.pair()) ==> in_history(self@, place, id),
                    forall|i: int, id: TransactionID|
                        0 <= i < at && undo_chain(
                            self@,
                            TransactionID { id: (#[trigger] origins@[i]).0, sub_id: origins@[i].1 },
                        ).contains(id) ==> id_set(set).contains(#[trigger] id.pair()),
                    forall|j: int| 0 <= j < link ==> id_set(set).contains((#[trigger] chain@[j]).pair()),
                decreases chain@.len() - link,
            {
                let v = chain[link];
                ids_insert(&mut set, (v.get_id(), v.get_sub_id()));
                link = link + 1;
            }
            at = at + 1;
        }
        let ordered = ids_ascending(&set);
        let mut output: Vec<Transaction> = Vec::new();
        let mut at: usize = 0;
        while at < ordered.len()
            invariant
                at <= ordered@.len(),
                log_sound(self@),
                lists_ids(ordered@, id_set(set)),
                forall|id: TransactionID|
                    id_set(set).contains(#[trigger] id.pair()) <==> in_history(self@, place, id),
                output@.len() == at,
                forall|i: int|
                    0 <= i < at ==> {
                        &&& (#[trigger] output@[i]).id.pair() == ordered@[i]
                        &&& self@.contains_key(output@[i].id)
                        &&& self@[output@[i].id] == output@[i]
                    },
            decreases ordered@.len() - at,
        {
            let id = TransactionID::new_from_parts(ordered[at].0, ordered[at].1);
            proof {
                assert(id_set(set).contains(id.pair()));
                let origin = choose|origin: TransactionID| #[trigger]
                    affecting(self@, place).contains(origin) && undo_chain(self@, origin).contains(
                        id,
                    );
                lemma_chain_in_log(self@, origin);
            }
            let transaction = self.lookup_transaction(id).unwrap();
            output.push(transaction);
            at = at + 1;
        }
        proof {
            assert forall|i: int, j: int| 0 <= i < j < output@.len() implies output@[i].id.before(
                output@[j].id,
            ) by {
                assert(pair_before(ordered@[i], ordered@[j]));
            }
            assert forall|id: TransactionID| in_history(self@, place, id) implies exists|i: int|
                0 <= i < output@.len() && #[trigger] output@[i].id == id by {
                let i = choose|i: int| 0 <= i < ordered@.len() && #[trigger] ordered@[i] == id.pair();
                assert(output@[i].id == id);
            }
            lemma_history_of(self@, place, output@);
        }
        output
    }
}

} // verus!
