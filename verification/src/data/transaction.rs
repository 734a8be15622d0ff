//! Transactions: what a caller asks for, and what the log has committed.

use crate::data::block::MetaBlock;
use std::cmp::Ordering;
use vstd::std_specs::cmp::PartialOrdSpec;
use vstd::prelude::*;

verus! {

/// The place of a committed transaction in the log: a major number, and a
/// minor number that orders ids with the same major number.
#[derive(Copy, Clone, Debug, PartialEq, Eq, Structural, Ord)]
pub struct TransactionID {
    pub id: u32,
    pub sub_id: u32,
}

impl TransactionID {
    /// The order of ids: by major number, then by minor number.
    pub open spec fn before(self, other: TransactionID) -> bool {
        self.id < other.id || (self.id == other.id && self.sub_id < other.sub_id)
    }

    /// The id as a pair of major and minor number.
    pub open spec fn pair(self) -> (u32, u32) {
        (self.id, self.sub_id)
    }

    /// The first id: major and minor number 0.
    pub fn new() -> (first: TransactionID)
        ensures
            first == (TransactionID { id: 0, sub_id: 0 }),
    {
        TransactionID { id: 0, sub_id: 0 }
    }

    /// The major number.
    pub fn get_id(&self) -> (major: u32)
        ensures
            major == self.id,
    {
        self.id
    }

    /// The minor number.
    pub fn get_sub_id(&self) -> (minor: u32)
        ensures
            minor == self.sub_id,
    {
        self.sub_id
    }

    /// The id with major number `id` and minor number `sub_id`.
    pub fn new_from_parts(id: u32, sub_id: u32) -> (made: TransactionID)
        ensures
            made == (TransactionID { id, sub_id }),
    {
        TransactionID { id, sub_id }
    }

    /// The first id with the next major number.
    pub fn increment_major(&self) -> (next: TransactionID)
        requires
            self.id < u32::MAX,
        ensures
            next.id == self.id + 1,
            next.sub_id == 0,
    {
        let id = self.id + 1;
        TransactionID { id, sub_id: 0 }
    }

    /// The id for a revision of the same transaction. Minor numbers are
    /// set aside for revisions; the log makes none, and the id is handed
    /// back as it is.
    pub fn increment_minor(&self) -> (next: TransactionID)
        ensures
            next == *self,
    {
        let id = self.id;
        let sub_id = self.sub_id;
        TransactionID { id, sub_id }
    }
}

impl PartialOrd for TransactionID {
    fn partial_cmp(&self, other: &TransactionID) -> (order: Option<Ordering>) {
        if self.id < other.id {
            Some(Ordering::Less)
        } else if self.id > other.id {
            Some(Ordering::Greater)
        } else if self.sub_id < other.sub_id {
            Some(Ordering::Less)
        } else if self.sub_id > other.sub_id {
            Some(Ordering::Greater)
        } else {
            Some(Ordering::Equal)
        }
    }
}

impl vstd::std_specs::cmp::PartialOrdSpecImpl for TransactionID {
    open spec fn obeys_partial_cmp_spec() -> bool {
        true
    }

    open spec fn partial_cmp_spec(&self, other: &TransactionID) -> Option<Ordering> {
        if self.before(*other) {
            Some(Ordering::Less)
        } else if other.before(*self) {
            Some(Ordering::Greater)
        } else {
            Some(Ordering::Equal)
        }
    }
}

/// Ids are in a total order: a smaller major number comes first, and among
/// equal major numbers the smaller minor number. This is the order that
/// `<` computes.
pub proof fn lemma_id_order(a: TransactionID, b: TransactionID)
    ensures
        a.id < b.id ==> a.before(b),
        a.id == b.id ==> (a.before(b) <==> a.sub_id < b.sub_id),
        a.before(b) || b.before(a) || a == b,
        !(a.before(b) && b.before(a)),
        !a.before(a),
        a.before(b) <==> a.partial_cmp_spec(&b) == Some(Ordering::Less),
{
}

/// The order of ids is transitive.
pub proof fn lemma_id_order_transitive(a: TransactionID, b: TransactionID, c: TransactionID)
    requires
        a.before(b),
        b.before(c),
    ensures
        a.before(c),
{
}

/// What a transaction does.
///
/// `SetBlock` writes `block_set`, whatever the place holds. `Replace` writes
/// `block_set` if the place holds `block_current`. `Undo` makes the world
/// appear as if `transaction` had never been committed.
#[derive(Copy, Clone, Debug, PartialEq, Eq, Structural)]
pub enum TransactionType {
    SetBlock { block_set: MetaBlock },
    Replace { block_current: MetaBlock, block_set: MetaBlock },
    Undo { transaction: TransactionID },
}

impl TransactionType {
    /// A transaction that writes `block`.
    pub fn new_set(block: MetaBlock) -> (kind: TransactionType)
        ensures
            kind == (TransactionType::SetBlock { block_set: block }),
    {
        TransactionType::SetBlock { block_set: block }
    }

    /// A transaction that writes `replacement` where `original` is.
    pub fn new_replace(original: MetaBlock, replacement: MetaBlock) -> (kind: TransactionType)
        ensures
            kind == (TransactionType::Replace { block_current: original, block_set: replacement }),
    {
        TransactionType::Replace { block_current: original, block_set: replacement }
    }

    /// A transaction that undoes `transaction`.
    pub fn new_undo(transaction: TransactionID) -> (kind: TransactionType)
        ensures
            kind == (TransactionType::Undo { transaction }),
    {
        TransactionType::Undo { transaction }
    }
}

/// A moment of wall-clock time with the offset of the clock that gave it.
/// The library stores it and hands it back; it never reads it.
#[derive(Copy, Clone, Debug, PartialEq, Eq, Structural)]
pub struct Timestamp {
    /// Seconds since 1970-01-01 00:00:00 UTC, leap seconds not counted.
    pub seconds: i64,
    /// Nanoseconds since the last full second.
    pub nanos: u32,
    /// Seconds that local time is ahead of UTC.
    pub offset: i32,
}

/// The owner of a transaction whose owner is unknown: the nil UUID.
pub open spec fn unknown_owner() -> u128 {
    0
}

/// `Uuid::nil` of the crate uuid, as the number that `Uuid::as_u128` gives
/// for it. The contract claims that this number is 0: the nil UUID has all
/// 128 bits unset.
#[verifier::external_body]
fn nil_owner() -> (owner: u128)
    ensures
        owner == unknown_owner(),
{
    uuid::Uuid::nil().as_u128()
}

/// `Local::now` of the crate chrono: the time on the local clock, with its
/// seconds (`timestamp`), nanoseconds (`timestamp_subsec_nanos`) and offset
/// (`local_minus_utc`) taken apart. Nothing is claimed of the result.
#[verifier::external_body]
fn local_now() -> (now: Timestamp) {
    let now = chrono::Local::now().fixed_offset();
    Timestamp {
        seconds: now.timestamp(),
        nanos: now.timestamp_subsec_nanos(),
        offset: now.offset().local_minus_utc(),
    }
}

/// A transaction that the log has not seen yet: what to do, who asks, when,
/// and where. `SetBlock` and `Replace` have a place; `Undo` has none, it acts
/// where the transaction that it undoes acted.
#[derive(Copy, Clone, Debug, PartialEq, Eq)]
pub struct RawTransaction {
    transaction_type: TransactionType,
    owner: u128,
    time: Option<Timestamp>,
    coords: Option<(i32, i32, i32)>,
}

impl RawTransaction {
    /// What every transaction satisfies: it has a place exactly if it is no
    /// `Undo`.
    #[verifier::type_invariant]
    pub closed spec fn well_formed(self) -> bool {
        self.transaction_type is Undo <==> self.coords.is_none()
    }

    /// The id of the transaction that this one undoes, if it is an `Undo`.
    pub open spec fn undone(self) -> Option<TransactionID> {
        match self.kind() {
            TransactionType::Undo { transaction } => Some(transaction),
            _ => None,
        }
    }

    /// A transaction has a place exactly if it is no `Undo`.
    pub proof fn lemma_place_unless_undo(self)
        requires
            self.well_formed(),
        ensures
            self.kind() is Undo <==> self.coords().is_none(),
    {
    }

    /// What the transaction does.
    pub closed spec fn kind(self) -> TransactionType {
        self.transaction_type
    }

    /// Who asked for the transaction.
    pub closed spec fn owner(self) -> u128 {
        self.owner
    }

    /// When the transaction was asked for.
    pub closed spec fn time(self) -> Option<Timestamp> {
        self.time
    }

    /// The place `(x, y, z)` that the transaction names.
    pub closed spec fn coords(self) -> Option<(i32, i32, i32)> {
        self.coords
    }

    /// What the transaction does.
    pub fn get_transaction_type(&self) -> (kind: TransactionType)
        ensures
            kind == self.kind(),
    {
        self.transaction_type
    }

    /// Who asked for the transaction.
    pub fn get_owner(&self) -> (owner: u128)
        ensures
            owner == self.owner(),
    {
        self.owner
    }

    /// When the transaction was asked for.
    pub fn get_time(&self) -> (time: Option<Timestamp>)
        ensures
            time == self.time(),
    {
        self.time
    }

    /// The place that the transaction names.
    pub fn get_coords(&self) -> (coords: Option<(i32, i32, i32)>)
        ensures
            coords == self.coords(),
    {
        self.coords
    }
}

/// Collects the parts of a transaction. Only the kind is needed from the
/// start; `SetBlock` and `Replace` need all three coordinates before they build.
#[derive(Copy, Clone, Debug, PartialEq, Eq)]
pub struct RawTransactionBuilder {
    pub transaction_type: TransactionType,
    pub owner: Option<u128>,
    pub time: Option<Timestamp>,
    pub coord_x: Option<i32>,
    pub coord_y: Option<i32>,
    pub coord_z: Option<i32>,
}

impl RawTransactionBuilder {
    /// The place that the builder holds, once all three coordinates are set.
    pub open spec fn place(self) -> Option<(i32, i32, i32)> {
        match (self.coord_x, self.coord_y, self.coord_z) {
            (Some(x), Some(y), Some(z)) => Some((x, y, z)),
            _ => None,
        }
    }

    /// Whether a transaction can be built: an `Undo` always, the others once
    /// they have a place.
    pub open spec fn complete(self) -> bool {
        self.transaction_type is Undo || self.place().is_some()
    }

    /// A builder for a transaction of kind `transaction_type`, with nothing
    /// else set.
    pub fn new(transaction_type: TransactionType) -> (builder: RawTransactionBuilder)
        ensures
            builder == (RawTransactionBuilder {
                transaction_type,
                owner: None,
                time: None,
                coord_x: None,
                coord_y: None,
                coord_z: None,
            }),
    {
        RawTransactionBuilder {
            transaction_type,
            owner: None,
            time: None,
            coord_x: None,
            coord_y: None,
            coord_z: None,
        }
    }

    /// The transaction that the builder describes, if it is complete. An
    /// owner that was not set is the nil UUID. An `Undo` is built without a
    /// place, whatever coordinates were set.
    pub fn build_transaction(&self) -> (built: Option<RawTransaction>)
        ensures
            built.is_some() <==> self.complete(),
            built matches Some(t) ==> {
                &&& t.well_formed()
                &&& t.kind() == self.transaction_type
                &&& t.owner() == match self.owner {
                    Some(owner) => owner,
                    None => unknown_owner(),
                }
                &&& t.time() == self.time
                &&& t.coords() == if self.transaction_type is Undo {
                    None
                } else {
                    self.place()
                }
            },
    {
        let transaction_type = self.transaction_type;
        let owner = match self.owner {
            Some(owner) => owner,
            None => nil_owner(),
        };
        let time = self.time;
        let place: Option<(i32, i32, i32)> = match (self.coord_x, self.coord_y, self.coord_z) {
            (Some(x), Some(y), Some(z)) => Some((x, y, z)),
            _ => None,
        };
        match transaction_type {
            TransactionType::Undo { .. } => Some(
                RawTransaction { transaction_type, owner, time, coords: None },
            ),
            _ => if place.is_some() {
                Some(RawTransaction { transaction_type, owner, time, coords: place })
            } else {
                None
            },
        }
    }

    /// Sets who asks for the transaction.
    pub fn set_owner(&mut self, owner: u128) -> (builder: &mut Self)
        ensures
            *builder == (RawTransactionBuilder { owner: Some(owner), ..*old(self) }),
            *final(self) == *final(builder),
    {
        self.owner = Some(owner);
        self
    }

    /// Sets the wall-clock time of the transaction.
    pub fn set_time(&mut self, time: Timestamp) -> (builder: &mut Self)
        ensures
            *builder == (RawTransactionBuilder { time: Some(time), ..*old(self) }),
            *final(self) == *final(builder),
    {
        self.time = Some(time);
        self
    }

    /// Sets the wall-clock time of the transaction to what the local clock
    /// shows now.
    pub fn set_time_now(&mut self) -> (builder: &mut Self)
        ensures
            builder.time.is_some(),
            *builder == (RawTransactionBuilder { time: builder.time, ..*old(self) }),
            *final(self) == *final(builder),
    {
        let now = local_now();
        self.set_time(now)
    }

    /// Sets the x coordinate of the place.
    pub fn set_x_coord(&mut self, x: i32) -> (builder: &mut Self)
        ensures
            *builder == (RawTransactionBuilder { coord_x: Some(x), ..*old(self) }),
            *final(self) == *final(builder),
    {
        self.coord_x = Some(x);
        self
    }

    /// Sets the y coordinate of the place.
    pub fn set_y_coord(&mut self, y: i32) -> (builder: &mut Self)
        ensures
            *builder == (RawTransactionBuilder { coord_y: Some(y), ..*old(self) }),
            *final(self) == *final(builder),
    {
        self.coord_y = Some(y);
        self
    }

    /// Sets the z coordinate of the place.
    pub fn set_z_coord(&mut self, z: i32) -> (builder: &mut Self)
        ensures
            *builder == (RawTransactionBuilder { coord_z: Some(z), ..*old(self) }),
            *final(self) == *final(builder),
    {
        self.coord_z = Some(z);
        self
    }
}

/// A transaction that the log has committed, under the id that the log gave
/// it.
#[derive(Copy, Clone, Debug, PartialEq, Eq)]
pub struct Transaction {
    pub transaction: RawTransaction,
    pub id: TransactionID,
}

impl Transaction {
    /// The id of the transaction that this one undoes, if it is an `Undo`.
    pub open spec fn undone(self) -> Option<TransactionID> {
        self.transaction.undone()
    }

    /// `transaction`, committed as `id`.
    pub fn new(transaction: RawTransaction, id: TransactionID) -> (committed: Transaction)
        ensures
            committed == (Transaction { transaction, id }),
    {
        Transaction { transaction, id }
    }

    /// What was asked for.
    pub fn get_transaction(&self) -> (raw: RawTransaction)
        ensures
            raw == self.transaction,
    {
        self.transaction
    }

    /// The id under which it was committed.
    pub fn get_id(&self) -> (id: TransactionID)
        ensures
            id == self.id,
    {
        self.id
    }
}

} // verus!
