use rewind::data::{
    Block, MetaBlock, MetaData, RawTransactionBuilder, Timestamp, Transaction, TransactionID,
    TransactionType,
};

fn block(id: u16) -> MetaBlock {
    MetaBlock::fuse(Block::new_from_ids(0, id), MetaData::new())
}

#[test]
fn transaction_id_starts_at_zero() {
    let id = TransactionID::new();
    assert_eq!(id.get_id(), 0);
    assert_eq!(id.get_sub_id(), 0);
    assert_eq!(id, TransactionID::new_from_parts(0, 0));
}

#[test]
fn transaction_id_increment_major_resets_minor() {
    let id = TransactionID::new_from_parts(4, 9).increment_major();
    assert_eq!(id.get_id(), 5);
    assert_eq!(id.get_sub_id(), 0);
}

#[test]
fn transaction_id_increment_minor_keeps_the_id() {
    let id = TransactionID::new_from_parts(4, 9);
    assert_eq!(id.increment_minor(), id);
}

#[test]
fn transaction_id_orders_by_major_then_minor() {
    let a = TransactionID::new_from_parts(1, 9);
    let b = TransactionID::new_from_parts(2, 0);
    let c = TransactionID::new_from_parts(2, 1);
    assert!(a < b);
    assert!(b < c);
    assert!(a < c);
    assert!(!(b < a));
    assert!(!(b < b));
    assert!(b <= b);
    assert!(c > b);
    assert_eq!(a.partial_cmp(&b), Some(std::cmp::Ordering::Less));
    assert_eq!(b.partial_cmp(&b), Some(std::cmp::Ordering::Equal));
    assert_eq!(c.partial_cmp(&b), Some(std::cmp::Ordering::Greater));
    assert_eq!(a.cmp(&b), std::cmp::Ordering::Less);
    assert_eq!(c.cmp(&b), std::cmp::Ordering::Greater);
    assert_eq!(b.cmp(&b), std::cmp::Ordering::Equal);
}

#[test]
fn transaction_id_order_agrees_with_the_pair_order() {
    for major_a in 0..3u32 {
        for minor_a in 0..3u32 {
            for major_b in 0..3u32 {
                for minor_b in 0..3u32 {
                    let a = TransactionID::new_from_parts(major_a, minor_a);
                    let b = TransactionID::new_from_parts(major_b, minor_b);
                    assert_eq!(a < b, (major_a, minor_a) < (major_b, minor_b));
                    assert_eq!(a.cmp(&b), (major_a, minor_a).cmp(&(major_b, minor_b)));
                    assert_eq!(a.partial_cmp(&b), Some(a.cmp(&b)));
                }
            }
        }
    }
}

#[test]
fn transaction_type_constructors() {
    assert_eq!(TransactionType::new_set(block(1)), TransactionType::SetBlock { block_set: block(1) });
    assert_eq!(
        TransactionType::new_replace(block(1), block(2)),
        TransactionType::Replace { block_current: block(1), block_set: block(2) }
    );
    let id = TransactionID::new_from_parts(3, 0);
    assert_eq!(TransactionType::new_undo(id), TransactionType::Undo { transaction: id });
}

#[test]
fn builder_needs_all_coordinates_for_a_set() {
    let mut builder = RawTransactionBuilder::new(TransactionType::new_set(block(1)));
    assert!(builder.build_transaction().is_none());
    builder.set_x_coord(1);
    assert!(builder.build_transaction().is_none());
    builder.set_y_coord(2);
    assert!(builder.build_transaction().is_none());
    builder.set_z_coord(3);
    let built = builder.build_transaction().unwrap();
    assert_eq!(built.get_coords(), Some((1, 2, 3)));
    assert_eq!(built.get_transaction_type(), TransactionType::new_set(block(1)));
}

#[test]
fn builder_needs_all_coordinates_for_a_replace() {
    let kind = TransactionType::new_replace(block(1), block(2));
    let mut builder = RawTransactionBuilder::new(kind);
    assert!(builder.build_transaction().is_none());
    builder.set_z_coord(-3).set_x_coord(-1);
    assert!(builder.build_transaction().is_none());
    let built = builder.set_y_coord(-2).build_transaction().unwrap();
    assert_eq!(built.get_coords(), Some((-1, -2, -3)));
    assert_eq!(built.get_transaction_type(), kind);
}

#[test]
fn builder_builds_an_undo_without_a_place() {
    let kind = TransactionType::new_undo(TransactionID::new_from_parts(5, 0));
    let mut builder = RawTransactionBuilder::new(kind);
    let built = builder.build_transaction().unwrap();
    assert_eq!(built.get_coords(), None);
    assert_eq!(built.get_transaction_type(), kind);
    let placed = builder.set_x_coord(1).set_y_coord(2).set_z_coord(3).build_transaction().unwrap();
    assert_eq!(placed.get_coords(), None);
}

#[test]
fn builder_defaults_the_owner_to_the_nil_uuid() {
    let kind = TransactionType::new_undo(TransactionID::new());
    let built = RawTransactionBuilder::new(kind).build_transaction().unwrap();
    assert_eq!(built.get_owner(), 0);
    assert_eq!(built.get_owner(), uuid::Uuid::nil().as_u128());
    assert_eq!(built.get_time(), None);
}

#[test]
fn builder_keeps_owner_and_time() {
    let owner = uuid::Uuid::from_u128(0xa1a2a3a4b1b2c1c2d1d2d3d4d5d6d7d8).as_u128();
    let time = Timestamp { seconds: 1_500_000_000, nanos: 17, offset: 3600 };
    let kind = TransactionType::new_undo(TransactionID::new());
    let mut builder = RawTransactionBuilder::new(kind);
    builder.set_owner(owner).set_time(time);
    let built = builder.build_transaction().unwrap();
    assert_eq!(built.get_owner(), 0xa1a2a3a4b1b2c1c2d1d2d3d4d5d6d7d8);
    assert_eq!(built.get_time(), Some(time));
}

#[test]
fn builder_set_time_now_sets_a_time() {
    let kind = TransactionType::new_undo(TransactionID::new());
    let mut builder = RawTransactionBuilder::new(kind);
    builder.set_owner(4).set_x_coord(1);
    builder.set_time_now();
    assert!(builder.time.is_some());
    assert_eq!(builder.owner, Some(4));
    assert_eq!(builder.coord_x, Some(1));
    assert_eq!(builder.coord_y, None);
    let time = builder.time.unwrap();
    assert!(time.seconds > 1_000_000_000);
    assert!(time.nanos < 2_000_000_000);
    assert!(time.offset.abs() < 86_400);
}

#[test]
fn builder_does_not_consume() {
    let mut builder = RawTransactionBuilder::new(TransactionType::new_set(block(1)));
    builder.set_x_coord(0).set_y_coord(0).set_z_coord(0);
    let first = builder.build_transaction().unwrap();
    let second = builder.set_x_coord(5).build_transaction().unwrap();
    assert_eq!(first.get_coords(), Some((0, 0, 0)));
    assert_eq!(second.get_coords(), Some((5, 0, 0)));
}

#[test]
fn transaction_keeps_what_it_was_made_of() {
    let raw = RawTransactionBuilder::new(TransactionType::new_set(block(1)))
        .set_x_coord(1)
        .set_y_coord(2)
        .set_z_coord(3)
        .build_transaction()
        .unwrap();
    let id = TransactionID::new_from_parts(8, 0);
    let committed = Transaction::new(raw, id);
    assert_eq!(committed.get_transaction(), raw);
    assert_eq!(committed.get_id(), id);
}
