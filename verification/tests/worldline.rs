use rewind::data::{
    Block, MetaBlock, MetaData, RawTransaction, RawTransactionBuilder, Transaction, TransactionID,
    TransactionType,
};
use rewind::history::run_history;
use rewind::worldline::WorldLine;

fn state(id: u16) -> MetaBlock {
    MetaBlock::fuse(Block::new_from_ids(0, id), MetaData::new())
}

fn set_at(x: i32, y: i32, z: i32, block: MetaBlock) -> RawTransaction {
    RawTransactionBuilder::new(TransactionType::new_set(block))
        .set_x_coord(x)
        .set_y_coord(y)
        .set_z_coord(z)
        .build_transaction()
        .unwrap()
}

fn replace_at(x: i32, y: i32, z: i32, expected: MetaBlock, block: MetaBlock) -> RawTransaction {
    RawTransactionBuilder::new(TransactionType::new_replace(expected, block))
        .set_x_coord(x)
        .set_y_coord(y)
        .set_z_coord(z)
        .build_transaction()
        .unwrap()
}

fn undo_of(major: u32) -> RawTransaction {
    RawTransactionBuilder::new(TransactionType::new_undo(id(major))).build_transaction().unwrap()
}

fn id(major: u32) -> TransactionID {
    TransactionID::new_from_parts(major, 0)
}

fn ids_of(history: &[Transaction]) -> Vec<u32> {
    history.iter().map(|t| t.get_id().get_id()).collect()
}

#[test]
fn world_line_starts_empty() {
    let line = WorldLine::new();
    assert_eq!(line.len(), 0);
    assert_eq!(line.lookup_transaction(id(0)), None);
    assert_eq!(line.get_undo(id(0)), None);
    assert_eq!(line.get_undone_block(id(0)), None);
    assert!(line.get_block_history(0, 0, 0).is_empty());
    assert!(line.get_transactions_for_block(0, 0, 0).is_empty());
}

#[test]
fn world_line_gives_ids_in_order() {
    let mut line = WorldLine::new();
    let first = line.add_transaction(set_at(0, 0, 0, state(1)));
    assert_eq!(first.get_id(), TransactionID::new_from_parts(0, 0));
    assert_eq!(first.get_transaction(), set_at(0, 0, 0, state(1)));
    assert_eq!(line.len(), 1);
    let second = line.add_transaction(set_at(1, 0, 0, state(2)));
    assert_eq!(second.get_id(), TransactionID::new_from_parts(1, 0));
    let third = line.add_transaction(undo_of(0));
    assert_eq!(third.get_id(), TransactionID::new_from_parts(2, 0));
    assert_eq!(line.len(), 3);
    assert!(first.get_id() < second.get_id());
    assert!(second.get_id() < third.get_id());
}

#[test]
fn world_line_lookup_finds_what_was_added() {
    let mut line = WorldLine::new();
    let first = line.add_transaction(set_at(0, 0, 0, state(1)));
    let second = line.add_transaction(set_at(1, 0, 0, state(2)));
    assert_eq!(line.lookup_transaction(id(0)), Some(first));
    assert_eq!(line.lookup_transaction(id(1)), Some(second));
    assert_eq!(line.lookup_transaction(id(2)), None);
    assert_eq!(line.lookup_transaction(TransactionID::new_from_parts(0, 1)), None);
}

#[test]
fn world_line_get_undo_gives_the_earliest_undo() {
    let mut line = WorldLine::new();
    line.add_transaction(set_at(0, 0, 0, state(1)));
    line.add_transaction(set_at(0, 0, 0, state(2)));
    assert_eq!(line.get_undo(id(0)), None);
    line.add_transaction(undo_of(1));
    line.add_transaction(undo_of(1));
    line.add_transaction(undo_of(0));
    assert_eq!(line.get_undo(id(1)), Some(id(2)));
    assert_eq!(line.get_undo(id(0)), Some(id(4)));
    assert_eq!(line.get_undo(id(2)), None);
    assert_eq!(line.get_undo(id(9)), None);
}

#[test]
fn world_line_undo_history_follows_the_chain() {
    let mut line = WorldLine::new();
    line.add_transaction(set_at(0, 0, 0, state(1)));
    assert_eq!(line.get_undo_history(id(0)), vec![id(0)]);
    line.add_transaction(undo_of(0));
    line.add_transaction(undo_of(1));
    line.add_transaction(undo_of(0));
    line.add_transaction(undo_of(2));
    assert_eq!(line.get_undo_history(id(0)), vec![id(0), id(1), id(2), id(4)]);
    assert_eq!(line.get_undo_history(id(2)), vec![id(2), id(4)]);
    assert_eq!(line.get_undo_history(id(3)), vec![id(3)]);
    assert_eq!(line.get_undo_history(id(7)), vec![id(7)]);
}

#[test]
fn world_line_transactions_for_block_leave_out_undos() {
    let mut line = WorldLine::new();
    line.add_transaction(set_at(0, 0, 0, state(1)));
    line.add_transaction(set_at(1, 0, 0, state(2)));
    line.add_transaction(replace_at(0, 0, 0, state(1), state(3)));
    line.add_transaction(undo_of(0));
    let here = line.get_transactions_for_block(0, 0, 0);
    let listed: Vec<(u32, u32)> = here.iter().copied().collect();
    assert_eq!(listed, vec![(0, 0), (2, 0)]);
    let there = line.get_transactions_for_block(1, 0, 0);
    assert_eq!(there.iter().copied().collect::<Vec<(u32, u32)>>(), vec![(1, 0)]);
    assert!(line.get_transactions_for_block(0, 0, 1).is_empty());
}

#[test]
fn world_line_block_history_is_ascending_and_complete() {
    let mut line = WorldLine::new();
    line.add_transaction(set_at(0, 0, 0, state(1)));
    line.add_transaction(set_at(9, 9, 9, state(2)));
    line.add_transaction(set_at(0, 0, 0, state(3)));
    line.add_transaction(undo_of(2));
    line.add_transaction(undo_of(1));
    line.add_transaction(undo_of(3));
    line.add_transaction(undo_of(2));
    let history = line.get_block_history(0, 0, 0);
    assert_eq!(ids_of(&history), vec![0, 2, 3, 5]);
    for transaction in history.iter() {
        assert_eq!(line.lookup_transaction(transaction.get_id()), Some(*transaction));
    }
    assert_eq!(ids_of(&line.get_block_history(9, 9, 9)), vec![1, 4]);
    assert!(line.get_block_history(1, 1, 1).is_empty());
}

#[test]
fn world_line_undone_block_follows_undos_to_a_place() {
    let mut line = WorldLine::new();
    line.add_transaction(set_at(1, 2, 3, state(1)));
    line.add_transaction(undo_of(0));
    line.add_transaction(undo_of(1));
    line.add_transaction(replace_at(4, 5, 6, state(0), state(1)));
    assert_eq!(line.get_undone_block(id(0)), Some((1, 2, 3)));
    assert_eq!(line.get_undone_block(id(1)), Some((1, 2, 3)));
    assert_eq!(line.get_undone_block(id(2)), Some((1, 2, 3)));
    assert_eq!(line.get_undone_block(id(3)), Some((4, 5, 6)));
    assert_eq!(line.get_undone_block(id(4)), None);
}

fn committed(line: &mut WorldLine, raws: Vec<RawTransaction>) -> Vec<Transaction> {
    raws.into_iter().map(|raw| line.add_transaction(raw)).collect()
}

#[test]
fn run_history_of_nothing_is_the_default() {
    assert_eq!(run_history(&[], state(7)), state(7));
}

#[test]
fn run_history_last_set_wins() {
    let mut line = WorldLine::new();
    let history =
        committed(&mut line, vec![set_at(0, 0, 0, state(1)), set_at(0, 0, 0, state(2))]);
    assert_eq!(run_history(&history, state(0)), state(2));
    assert_eq!(run_history(&history[..1], state(0)), state(1));
}

#[test]
fn run_history_leaves_out_what_was_undone() {
    let mut line = WorldLine::new();
    let history = committed(
        &mut line,
        vec![set_at(0, 0, 0, state(1)), set_at(0, 0, 0, state(2)), undo_of(1)],
    );
    assert_eq!(run_history(&history, state(0)), state(1));
    assert_eq!(run_history(&history[..2], state(0)), state(2));
}

#[test]
fn run_history_undo_before_its_target_still_counts() {
    let set = Transaction::new(set_at(0, 0, 0, state(1)), id(1));
    let undo = Transaction::new(undo_of(1), id(0));
    assert_eq!(run_history(&[undo, set], state(0)), state(0));
}

#[test]
fn run_history_replace_checks_the_replayed_block() {
    let mut line = WorldLine::new();
    let history = committed(
        &mut line,
        vec![
            set_at(0, 0, 0, state(1)),
            replace_at(0, 0, 0, state(1), state(2)),
            replace_at(0, 0, 0, state(1), state(3)),
        ],
    );
    assert_eq!(run_history(&history, state(0)), state(2));
    assert_eq!(run_history(&history[1..], state(1)), state(2));
    assert_eq!(run_history(&history[1..], state(0)), state(0));
    assert_eq!(run_history(&history[2..], state(1)), state(3));
}

#[test]
fn run_history_undone_set_fails_the_replace_that_needed_it() {
    let mut line = WorldLine::new();
    let history = committed(
        &mut line,
        vec![
            set_at(0, 0, 0, state(1)),
            replace_at(0, 0, 0, state(1), state(2)),
            undo_of(0),
        ],
    );
    assert_eq!(run_history(&history, state(0)), state(0));
    assert_eq!(run_history(&history, state(1)), state(2));
}

#[test]
fn run_history_undoing_an_undo_restores_nothing() {
    let mut line = WorldLine::new();
    let history = committed(
        &mut line,
        vec![set_at(0, 0, 0, state(1)), undo_of(0), undo_of(1)],
    );
    assert_eq!(run_history(&history, state(0)), state(0));
}

#[test]
fn run_history_undo_twice_is_undo_once() {
    let mut line = WorldLine::new();
    let history = committed(
        &mut line,
        vec![set_at(0, 0, 0, state(1)), set_at(0, 0, 0, state(2)), undo_of(1), undo_of(1)],
    );
    assert_eq!(run_history(&history, state(0)), run_history(&history[..3], state(0)));
    assert_eq!(run_history(&history, state(0)), state(1));
}

#[test]
fn world_line_has_room_while_majors_are_small() {
    let mut line = WorldLine::new();
    assert!(line.room_left());
    line.add_transaction(set_at(0, 0, 0, state(1)));
    assert!(line.room_left());
}
