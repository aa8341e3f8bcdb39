use gearbot::shard::{ShardState, ShardTable};

#[test]
fn new_table_registers_every_owned_shard_as_pending() {
    let table = ShardTable::new(2, 3);
    for id in 6..9 {
        assert_eq!(table.get_state(id), Some(ShardState::PendingCreation));
        assert_eq!(table.missing_for(id), Some(0));
        assert!(table.is_owned(id));
    }
    assert_eq!(table.get_state(5), None);
    assert_eq!(table.get_state(9), None);
    assert!(!table.is_owned(5));
    assert!(!table.is_owned(9));
    assert_eq!(table.ready_count(), 0);
}

#[test]
fn a_cluster_without_shards_owns_nothing() {
    let table = ShardTable::new(4, 0);
    assert_eq!(table.get_state(0), None);
    assert_eq!(table.ready_count(), 0);
}

#[test]
fn set_state_is_last_write_wins_and_returns_the_previous_state() {
    let mut table = ShardTable::new(0, 2);
    assert_eq!(table.set_state(1, ShardState::Connecting), Some(ShardState::PendingCreation));
    assert_eq!(table.set_state(1, ShardState::Identifying), Some(ShardState::Connecting));
    assert_eq!(table.get_state(1), Some(ShardState::Identifying));
    assert_eq!(table.get_state(0), Some(ShardState::PendingCreation));
}

#[test]
fn set_state_is_idempotent() {
    let mut table = ShardTable::new(0, 1);
    table.set_state(0, ShardState::Ready);
    assert_eq!(table.set_state(0, ShardState::Ready), Some(ShardState::Ready));
    assert_eq!(table.get_state(0), Some(ShardState::Ready));
    assert_eq!(table.ready_count(), 1);
}

#[test]
fn a_shard_of_another_cluster_is_never_entered() {
    let mut table = ShardTable::new(1, 2);
    assert_eq!(table.set_state(0, ShardState::Ready), None);
    assert_eq!(table.set_state(4, ShardState::Ready), None);
    assert_eq!(table.get_state(0), None);
    assert_eq!(table.get_state(4), None);
    assert_eq!(table.ready_count(), 0);
    assert_eq!(table.expect_arrivals(0, 5), None);
    assert_eq!(table.record_arrivals(4, 5), None);
}

#[test]
fn the_gauge_counts_transitions_into_and_out_of_ready() {
    let mut table = ShardTable::new(0, 3);
    table.set_state(0, ShardState::Ready);
    table.set_state(1, ShardState::Ready);
    assert_eq!(table.ready_count(), 2);
    table.set_state(1, ShardState::Reconnecting);
    assert_eq!(table.ready_count(), 1);
    table.set_state(2, ShardState::Disconnected);
    assert_eq!(table.ready_count(), 1);
    table.set_state(0, ShardState::Disconnected);
    assert_eq!(table.ready_count(), 0);
}

#[test]
fn only_ready_and_disconnected_are_steady() {
    assert!(ShardState::Ready.is_steady());
    assert!(ShardState::Disconnected.is_steady());
    assert!(!ShardState::PendingCreation.is_steady());
    assert!(!ShardState::Connecting.is_steady());
    assert!(!ShardState::Identifying.is_steady());
    assert!(!ShardState::Connected.is_steady());
    assert!(!ShardState::Resuming.is_steady());
    assert!(!ShardState::Reconnecting.is_steady());
}

#[test]
fn outstanding_arrivals_are_counted_per_shard() {
    let mut table = ShardTable::new(0, 2);
    assert_eq!(table.expect_arrivals(0, 50), Some(50));
    assert_eq!(table.expect_arrivals(0, 7), Some(57));
    assert_eq!(table.record_arrivals(0, 10), Some(47));
    assert_eq!(table.missing_for(0), Some(47));
    assert_eq!(table.missing_for(1), Some(0));
}

#[test]
fn outstanding_arrivals_stop_at_zero_and_at_the_maximum() {
    let mut table = ShardTable::new(0, 1);
    assert_eq!(table.record_arrivals(0, 3), Some(0));
    assert_eq!(table.expect_arrivals(0, u64::MAX), Some(u64::MAX));
    assert_eq!(table.expect_arrivals(0, 1), Some(u64::MAX));
    assert_eq!(table.record_arrivals(0, u64::MAX), Some(0));
}
