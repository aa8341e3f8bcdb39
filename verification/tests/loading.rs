use gearbot::entity::CachedGuild;
use gearbot::loading::{Arrival, LoadingState};

#[test]
fn a_load_is_done_when_the_marker_was_seen_and_nothing_is_missing() {
    let mut state = LoadingState::new(3);
    assert_eq!(state.missing(), 3);
    assert!(!state.is_done());
    state.record(Arrival { count: 2, last: false });
    assert_eq!(state.missing(), 1);
    assert!(!state.is_done());
    state.record(Arrival { count: 1, last: false });
    assert_eq!(state.missing(), 0);
    assert!(!state.is_done());
    state.record(Arrival { count: 0, last: true });
    assert!(state.is_done());
}

#[test]
fn the_marker_alone_does_not_end_a_load_with_arrivals_missing() {
    let mut state = LoadingState::new(5);
    state.record(Arrival { count: 1, last: true });
    assert_eq!(state.missing(), 4);
    assert!(!state.is_done());
}

#[test]
fn without_a_known_total_the_marker_alone_ends_the_load() {
    let mut state = LoadingState::new(0);
    assert!(!state.is_done());
    state.record(Arrival { count: 12, last: false });
    assert!(!state.is_done());
    state.record(Arrival { count: 3, last: true });
    assert!(state.is_done());
}

#[test]
fn more_arrivals_than_announced_leave_nothing_missing() {
    let mut state = LoadingState::new(2);
    state.record(Arrival { count: 5, last: false });
    assert_eq!(state.missing(), 0);
    assert_eq!(state, LoadingState { to_load: 2, loaded: 5, marker_seen: false });
}

#[test]
fn the_counters_stop_at_the_maximum() {
    let mut state = LoadingState::new(u32::MAX);
    state.expect(7);
    assert_eq!(state.to_load, u32::MAX);
    state.record(Arrival { count: u32::MAX, last: false });
    state.record(Arrival { count: 1, last: false });
    assert_eq!(state.loaded, u32::MAX);
    assert_eq!(state.missing(), 0);
}

#[test]
fn expect_adds_to_the_announced_total() {
    let mut state = LoadingState::new(10);
    state.expect(5);
    assert_eq!(state, LoadingState { to_load: 15, loaded: 0, marker_seen: false });
    assert_eq!(state.missing(), 15);
}

#[test]
fn a_guild_becomes_complete_once_and_stays_complete() {
    let mut guild = CachedGuild::available(7, String::from("seven"), Some(2), vec![], vec![]);
    assert!(!guild.complete);
    guild.record_arrival(Arrival { count: 1, last: false });
    assert!(!guild.complete);
    guild.record_arrival(Arrival { count: 1, last: true });
    assert!(guild.complete);
    guild.record_arrival(Arrival { count: 4, last: false });
    assert!(guild.complete);
    guild.record_arrival(Arrival { count: 0, last: true });
    assert!(guild.complete);
    assert_eq!(guild.loading, LoadingState { to_load: 2, loaded: 6, marker_seen: true });
}

#[test]
fn a_guild_that_becomes_available_starts_its_load() {
    let guild = CachedGuild::available(7, String::from("seven"), Some(50), vec![1, 2], vec![3]);
    assert_eq!(
        guild,
        CachedGuild {
            id: 7,
            name: String::from("seven"),
            complete: false,
            loading: LoadingState { to_load: 50, loaded: 0, marker_seen: false },
            channels: vec![1, 2],
            roles: vec![3],
            members: vec![],
        }
    );
    let unknown = CachedGuild::available(8, String::from("eight"), None, vec![], vec![]);
    assert_eq!(unknown.loading, LoadingState { to_load: 0, loaded: 0, marker_seen: false });
}
