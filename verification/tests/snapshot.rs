use gearbot::cache::EntityCache;
use gearbot::cold_resume::{capture, plan_resume, ResumeOutcome, ShardStart};
use gearbot::context::SchemeInfo;
use gearbot::entity::{CachedGuild, CachedRole, CachedUser, Entity};
use gearbot::loading::LoadingState;
use gearbot::snapshot::{ColdResumeSnapshot, ShardResume, SnapshotError};

fn role(id: u64) -> CachedRole {
    CachedRole {
        id,
        name: String::from("modérateurs ✓"),
        color: 0xffff_ffff,
        hoisted: true,
        position: -42,
        permissions: u64::MAX,
        managed: true,
        mentionable: true,
    }
}

fn plain_role(id: u64) -> CachedRole {
    CachedRole {
        id,
        name: String::new(),
        color: 0,
        hoisted: false,
        position: 0,
        permissions: 0,
        managed: false,
        mentionable: false,
    }
}

fn user(id: u64, avatar: Option<&str>) -> CachedUser {
    CachedUser {
        id,
        username: String::from("ann"),
        discriminator: String::from("0420"),
        avatar: avatar.map(String::from),
        bot: id % 2 == 0,
    }
}

fn guild(id: u64, complete: bool) -> CachedGuild {
    CachedGuild {
        id,
        name: String::from("the guild"),
        complete,
        loading: LoadingState { to_load: 50, loaded: if complete { 50 } else { 20 }, marker_seen: complete },
        channels: vec![1, 2, 3],
        roles: vec![id, 31],
        members: vec![u64::MAX, 0, 7],
    }
}

fn session(shard_id: u64) -> ShardResume {
    ShardResume {
        shard_id,
        resume_endpoint: String::from("wss://resume.example/?v=10"),
        session_token: format!("session-{}", shard_id),
        last_sequence: 1000 + shard_id,
    }
}

fn sample() -> ColdResumeSnapshot {
    ColdResumeSnapshot {
        shards: vec![session(0), session(1)],
        entities: vec![
            Entity::Guild(guild(9, true)),
            Entity::Role(role(31)),
            Entity::User(user(1, Some("a_1"))),
            Entity::User(user(2, None)),
            Entity::User(user(3, Some(""))),
            Entity::Role(plain_role(0)),
            Entity::Guild(guild(10, false)),
        ],
        expires_at: 1_700_000_000,
    }
}

#[test]
fn a_snapshot_that_was_written_is_read_back_as_it_was() {
    let snapshot = sample();
    let bytes = snapshot.serialize();
    assert_eq!(ColdResumeSnapshot::deserialize(&bytes), Ok(sample()));
}

#[test]
fn an_empty_snapshot_is_one_byte() {
    let empty = ColdResumeSnapshot { shards: vec![], entities: vec![], expires_at: 0 };
    assert_eq!(empty.serialize(), vec![1u8]);
    assert_eq!(
        ColdResumeSnapshot::deserialize(&[1u8]),
        Ok(ColdResumeSnapshot { shards: vec![], entities: vec![], expires_at: 0 })
    );
}

#[test]
fn the_bytes_of_a_small_snapshot() {
    let snapshot = ColdResumeSnapshot {
        shards: vec![ShardResume {
            shard_id: 2,
            resume_endpoint: String::from("ab"),
            session_token: String::new(),
            last_sequence: 0x0102,
        }],
        entities: vec![Entity::User(CachedUser {
            id: 0,
            username: String::new(),
            discriminator: String::new(),
            avatar: Some(String::new()),
            bot: true,
        })],
        expires_at: 5,
    };
    let mut expected: Vec<u8> = vec![1];
    // The shard: slot 1 holds 2, slot 2 holds "ab", slot 3 is left out, slot 4 holds 0x0102.
    expected.extend_from_slice(&[1, 45, 0, 0, 0, 0, 0, 0, 0]);
    expected.extend_from_slice(&[1, 8, 0, 0, 0, 0, 0, 0, 0, 2, 0, 0, 0, 0, 0, 0, 0]);
    expected.extend_from_slice(&[2, 2, 0, 0, 0, 0, 0, 0, 0, b'a', b'b']);
    expected.extend_from_slice(&[4, 8, 0, 0, 0, 0, 0, 0, 0, 2, 1, 0, 0, 0, 0, 0, 0]);
    // The user: only the avatar, which is there but empty, and the flag.
    expected.extend_from_slice(&[4, 19, 0, 0, 0, 0, 0, 0, 0]);
    expected.extend_from_slice(&[4, 0, 0, 0, 0, 0, 0, 0, 0]);
    expected.extend_from_slice(&[5, 1, 0, 0, 0, 0, 0, 0, 0, 1]);
    // The expiry time.
    expected.extend_from_slice(&[5, 8, 0, 0, 0, 0, 0, 0, 0, 5, 0, 0, 0, 0, 0, 0, 0]);
    assert_eq!(snapshot.serialize(), expected);
}

#[test]
fn no_bytes_are_refused_as_empty() {
    assert_eq!(ColdResumeSnapshot::deserialize(&[]), Err(SnapshotError::Empty));
}

#[test]
fn another_version_is_refused() {
    let mut bytes = sample().serialize();
    bytes[0] = 2;
    assert_eq!(ColdResumeSnapshot::deserialize(&bytes), Err(SnapshotError::UnknownVersion));
    assert_eq!(ColdResumeSnapshot::deserialize(&[0u8]), Err(SnapshotError::UnknownVersion));
}

#[test]
fn truncated_bytes_are_refused_as_malformed() {
    let bytes = sample().serialize();
    for cut in [bytes.len() - 1, bytes.len() - 9, 2, 9] {
        assert_eq!(ColdResumeSnapshot::deserialize(&bytes[..cut]), Err(SnapshotError::Malformed));
    }
}

#[test]
fn a_field_that_does_not_hold_what_its_tag_says_is_refused() {
    // An expiry time of four bytes.
    let short_expiry = [1u8, 5, 4, 0, 0, 0, 0, 0, 0, 0, 1, 2, 3, 4];
    assert_eq!(ColdResumeSnapshot::deserialize(&short_expiry), Err(SnapshotError::Malformed));
    // A user whose name is no UTF-8.
    let bad_name = [1u8, 4, 11, 0, 0, 0, 0, 0, 0, 0, 2, 2, 0, 0, 0, 0, 0, 0, 0, 0xff, 0xfe];
    assert_eq!(ColdResumeSnapshot::deserialize(&bad_name), Err(SnapshotError::Malformed));
    // A user whose flag is neither 0 nor 1.
    let bad_flag = [1u8, 4, 10, 0, 0, 0, 0, 0, 0, 0, 5, 1, 0, 0, 0, 0, 0, 0, 0, 2];
    assert_eq!(ColdResumeSnapshot::deserialize(&bad_flag), Err(SnapshotError::Malformed));
    // A guild whose list of channels is seven bytes long.
    let bad_ids = [1u8, 2, 16, 0, 0, 0, 0, 0, 0, 0, 7, 7, 0, 0, 0, 0, 0, 0, 0, 1, 2, 3, 4, 5, 6, 7];
    assert_eq!(ColdResumeSnapshot::deserialize(&bad_ids), Err(SnapshotError::Malformed));
    // A role whose colour does not fit in 32 bits.
    let bad_color = [1u8, 3, 17, 0, 0, 0, 0, 0, 0, 0, 3, 8, 0, 0, 0, 0, 0, 0, 0, 0, 0, 0, 0, 1, 0, 0, 0];
    assert_eq!(ColdResumeSnapshot::deserialize(&bad_color), Err(SnapshotError::Malformed));
}

#[test]
fn fields_that_are_not_known_are_passed_over() {
    // A field with tag 200 in the snapshot, and one with tag 99 in a user.
    let mut bytes: Vec<u8> = vec![1];
    bytes.extend_from_slice(&[200, 3, 0, 0, 0, 0, 0, 0, 0, 9, 9, 9]);
    bytes.extend_from_slice(&[4, 37, 0, 0, 0, 0, 0, 0, 0]);
    bytes.extend_from_slice(&[99, 2, 0, 0, 0, 0, 0, 0, 0, 1, 2]);
    bytes.extend_from_slice(&[1, 8, 0, 0, 0, 0, 0, 0, 0, 6, 0, 0, 0, 0, 0, 0, 0]);
    bytes.extend_from_slice(&[0, 0, 0, 0, 0, 0, 0, 0, 0]);
    let read = ColdResumeSnapshot::deserialize(&bytes).unwrap();
    assert_eq!(
        read,
        ColdResumeSnapshot {
            shards: vec![],
            entities: vec![Entity::User(CachedUser {
                id: 6,
                username: String::new(),
                discriminator: String::new(),
                avatar: None,
                bot: false,
            })],
            expires_at: 0,
        }
    );
}

#[test]
fn fields_that_are_absent_take_their_defaults() {
    // A role of which only the name was written.
    let bytes = [1u8, 3, 11, 0, 0, 0, 0, 0, 0, 0, 2, 2, 0, 0, 0, 0, 0, 0, 0, b'h', b'i'];
    let read = ColdResumeSnapshot::deserialize(&bytes).unwrap();
    assert_eq!(
        read.entities,
        vec![Entity::Role(CachedRole {
            id: 0,
            name: String::from("hi"),
            color: 0,
            hoisted: false,
            position: 0,
            permissions: 0,
            managed: false,
            mentionable: false,
        })]
    );
}

#[test]
fn a_field_that_is_written_twice_holds_the_last_value() {
    let mut bytes: Vec<u8> = vec![1];
    bytes.extend_from_slice(&[5, 8, 0, 0, 0, 0, 0, 0, 0, 1, 0, 0, 0, 0, 0, 0, 0]);
    bytes.extend_from_slice(&[5, 8, 0, 0, 0, 0, 0, 0, 0, 2, 0, 0, 0, 0, 0, 0, 0]);
    assert_eq!(ColdResumeSnapshot::deserialize(&bytes).unwrap().expires_at, 2);
}

#[test]
fn the_snapshot_of_a_cache_brings_the_cache_back() {
    let mut cache = EntityCache::new();
    cache.upsert(Entity::Guild(guild(9, true)));
    cache.upsert(Entity::Guild(guild(10, false)));
    cache.upsert(Entity::Role(role(31)));
    cache.upsert(Entity::Role(role(9)));
    cache.upsert(Entity::User(user(1, Some("a_1"))));
    cache.upsert(Entity::User(user(2, None)));
    let snapshot = capture(&cache, vec![session(0), session(1)], 100, 60);
    assert_eq!(snapshot.expires_at, 160);
    assert_eq!(snapshot.entities.len(), 6);
    let bytes = snapshot.serialize();
    let read = ColdResumeSnapshot::deserialize(&bytes).unwrap();
    assert_eq!(read.shards, vec![session(0), session(1)]);
    let restored = EntityCache::restore(read.entities);
    assert_eq!(restored.len(), 6);
    assert_eq!(restored.get_guild(9), Some(guild(9, true)));
    assert_eq!(restored.get_guild(10), Some(guild(10, false)));
    assert_eq!(restored.get_role(9, 31), Some(role(31)));
    assert_eq!(restored.get_role(9, 9), Some(role(9)));
    assert_eq!(restored.get_user(1), Some(user(1, Some("a_1"))));
    assert_eq!(restored.get_user(2), Some(user(2, None)));
    assert!(restored.is_guild_complete(9));
    assert!(!restored.is_guild_complete(10));
}

#[test]
fn the_expiry_time_stops_at_the_maximum() {
    let cache = EntityCache::new();
    assert_eq!(capture(&cache, vec![], u64::MAX - 5, 10).expires_at, u64::MAX);
    assert_eq!(capture(&cache, vec![], 0, 0).expires_at, 0);
}

fn scheme(cluster_id: u64, shards_per_cluster: u64) -> SchemeInfo {
    SchemeInfo { cluster_id, shards_per_cluster, total_shards: 8 }
}

#[test]
fn a_valid_snapshot_resumes_the_shards_and_fills_the_cache() {
    let mut cache = EntityCache::new();
    cache.upsert(Entity::Guild(guild(9, true)));
    cache.upsert(Entity::Role(role(31)));
    let bytes = capture(&cache, vec![session(0), session(1)], 1000, 300).serialize();
    let plan = plan_resume(Some(&bytes), 1299, &scheme(0, 2));
    assert_eq!(plan.outcome, ResumeOutcome::Resumed);
    assert_eq!(plan.starts, vec![ShardStart::Resume(session(0)), ShardStart::Resume(session(1))]);
    assert_eq!(plan.cache.get_guild(9), Some(guild(9, true)));
    assert!(plan.cache.is_guild_complete(9));
    assert_eq!(plan.cache.get_role(9, 31), Some(role(31)));
}

#[test]
fn a_shard_without_a_session_in_the_snapshot_identifies() {
    let bytes = capture(&EntityCache::new(), vec![session(5), session(7)], 0, 10).serialize();
    let plan = plan_resume(Some(&bytes), 1, &scheme(1, 4));
    assert_eq!(plan.outcome, ResumeOutcome::Resumed);
    assert_eq!(
        plan.starts,
        vec![
            ShardStart::Identify { shard_id: 4 },
            ShardStart::Resume(session(5)),
            ShardStart::Identify { shard_id: 6 },
            ShardStart::Resume(session(7)),
        ]
    );
}

#[test]
fn the_last_session_written_for_a_shard_is_used() {
    let later = ShardResume { last_sequence: 9999, ..session(0) };
    let bytes = capture(&EntityCache::new(), vec![session(0), later.clone()], 0, 10).serialize();
    let plan = plan_resume(Some(&bytes), 1, &scheme(0, 1));
    assert_eq!(plan.starts, vec![ShardStart::Resume(later)]);
}

#[test]
fn corrupted_bytes_lead_to_a_cold_start() {
    let mut cache = EntityCache::new();
    cache.upsert(Entity::Guild(guild(9, true)));
    let mut bytes = capture(&cache, vec![session(0), session(1)], 1000, 300).serialize();
    let end = bytes.len() - 3;
    bytes.truncate(end);
    let plan = plan_resume(Some(&bytes), 1001, &scheme(0, 2));
    assert_eq!(plan.outcome, ResumeOutcome::Unreadable(SnapshotError::Malformed));
    assert_eq!(
        plan.starts,
        vec![ShardStart::Identify { shard_id: 0 }, ShardStart::Identify { shard_id: 1 }]
    );
    assert_eq!(plan.cache.len(), 0);
    assert_eq!(plan.cache.get_guild(9), None);
}

#[test]
fn a_snapshot_of_another_version_leads_to_a_cold_start() {
    let mut bytes = capture(&EntityCache::new(), vec![session(0)], 1000, 300).serialize();
    bytes[0] = 9;
    let plan = plan_resume(Some(&bytes), 1001, &scheme(0, 1));
    assert_eq!(plan.outcome, ResumeOutcome::Unreadable(SnapshotError::UnknownVersion));
    assert_eq!(plan.starts, vec![ShardStart::Identify { shard_id: 0 }]);
    let plan = plan_resume(Some(&[]), 1001, &scheme(0, 1));
    assert_eq!(plan.outcome, ResumeOutcome::Unreadable(SnapshotError::Empty));
}

#[test]
fn an_expired_snapshot_leads_to_a_cold_start() {
    let mut cache = EntityCache::new();
    cache.upsert(Entity::Guild(guild(9, true)));
    let bytes = capture(&cache, vec![session(0)], 1000, 300).serialize();
    let plan = plan_resume(Some(&bytes), 1300, &scheme(0, 1));
    assert_eq!(plan.outcome, ResumeOutcome::Expired);
    assert_eq!(plan.starts, vec![ShardStart::Identify { shard_id: 0 }]);
    assert_eq!(plan.cache.len(), 0);
}

#[test]
fn no_snapshot_leads_to_a_cold_start() {
    let plan = plan_resume(None, 5, &scheme(3, 2));
    assert_eq!(plan.outcome, ResumeOutcome::NoSnapshot);
    assert_eq!(
        plan.starts,
        vec![ShardStart::Identify { shard_id: 6 }, ShardStart::Identify { shard_id: 7 }]
    );
    assert_eq!(plan.cache.len(), 0);
}

#[test]
fn a_snapshot_stored_only_in_part_is_never_resumed_from() {
    let mut cache = EntityCache::new();
    cache.upsert(Entity::Guild(guild(9, true)));
    cache.upsert(Entity::User(user(1, Some("a_1"))));
    let bytes = capture(&cache, vec![session(0), session(1)], 1000, 300).serialize();
    for cut in 0..bytes.len() {
        let plan = plan_resume(Some(&bytes[..cut]), 1001, &scheme(0, 2));
        assert_ne!(plan.outcome, ResumeOutcome::Resumed, "cut at {}", cut);
        assert_eq!(
            plan.starts,
            vec![ShardStart::Identify { shard_id: 0 }, ShardStart::Identify { shard_id: 1 }]
        );
        assert_eq!(plan.cache.len(), 0);
    }
    assert_eq!(plan_resume(Some(&bytes), 1001, &scheme(0, 2)).outcome, ResumeOutcome::Resumed);
}
