use gearbot::cache::EntityCache;
use gearbot::context::{BotContext, SchemeInfo};
use gearbot::correlator::Delivery;
use gearbot::entity::{CachedGuild, CachedRole, CachedUser, Role};
use gearbot::events::{
    Action, Activity, ActivityType, Author, CurrentUser, Error, Event, GuildAvailable,
    MemberChunk, Message, Status, UpdateStatus,
};
use gearbot::handlers::commands::{self, CommandStep};
use gearbot::handlers::general;
use gearbot::loading::LoadingState;
use gearbot::shard::ShardState;
use gearbot::stats::BotStats;

const BOT: u64 = 4242;

fn context(cluster_id: u64, shards_per_cluster: u64) -> BotContext {
    BotContext::new(
        EntityCache::new(),
        SchemeInfo { cluster_id, shards_per_cluster, total_shards: 4 },
        CurrentUser { id: BOT, name: String::from("gearbot"), discriminator: String::from("0001") },
        vec![1, 2],
        BotStats::new(0, String::from("test")),
        vec![],
    )
}

fn member(id: u64) -> CachedUser {
    CachedUser {
        id,
        username: format!("member {}", id),
        discriminator: String::from("0000"),
        avatar: None,
        bot: false,
    }
}

fn chunk(guild_id: u64, index: u32, count: u32, members: Vec<CachedUser>, nonce: Option<&str>) -> MemberChunk {
    MemberChunk {
        guild_id,
        nonce: nonce.map(String::from),
        members,
        chunk_index: index,
        chunk_count: count,
    }
}

fn available(id: u64, expected_members: Option<u32>) -> GuildAvailable {
    GuildAvailable {
        id,
        name: String::from("a guild"),
        expected_members,
        channels: vec![70, 71],
        roles: vec![sent_role(id, "everyone"), sent_role(31, "mods")],
    }
}

fn sent_role(id: u64, name: &str) -> Role {
    Role {
        id,
        name: String::from(name),
        color: 7,
        hoist: false,
        position: 1,
        permissions: 8,
        managed: false,
        mentionable: true,
    }
}

fn message(guild_id: Option<u64>, author: u64, bot: bool, content: &str) -> Message {
    Message {
        id: 1,
        channel_id: 70,
        guild_id,
        author: Author { id: author, name: String::from("someone"), bot },
        content: String::from(content),
        kind: 0,
        pinned: false,
    }
}

#[test]
fn fifty_chunks_complete_a_guild_that_expects_fifty_members() {
    let mut ctx = context(0, 1);
    let guild = 900;
    general::handle_event(0, &Event::GuildCreate(available(guild, Some(50))), &mut ctx).unwrap();
    assert!(!ctx.is_guild_complete(guild));
    assert_eq!(ctx.shards.missing_for(0), Some(50));
    for i in 0..50u32 {
        let before =
            commands::handle_event(0, &Event::MessageCreate(message(Some(guild), 5, false, "!ping")), &ctx);
        assert_eq!(before, CommandStep::Ignore);
        assert!(!ctx.is_guild_complete(guild));
        let event = Event::MemberChunk(chunk(guild, i, 50, vec![member(1000 + i as u64)], None));
        assert_eq!(general::handle_event(0, &event, &mut ctx), Ok(Action::Nothing));
        assert_eq!(ctx.shards.missing_for(0), Some(49 - i as u64));
    }
    assert!(ctx.is_guild_complete(guild));
    let after =
        commands::handle_event(0, &Event::MessageCreate(message(Some(guild), 5, false, "!ping")), &ctx);
    assert_eq!(after, CommandStep::NeedsPrefix { guild_id: guild });
    let cached = ctx.get_guild(guild).unwrap();
    assert_eq!(cached.members.len(), 50);
    assert_eq!(cached.loading, LoadingState { to_load: 50, loaded: 50, marker_seen: true });
}

#[test]
fn a_guild_stays_complete_until_it_becomes_available_again() {
    let mut ctx = context(0, 1);
    general::handle_event(0, &Event::GuildCreate(available(9, Some(1))), &mut ctx).unwrap();
    general::handle_event(0, &Event::MemberChunk(chunk(9, 0, 1, vec![member(1)], None)), &mut ctx)
        .unwrap();
    assert!(ctx.is_guild_complete(9));
    let others = vec![
        Event::MemberChunk(chunk(9, 0, 2, vec![member(2)], None)),
        Event::RoleCreate { guild_id: 9, role: sent_role(40, "late") },
        Event::RoleUpdate { guild_id: 9, role: sent_role(40, "later") },
        Event::RoleDelete { guild_id: 9, role_id: 40 },
        Event::GuildCreate(available(10, None)),
        Event::GuildDelete { id: 10 },
        Event::ShardReconnecting,
        Event::Ready,
        Event::Other,
        Event::MessageCreate(message(Some(9), 5, false, "hello")),
    ];
    for event in &others {
        general::handle_event(0, event, &mut ctx).unwrap();
        assert!(ctx.is_guild_complete(9));
    }
    general::handle_event(0, &Event::GuildCreate(available(9, Some(3))), &mut ctx).unwrap();
    assert!(!ctx.is_guild_complete(9));
    assert_eq!(
        ctx.get_guild(9).unwrap().loading,
        LoadingState { to_load: 3, loaded: 0, marker_seen: false }
    );
}

#[test]
fn without_a_known_total_the_last_chunk_completes_the_guild_and_late_data_is_merged() {
    let mut ctx = context(0, 1);
    general::handle_event(0, &Event::GuildCreate(available(9, None)), &mut ctx).unwrap();
    general::handle_event(0, &Event::MemberChunk(chunk(9, 0, 2, vec![member(1)], None)), &mut ctx)
        .unwrap();
    assert!(!ctx.is_guild_complete(9));
    general::handle_event(0, &Event::MemberChunk(chunk(9, 1, 2, vec![member(2)], None)), &mut ctx)
        .unwrap();
    assert!(ctx.is_guild_complete(9));
    let late = CachedUser { username: String::from("renamed"), ..member(1) };
    general::handle_event(0, &Event::MemberChunk(chunk(9, 0, 2, vec![late.clone(), member(3)], None)), &mut ctx)
        .unwrap();
    assert!(ctx.is_guild_complete(9));
    assert_eq!(ctx.cache.get_user(1), Some(late));
    assert_eq!(ctx.get_guild(9).unwrap().members, vec![1, 2, 3]);
}

#[test]
fn a_chunk_reaches_the_caller_that_waits_for_its_nonce() {
    let mut ctx = context(0, 1);
    general::handle_event(0, &Event::GuildCreate(available(9, None)), &mut ctx).unwrap();
    let handle = ctx.chunk_requests.register(String::from("abc")).unwrap();
    let sent = chunk(9, 0, 1, vec![member(1), member(2)], Some("abc"));
    let action = general::handle_event(0, &Event::MemberChunk(sent.clone()), &mut ctx);
    assert_eq!(action, Ok(Action::DeliverChunk(Delivery { waiter: handle, payload: sent })));
    assert_eq!(ctx.chunk_requests.pending_count(), 0);
}

#[test]
fn a_chunk_that_comes_after_the_timeout_is_ignored() {
    let mut ctx = context(0, 1);
    let handle = ctx.chunk_requests.register(String::from("abc")).unwrap();
    assert!(ctx.chunk_requests.cancel("abc", handle));
    let late = chunk(9, 0, 1, vec![member(1)], Some("abc"));
    assert_eq!(general::handle_event(0, &Event::MemberChunk(late), &mut ctx), Ok(Action::Nothing));
    assert_eq!(ctx.chunk_requests.pending_count(), 0);
}

#[test]
fn a_chunk_with_another_nonce_leaves_the_request_pending() {
    let mut ctx = context(0, 1);
    ctx.chunk_requests.register(String::from("abc")).unwrap();
    let other = chunk(9, 0, 1, vec![], Some("xyz"));
    assert_eq!(general::handle_event(0, &Event::MemberChunk(other), &mut ctx), Ok(Action::Nothing));
    let none = chunk(9, 0, 1, vec![], None);
    assert_eq!(general::handle_event(0, &Event::MemberChunk(none), &mut ctx), Ok(Action::Nothing));
    assert!(ctx.chunk_requests.is_pending("abc"));
}

#[test]
fn lifecycle_events_write_the_state_of_the_shard() {
    let mut ctx = context(1, 2);
    let steps = vec![
        (Event::ShardConnecting, ShardState::Connecting),
        (Event::ShardIdentifying, ShardState::Identifying),
        (Event::ShardConnected, ShardState::Connected),
        (Event::Ready, ShardState::Ready),
        (Event::ShardReconnecting, ShardState::Reconnecting),
        (Event::ShardResuming, ShardState::Resuming),
        (Event::Resumed, ShardState::Ready),
        (Event::ShardDisconnected, ShardState::Disconnected),
    ];
    for (event, state) in &steps {
        general::handle_event(3, event, &mut ctx).unwrap();
        assert_eq!(ctx.get_shard_state(3), Some(*state));
        assert_eq!(ctx.get_shard_state(2), Some(ShardState::PendingCreation));
    }
    general::handle_event(7, &Event::Ready, &mut ctx).unwrap();
    assert_eq!(ctx.get_shard_state(7), None);
    assert_eq!(ctx.shards.ready_count(), 0);
}

#[test]
fn ready_asks_for_the_online_presence() {
    let mut ctx = context(0, 1);
    assert_eq!(
        general::handle_event(0, &Event::Ready, &mut ctx),
        Ok(Action::UpdateStatus(UpdateStatus {
            afk: false,
            activity: Activity { kind: ActivityType::Watching, name: String::from("the gears turn") },
            since: None,
            status: Status::Online,
        }))
    );
    assert_eq!(ctx.shards.ready_count(), 1);
}

#[test]
fn the_greeting_asks_for_the_idle_presence() {
    let mut ctx = context(0, 1);
    assert_eq!(
        general::handle_event(0, &Event::GatewayHello(41250), &mut ctx),
        Ok(Action::UpdateStatus(UpdateStatus {
            afk: true,
            activity: Activity {
                kind: ActivityType::Watching,
                name: String::from("things coming online"),
            },
            since: None,
            status: Status::Idle,
        }))
    );
    assert_eq!(ctx.get_shard_state(0), Some(ShardState::PendingCreation));
}

#[test]
fn a_session_that_cannot_be_resumed_is_an_error() {
    let mut ctx = context(0, 1);
    assert_eq!(
        general::handle_event(0, &Event::GatewayInvalidateSession(false), &mut ctx),
        Err(Error::InvalidSession)
    );
    assert_eq!(
        general::handle_event(0, &Event::GatewayInvalidateSession(true), &mut ctx),
        Ok(Action::Nothing)
    );
    assert_eq!(ctx.get_shard_state(0), Some(ShardState::PendingCreation));
}

#[test]
fn events_without_an_effect_change_nothing() {
    let mut ctx = context(0, 1);
    for event in &[Event::GatewayReconnect, Event::Other, Event::MessageCreate(message(None, 5, false, "hi"))] {
        assert_eq!(general::handle_event(0, event, &mut ctx), Ok(Action::Nothing));
    }
    assert_eq!(ctx.cache.len(), 0);
    assert_eq!(ctx.get_shard_state(0), Some(ShardState::PendingCreation));
    assert_eq!(ctx.chunk_requests.pending_count(), 0);
}

#[test]
fn a_guild_that_becomes_available_is_cached_with_its_roles() {
    let mut ctx = context(0, 1);
    general::handle_event(0, &Event::GuildCreate(available(9, Some(4))), &mut ctx).unwrap();
    assert_eq!(
        ctx.get_guild(9),
        Some(CachedGuild {
            id: 9,
            name: String::from("a guild"),
            complete: false,
            loading: LoadingState { to_load: 4, loaded: 0, marker_seen: false },
            channels: vec![70, 71],
            roles: vec![9, 31],
            members: vec![],
        })
    );
    assert_eq!(ctx.get_role(9, 31), Some(CachedRole::from(sent_role(31, "mods"))));
    assert_eq!(ctx.get_role(9, 9), Some(CachedRole::from(sent_role(9, "everyone"))));
    assert_eq!(ctx.cache.len(), 3);
}

#[test]
fn a_guild_that_is_removed_leaves_the_cache() {
    let mut ctx = context(0, 1);
    general::handle_event(0, &Event::GuildCreate(available(9, Some(4))), &mut ctx).unwrap();
    general::handle_event(0, &Event::MemberChunk(chunk(9, 0, 4, vec![member(1)], None)), &mut ctx).unwrap();
    assert_eq!(ctx.shards.missing_for(0), Some(3));
    general::handle_event(0, &Event::GuildDelete { id: 9 }, &mut ctx).unwrap();
    assert_eq!(ctx.get_guild(9), None);
    assert!(!ctx.is_guild_complete(9));
    assert_eq!(ctx.get_role(9, 31), None);
    assert_eq!(ctx.shards.missing_for(0), Some(0));
}

#[test]
fn role_events_cache_and_evict_the_role() {
    let mut ctx = context(0, 1);
    general::handle_event(0, &Event::GuildCreate(available(9, None)), &mut ctx).unwrap();
    general::handle_event(0, &Event::RoleCreate { guild_id: 9, role: sent_role(50, "new") }, &mut ctx).unwrap();
    assert_eq!(ctx.get_role(9, 50), Some(CachedRole::from(sent_role(50, "new"))));
    assert_eq!(ctx.get_guild(9).unwrap().roles, vec![9, 31, 50]);
    general::handle_event(0, &Event::RoleUpdate { guild_id: 9, role: sent_role(50, "renamed") }, &mut ctx).unwrap();
    assert_eq!(ctx.get_role(9, 50), Some(CachedRole::from(sent_role(50, "renamed"))));
    assert_eq!(ctx.get_guild(9).unwrap().roles, vec![9, 31, 50]);
    general::handle_event(0, &Event::RoleDelete { guild_id: 9, role_id: 31 }, &mut ctx).unwrap();
    assert_eq!(ctx.get_role(9, 31), None);
    assert_eq!(ctx.get_guild(9).unwrap().roles, vec![9, 50]);
    assert_eq!(ctx.get_role(9, 50), Some(CachedRole::from(sent_role(50, "renamed"))));
}

#[test]
fn a_role_of_a_guild_that_is_not_cached_is_cached_without_a_guild() {
    let mut ctx = context(0, 1);
    general::handle_event(0, &Event::RoleCreate { guild_id: 9, role: sent_role(50, "new") }, &mut ctx).unwrap();
    assert_eq!(ctx.get_guild(9), None);
    assert_eq!(ctx.get_role(9, 50), None);
    assert_eq!(ctx.cache.len(), 1);
}

#[test]
fn a_message_of_an_unknown_guild_is_dropped() {
    let ctx = context(0, 1);
    let event = Event::MessageCreate(message(Some(9), 5, false, "!ping"));
    assert_eq!(commands::handle_event(0, &event, &ctx), CommandStep::Ignore);
}

#[test]
fn the_bots_own_message_is_dropped() {
    let ctx = context(0, 1);
    let event = Event::MessageCreate(message(None, BOT, true, "!ping"));
    assert_eq!(commands::handle_event(0, &event, &ctx), CommandStep::Ignore);
}

#[test]
fn a_message_outside_a_guild_is_a_command_after_the_default_prefix_or_a_mention() {
    let ctx = context(0, 1);
    let cases = vec![
        ("!ping", Some("!")),
        ("<@4242> ping", Some("<@4242>")),
        ("<@!4242> ping", Some("<@!4242>")),
        ("<@4243> ping", None),
        ("ping", None),
        ("", None),
        (" !ping", None),
    ];
    for (content, prefix) in cases {
        let event = Event::MessageCreate(message(None, 5, false, content));
        let expected = match prefix {
            Some(prefix) => CommandStep::Dispatch { prefix: String::from(prefix) },
            None => CommandStep::Ignore,
        };
        assert_eq!(commands::handle_event(0, &event, &ctx), expected);
    }
}

#[test]
fn events_that_are_no_messages_are_no_commands() {
    let ctx = context(0, 1);
    assert_eq!(commands::handle_event(0, &Event::Ready, &ctx), CommandStep::Ignore);
    assert_eq!(commands::handle_event(0, &Event::Other, &ctx), CommandStep::Ignore);
}

#[test]
fn select_prefix_prefers_the_configured_prefix() {
    let bot = CurrentUser { id: 77, name: String::from("b"), discriminator: String::from("1") };
    let configured = |content: &str, prefix: &str| {
        commands::select_prefix(&message(Some(1), 5, false, content), String::from(prefix), &bot)
    };
    assert_eq!(configured("?help", "?"), Some(String::from("?")));
    assert_eq!(configured("<@77> help", "<@"), Some(String::from("<@")));
    assert_eq!(configured("<@77> help", "?"), Some(String::from("<@77>")));
    assert_eq!(configured("<@!77>help", "?"), Some(String::from("<@!77>")));
    assert_eq!(configured("<@770> help", "?"), None);
    assert_eq!(configured("help", "?"), None);
    assert_eq!(configured("anything", ""), Some(String::new()));
    assert_eq!(configured("gé!x", "gé!"), Some(String::from("gé!")));
}
