use gearbot::cache::EntityCache;
use gearbot::cold_resume::ResumeOutcome;
use gearbot::commands::{help, HelpRequest};
use gearbot::context::{
    BotContext, ChunkRequest, ColdResumeRecord, RawTeamMember, SchemeInfo, TeamInfo, TeamMember,
    TeamSocials,
};
use gearbot::correlator::WaiterHandle;
use gearbot::entity::{CachedGuild, CachedUser, Entity};
use gearbot::events::{Action, Author, CurrentUser, Event, Message};
use gearbot::handlers::{commands, general};
use gearbot::loading::LoadingState;
use gearbot::shard::ShardState;
use gearbot::snapshot::{ColdResumeSnapshot, ShardResume};
use gearbot::stats::BotStats;

fn raw(id: &str, team: &str) -> RawTeamMember {
    RawTeamMember {
        id: String::from(id),
        team: String::from(team),
        socials: TeamSocials {
            twitter: Some(String::from("@someone")),
            github: None,
            website: Some(String::new()),
        },
    }
}

fn context(team: Vec<RawTeamMember>) -> BotContext {
    BotContext::new(
        EntityCache::new(),
        SchemeInfo { cluster_id: 1, shards_per_cluster: 2, total_shards: 4 },
        CurrentUser { id: 99, name: String::from("gearbot"), discriminator: String::from("0001") },
        vec![10, 20],
        BotStats::new(5, String::from("v1")),
        team,
    )
}

fn message(author: u64) -> Message {
    Message {
        id: 1,
        channel_id: 2,
        guild_id: None,
        author: Author { id: author, name: String::from("x"), bot: false },
        content: String::from("hi"),
        kind: 0,
        pinned: false,
    }
}

#[test]
fn a_new_context_is_ready_to_connect() {
    let ctx = context(vec![]);
    assert_eq!(ctx.get_shard_state(2), Some(ShardState::PendingCreation));
    assert_eq!(ctx.get_shard_state(3), Some(ShardState::PendingCreation));
    assert_eq!(ctx.get_shard_state(1), None);
    assert_eq!(ctx.get_shard_state(4), None);
    assert_eq!(ctx.shards.missing_for(2), Some(0));
    assert_eq!(ctx.shards.missing_for(3), Some(0));
    assert_eq!(ctx.ready_shard_count(), 0);
    assert_eq!(ctx.pending_request_count(), 0);
    assert_eq!(ctx.status_type, 3);
    assert_eq!(ctx.status_text, "the commands turn");
    assert_eq!(ctx.global_admins, vec![10, 20]);
    assert_eq!(ctx.stats, BotStats::new(5, String::from("v1")));
    assert_eq!(ctx.cache.len(), 0);
    assert!(ctx.accepting_events);
    assert_eq!(ctx.last_cold_resume, None);
    assert_eq!(
        ctx.scheme_info,
        SchemeInfo { cluster_id: 1, shards_per_cluster: 2, total_shards: 4 }
    );
}

#[test]
fn is_own_compares_the_author_with_the_bot() {
    let ctx = context(vec![]);
    assert!(ctx.is_own(&message(99)));
    assert!(!ctx.is_own(&message(98)));
}

#[test]
fn the_reads_of_the_context_are_those_of_its_cache() {
    let mut ctx = context(vec![]);
    let guild = CachedGuild {
        id: 4,
        name: String::from("four"),
        complete: true,
        loading: LoadingState { to_load: 0, loaded: 0, marker_seen: true },
        channels: vec![],
        roles: vec![],
        members: vec![],
    };
    ctx.cache.upsert(Entity::Guild(guild.clone()));
    assert_eq!(ctx.get_guild(4), Some(guild));
    assert!(ctx.is_guild_complete(4));
    assert_eq!(ctx.get_guild(5), None);
    assert!(!ctx.is_guild_complete(5));
    assert_eq!(ctx.get_role(4, 4), None);
}

#[test]
fn a_member_request_gets_a_nonce_of_its_own() {
    let mut ctx = context(vec![]);
    ctx.start_time = 1234;
    assert_eq!(
        ctx.request_member_chunk(77),
        Some(ChunkRequest {
            guild_id: 77,
            nonce: String::from("1234-0"),
            waiter: WaiterHandle { ticket: 0 },
        })
    );
    assert_eq!(
        ctx.request_member_chunk(78),
        Some(ChunkRequest {
            guild_id: 78,
            nonce: String::from("1234-1"),
            waiter: WaiterHandle { ticket: 1 },
        })
    );
    assert!(ctx.chunk_requests.is_pending("1234-0"));
    assert!(ctx.chunk_requests.is_pending("1234-1"));
    assert_eq!(ctx.pending_request_count(), 2);
}

#[test]
fn a_member_request_does_not_displace_a_pending_one() {
    let mut ctx = context(vec![]);
    ctx.start_time = -5;
    let other = ctx.chunk_requests.register(String::from("0-1")).unwrap();
    assert_eq!(other, WaiterHandle { ticket: 0 });
    assert_eq!(ctx.request_member_chunk(77), None);
    assert_eq!(ctx.pending_request_count(), 1);
    assert!(ctx.chunk_requests.cancel("0-1", other));
    assert_eq!(
        ctx.request_member_chunk(77),
        Some(ChunkRequest {
            guild_id: 77,
            nonce: String::from("0-1"),
            waiter: WaiterHandle { ticket: 1 },
        })
    );
}

#[test]
fn the_team_is_listed_with_the_accounts_of_its_members() {
    let ctx = context(vec![raw("11", "core"), raw("12", "translators")]);
    let users = vec![
        CachedUser {
            id: 11,
            username: String::from("ann"),
            discriminator: String::from("0011"),
            avatar: Some(String::from("a_11")),
            bot: false,
        },
        CachedUser {
            id: 12,
            username: String::from("bob"),
            discriminator: String::from("0012"),
            avatar: None,
            bot: false,
        },
    ];
    let socials = || TeamSocials {
        twitter: Some(String::from("@someone")),
        github: None,
        website: Some(String::new()),
    };
    assert_eq!(
        ctx.get_team_info(&users),
        TeamInfo {
            members: vec![
                TeamMember {
                    username: String::from("ann"),
                    discriminator: String::from("0011"),
                    id: String::from("11"),
                    avatar: String::from("a_11"),
                    team: String::from("core"),
                    socials: socials(),
                },
                TeamMember {
                    username: String::from("bob"),
                    discriminator: String::from("0012"),
                    id: String::from("12"),
                    avatar: String::new(),
                    team: String::from("translators"),
                    socials: socials(),
                },
            ],
        }
    );
    assert_eq!(context(vec![]).get_team_info(&vec![]), TeamInfo { members: vec![] });
}

#[test]
fn an_attempt_to_resume_is_noted() {
    let mut ctx = context(vec![]);
    ctx.note_cold_resume(77, ResumeOutcome::Expired);
    assert_eq!(
        ctx.last_cold_resume,
        Some(ColdResumeRecord { at: 77, outcome: ResumeOutcome::Expired })
    );
    ctx.note_cold_resume(99, ResumeOutcome::Resumed);
    assert_eq!(
        ctx.last_cold_resume,
        Some(ColdResumeRecord { at: 99, outcome: ResumeOutcome::Resumed })
    );
}

#[test]
fn a_process_that_prepares_to_stop_takes_in_no_more_events() {
    let mut ctx = context(vec![]);
    general::handle_event(2, &Event::Ready, &mut ctx).unwrap();
    ctx.cache.upsert(Entity::User(CachedUser {
        id: 1,
        username: String::from("ann"),
        discriminator: String::from("1"),
        avatar: None,
        bot: false,
    }));
    let pending = ctx.chunk_requests.register(String::from("abc")).unwrap();
    let session = ShardResume {
        shard_id: 2,
        resume_endpoint: String::from("wss://resume"),
        session_token: String::from("token"),
        last_sequence: 12,
    };
    let bytes = ctx.prepare_shutdown(vec![session.clone()], 1000, 60);
    assert!(!ctx.accepting_events);
    let read = ColdResumeSnapshot::deserialize(&bytes).unwrap();
    assert_eq!(read.shards, vec![session]);
    assert_eq!(read.entities.len(), 1);
    assert_eq!(read.expires_at, 1060);
    assert_eq!(general::handle_event(2, &Event::ShardDisconnected, &mut ctx), Ok(Action::Nothing));
    assert_eq!(ctx.get_shard_state(2), Some(ShardState::Ready));
    assert_eq!(
        general::handle_event(2, &Event::GatewayInvalidateSession(false), &mut ctx),
        Ok(Action::Nothing)
    );
    assert_eq!(general::handle_event(2, &Event::GatewayHello(1), &mut ctx), Ok(Action::Nothing));
    assert_eq!(
        commands::handle_event(2, &Event::MessageCreate(Message { content: String::from("!x"), ..message(5) }), &ctx),
        commands::CommandStep::Ignore
    );
    assert!(ctx.chunk_requests.is_pending("abc"));
    assert!(ctx.chunk_requests.cancel("abc", pending));
}

#[test]
fn help_shows_a_topic_or_everything() {
    assert_eq!(help(Some("ping")), HelpRequest::About(String::from("ping")));
    assert_eq!(help(Some("")), HelpRequest::About(String::new()));
    assert_eq!(help(None), HelpRequest::Everything);
}
