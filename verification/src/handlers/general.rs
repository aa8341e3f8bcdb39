//! The event router: what each event does to the shard table, the entity
//! cache, the completeness counters and the pending requests, and what it asks
//! the caller to send or hand over.

use crate::cache::{guild_complete_in, guild_in, key_of, lemma_upsert_all_elsewhere, upsert_all, views_of};
use crate::context::BotContext;
use crate::correlator::waiter_of;
use crate::entity::{
    insert_id, remove_id, with_id, CachedGuild, CachedGuildView, CachedRole, CachedRoleView,
    CachedUser, Entity, EntityKind, EntityView, Role,
};
use crate::events::{
    Action, ActionView, Activity, ActivityType, Error, Event, GuildAvailable, MemberChunk, Status,
    UpdateStatus,
};
use crate::loading::{Arrival, LoadingState};
use crate::shard::{saturating_difference, saturating_sum, ShardState};
use vstd::prelude::*;
use vstd::string::StringExecFns;

verus! {

/// The state that a lifecycle event writes for its shard.
pub open spec fn lifecycle_state(event: Event) -> Option<ShardState> {
    match event {
        Event::ShardConnecting => Some(ShardState::Connecting),
        Event::ShardIdentifying => Some(ShardState::Identifying),
        Event::ShardConnected => Some(ShardState::Connected),
        Event::ShardResuming => Some(ShardState::Resuming),
        Event::ShardReconnecting => Some(ShardState::Reconnecting),
        Event::ShardDisconnected => Some(ShardState::Disconnected),
        Event::Ready => Some(ShardState::Ready),
        Event::Resumed => Some(ShardState::Ready),
        _ => None,
    }
}

/// A role as it is cached when the gateway sends it.
pub open spec fn cached_role(role: Role) -> CachedRoleView {
    CachedRoleView {
        id: role.id,
        name: role.name@,
        color: role.color,
        hoisted: role.hoist,
        position: role.position,
        permissions: role.permissions,
        managed: role.managed,
        mentionable: role.mentionable,
    }
}

/// The cache entries of the roles sent.
pub open spec fn role_entities(roles: Seq<Role>) -> Seq<EntityView> {
    Seq::new(roles.len(), |i: int| EntityView::Role(cached_role(roles[i])))
}

/// The identifiers of the roles sent, in their order.
pub open spec fn role_ids(roles: Seq<Role>) -> Seq<u64> {
    Seq::new(roles.len(), |i: int| roles[i].id)
}

/// The cache entries of the users sent.
pub open spec fn user_entities(users: Seq<CachedUser>) -> Seq<EntityView> {
    Seq::new(users.len(), |i: int| EntityView::User(users[i]@))
}

/// `ids` with the identifier of each of `users` added in turn, unless it is there.
pub open spec fn with_users(ids: Seq<u64>, users: Seq<CachedUser>) -> Seq<u64>
    decreases users.len(),
{
    if users.len() == 0 {
        ids
    } else {
        with_id(with_users(ids, users.drop_last()), users.last().id)
    }
}

/// The guild as it is cached when it becomes available.
pub open spec fn available_guild(guild: GuildAvailable) -> CachedGuildView {
    CachedGuildView {
        id: guild.id,
        name: guild.name@,
        complete: false,
        loading: LoadingState { to_load: expected_arrivals(guild), loaded: 0, marker_seen: false },
        channels: guild.channels@,
        roles: role_ids(guild.roles@),
        members: Seq::empty(),
    }
}

/// How many arrivals a guild announces when it becomes available: none where
/// the total is not known.
pub open spec fn expected_arrivals(guild: GuildAvailable) -> u32 {
    match guild.expected_members {
        Some(expected) => expected,
        None => 0,
    }
}

/// The batch of arrivals that a member chunk stands for.
pub open spec fn arrival_of(chunk: MemberChunk) -> Arrival {
    Arrival { count: chunk.spec_arrivals(), last: chunk.spec_is_last() }
}

/// The guild after a member chunk: its members are listed, and the batch counted.
pub open spec fn guild_after_chunk(guild: CachedGuildView, chunk: MemberChunk) -> CachedGuildView {
    (CachedGuildView {
        members: with_users(guild.members, chunk.members@),
        ..guild
    }).after_arrival(arrival_of(chunk))
}

/// How many arrivals of guild `id` are outstanding; none for a guild that the
/// cache does not hold.
pub open spec fn outstanding(cache: Map<(u8, u64), EntityView>, id: u64) -> u64 {
    match guild_in(cache, id) {
        Some(guild) => guild.loading.spec_missing() as u64,
        None => 0,
    }
}

/// The cache after `event`.
pub open spec fn routed_cache(cache: Map<(u8, u64), EntityView>, event: Event) -> Map<
    (u8, u64),
    EntityView,
> {
    match event {
        Event::GuildCreate(guild) => upsert_all(cache, role_entities(guild.roles@)).insert(
            key_of(EntityKind::Guild, guild.id),
            EntityView::Guild(available_guild(guild)),
        ),
        Event::GuildDelete { id } => cache.remove(key_of(EntityKind::Guild, id)),
        Event::RoleCreate { guild_id, role } => cache_with_role(cache, guild_id, role),
        Event::RoleUpdate { guild_id, role } => cache_with_role(cache, guild_id, role),
        Event::RoleDelete { guild_id, role_id } => cache_without_role(cache, guild_id, role_id),
        Event::MemberChunk(chunk) => cache_after_chunk(cache, chunk),
        _ => cache,
    }
}

/// The cache after `role` of guild `guild_id` was created or updated: the role
/// is cached, and a cached guild lists it.
pub open spec fn cache_with_role(cache: Map<(u8, u64), EntityView>, guild_id: u64, role: Role) -> Map<
    (u8, u64),
    EntityView,
> {
    let with_role = cache.insert(
        key_of(EntityKind::Role, role.id),
        EntityView::Role(cached_role(role)),
    );
    match guild_in(cache, guild_id) {
        Some(guild) => with_role.insert(
            key_of(EntityKind::Guild, guild_id),
            EntityView::Guild(guild.with_role(role.id)),
        ),
        None => with_role,
    }
}

/// The cache after role `role_id` of guild `guild_id` was deleted: the role is
/// evicted, and a cached guild lists it no more.
pub open spec fn cache_without_role(
    cache: Map<(u8, u64), EntityView>,
    guild_id: u64,
    role_id: u64,
) -> Map<(u8, u64), EntityView> {
    let without_role = cache.remove(key_of(EntityKind::Role, role_id));
    match guild_in(cache, guild_id) {
        Some(guild) => without_role.insert(
            key_of(EntityKind::Guild, guild_id),
            EntityView::Guild(guild.without_role(role_id)),
        ),
        None => without_role,
    }
}

/// The cache after a member chunk: its members are cached, and a cached guild
/// lists them and counts the batch.
pub open spec fn cache_after_chunk(cache: Map<(u8, u64), EntityView>, chunk: MemberChunk) -> Map<
    (u8, u64),
    EntityView,
> {
    let with_users = upsert_all(cache, user_entities(chunk.members@));
    match guild_in(cache, chunk.guild_id) {
        Some(guild) => with_users.insert(
            key_of(EntityKind::Guild, chunk.guild_id),
            EntityView::Guild(guild_after_chunk(guild, chunk)),
        ),
        None => with_users,
    }
}

/// The shard states after `event` on shard `shard_id`: a lifecycle event
/// writes the state of a shard that the cluster owns.
pub open spec fn routed_states(
    states: Map<u64, ShardState>,
    owned: bool,
    shard_id: u64,
    event: Event,
) -> Map<u64, ShardState> {
    match lifecycle_state(event) {
        Some(state) => if owned {
            states.insert(shard_id, state)
        } else {
            states
        },
        None => states,
    }
}

/// The outstanding arrivals of shard `shard_id` after `event`, where they were
/// `missing` and the cache was `cache` before it.
pub open spec fn routed_missing(
    missing: u64,
    cache: Map<(u8, u64), EntityView>,
    event: Event,
) -> u64 {
    match event {
        Event::GuildCreate(guild) => saturating_sum(
            saturating_difference(missing, outstanding(cache, guild.id)),
            expected_arrivals(guild) as u64,
        ),
        Event::GuildDelete { id } => saturating_difference(missing, outstanding(cache, id)),
        Event::MemberChunk(chunk) => saturating_sum(
            saturating_difference(missing, outstanding(cache, chunk.guild_id)),
            outstanding(cache_after_chunk(cache, chunk), chunk.guild_id),
        ),
        _ => missing,
    }
}

/// The pending requests after `event`: a member chunk takes out the request
/// that is pending under its nonce.
pub open spec fn routed_pending(pending: Map<Seq<char>, u64>, event: Event) -> Map<Seq<char>, u64> {
    match event {
        Event::MemberChunk(chunk) => match chunk.nonce {
            Some(nonce) => pending.remove(nonce@),
            None => pending,
        },
        _ => pending,
    }
}

/// Whether `event` ends the handling of its shard's events.
pub open spec fn is_fatal(event: Event) -> bool {
    event matches Event::GatewayInvalidateSession(resumable) && !resumable
}

/// What the caller is to carry out after `event`.
pub open spec fn routed_action(pending: Map<Seq<char>, u64>, event: Event) -> ActionView {
    match event {
        Event::Ready => ActionView::UpdateStatus {
            afk: false,
            kind: ActivityType::Watching,
            name: "the gears turn"@,
            since: None,
            status: Status::Online,
        },
        Event::GatewayHello(_) => ActionView::UpdateStatus {
            afk: true,
            kind: ActivityType::Watching,
            name: "things coming online"@,
            since: None,
            status: Status::Idle,
        },
        Event::MemberChunk(chunk) => match chunk.nonce {
            Some(nonce) => match waiter_of(pending, nonce@) {
                Some(waiter) => ActionView::DeliverChunk { waiter, payload: chunk@ },
                None => ActionView::Nothing,
            },
            None => ActionView::Nothing,
        },
        _ => ActionView::Nothing,
    }
}

/// The activity "watching `name`", with nothing else set.
fn gen_activity(name: String) -> (activity: Activity)
    ensures
        activity.kind == ActivityType::Watching,
        activity.name == name,
{
    Activity { kind: ActivityType::Watching, name }
}

/// A copy of `role` as the cache keeps it.
fn cache_role(role: &Role) -> (cached: CachedRole)
    ensures
        cached@ == cached_role(*role),
{
    CachedRole {
        id: role.id,
        name: role.name.clone(),
        color: role.color,
        hoisted: role.hoist,
        position: role.position,
        permissions: role.permissions,
        managed: role.managed,
        mentionable: role.mentionable,
    }
}

/// The cache entries and the identifiers of `roles`.
fn list_roles(roles: &Vec<Role>) -> (listed: (Vec<Entity>, Vec<u64>))
    ensures
        views_of(listed.0@) == role_entities(roles@),
        listed.1@ == role_ids(roles@),
{
    let mut entities: Vec<Entity> = Vec::new();
    let mut ids: Vec<u64> = Vec::new();
    let mut i: usize = 0;
    while i < roles.len()
        invariant
            i <= roles.len(),
            entities@.len() == i,
            ids@.len() == i,
            forall|j: int|
                0 <= j < i ==> (#[trigger] entities@[j])@ == EntityView::Role(cached_role(roles@[j])),
            forall|j: int| 0 <= j < i ==> #[trigger] ids@[j] == roles@[j].id,
        decreases roles.len() - i,
    {
        entities.push(Entity::Role(cache_role(&roles[i])));
        ids.push(roles[i].id);
        i = i + 1;
    }
    assert(views_of(entities@) =~= role_entities(roles@));
    assert(ids@ =~= role_ids(roles@));
    (entities, ids)
}

/// The cache entries of `users`.
fn list_users(users: &Vec<CachedUser>) -> (entities: Vec<Entity>)
    ensures
        views_of(entities@) == user_entities(users@),
{
    let mut entities: Vec<Entity> = Vec::new();
    let mut i: usize = 0;
    while i < users.len()
        invariant
            i <= users.len(),
            entities@.len() == i,
            forall|j: int| 0 <= j < i ==> (#[trigger] entities@[j])@ == EntityView::User(users@[j]@),
        decreases users.len() - i,
    {
        entities.push(Entity::User(users[i].clone()));
        i = i + 1;
    }
    assert(views_of(entities@) =~= user_entities(users@));
    entities
}

/// Lists each of `users` among `ids`.
fn insert_users(ids: &mut Vec<u64>, users: &Vec<CachedUser>)
    ensures
        final(ids)@ == with_users(old(ids)@, users@),
{
    let mut i: usize = 0;
    assert(users@.take(0) =~= Seq::<CachedUser>::empty());
    while i < users.len()
        invariant
            i <= users.len(),
            ids@ == with_users(old(ids)@, users@.take(i as int)),
        decreases users.len() - i,
    {
        proof {
            assert(users@.take(i + 1).drop_last() =~= users@.take(i as int));
            assert(users@.take(i + 1).last() == users@[i as int]);
        }
        insert_id(ids, users[i].id);
        i = i + 1;
    }
    assert(users@.take(users@.len() as int) =~= users@);
}

/// Takes the arrivals that guild `id` has outstanding in `before` off the
/// counter of shard `shard_id`, and puts on it those it has in the cache now.
fn recount(ctx: &mut BotContext, shard_id: u64, before: u64, after: u64)
    requires
        old(ctx).wf(),
    ensures
        final(ctx).wf(),
        final(ctx).cache == old(ctx).cache,
        final(ctx).chunk_requests == old(ctx).chunk_requests,
        final(ctx).stats == old(ctx).stats,
        final(ctx).status_type == old(ctx).status_type,
        final(ctx).status_text == old(ctx).status_text,
        final(ctx).bot_user == old(ctx).bot_user,
        final(ctx).scheme_info == old(ctx).scheme_info,
        final(ctx).start_time == old(ctx).start_time,
        final(ctx).global_admins == old(ctx).global_admins,
        final(ctx).team_info == old(ctx).team_info,
        final(ctx).accepting_events == old(ctx).accepting_events,
        final(ctx).last_cold_resume == old(ctx).last_cold_resume,
        final(ctx).shards.first() == old(ctx).shards.first(),
        final(ctx).shards.count() == old(ctx).shards.count(),
        final(ctx).shards.states() == old(ctx).shards.states(),
        final(ctx).shards.ready_gauge() == old(ctx).shards.ready_gauge(),
        final(ctx).shards.missing() == (if old(ctx).shards.owns(shard_id) {
            old(ctx).shards.missing().insert(
                shard_id,
                saturating_sum(
                    saturating_difference(old(ctx).shards.missing()[shard_id], before),
                    after,
                ),
            )
        } else {
            old(ctx).shards.missing()
        }),
{
    ctx.shards.record_arrivals(shard_id, before);
    ctx.shards.expect_arrivals(shard_id, after);
    proof {
        if old(ctx).shards.owns(shard_id) {
            assert(ctx.shards.missing() =~= old(ctx).shards.missing().insert(
                shard_id,
                saturating_sum(
                    saturating_difference(old(ctx).shards.missing()[shard_id], before),
                    after,
                ),
            ));
        }
    }
}

/// How many arrivals of guild `id` are outstanding; none for a guild that the
/// cache does not hold.
fn count_outstanding(ctx: &BotContext, id: u64) -> (missing: u64)
    ensures
        missing == outstanding(ctx.cache@, id),
{
    match ctx.cache.get_guild(id) {
        Some(guild) => guild.loading.missing() as u64,
        None => 0,
    }
}

/// What everything but the cache, the shard table and the pending requests is
/// after an event: as before.
pub open spec fn rest_unchanged(before: &BotContext, after: &BotContext) -> bool {
    &&& after.stats == before.stats
    &&& after.status_type == before.status_type
    &&& after.status_text == before.status_text
    &&& after.bot_user == before.bot_user
    &&& after.scheme_info == before.scheme_info
    &&& after.start_time == before.start_time
    &&& after.global_admins == before.global_admins
    &&& after.team_info == before.team_info
    &&& after.accepting_events == before.accepting_events
    &&& after.last_cold_resume == before.last_cold_resume
    &&& after.shards.first() == before.shards.first()
    &&& after.shards.count() == before.shards.count()
}

/// What `event`, delivered by shard `shard_id`, leaves of `before` in `after`.
pub open spec fn routed(before: &BotContext, after: &BotContext, shard_id: u64, event: Event) -> bool {
    &&& rest_unchanged(before, after)
    &&& after.cache@ == routed_cache(before.cache@, event)
    &&& after.shards.states() == routed_states(
        before.shards.states(),
        before.shards.owns(shard_id),
        shard_id,
        event,
    )
    &&& after.shards.missing() == (if before.shards.owns(shard_id) {
        before.shards.missing().insert(
            shard_id,
            routed_missing(before.shards.missing()[shard_id], before.cache@, event),
        )
    } else {
        before.shards.missing()
    })
    &&& after.chunk_requests@ == routed_pending(before.chunk_requests@, event)
    &&& after.chunk_requests.next_ticket() == before.chunk_requests.next_ticket()
}

/// What an event that is not taken in leaves of `before` in `after`: all of it.
pub open spec fn untouched(before: &BotContext, after: &BotContext) -> bool {
    &&& rest_unchanged(before, after)
    &&& after.cache@ == before.cache@
    &&& after.shards.states() == before.shards.states()
    &&& after.shards.missing() == before.shards.missing()
    &&& after.shards.ready_gauge() == before.shards.ready_gauge()
    &&& after.chunk_requests@ == before.chunk_requests@
    &&& after.chunk_requests.next_ticket() == before.chunk_requests.next_ticket()
}

/// Handles one event of shard `shard_id`.
///
/// Once the process prepares to stop, no event is taken in any more: nothing
/// changes and nothing is asked for. Until then:
///
/// A lifecycle event writes the shard's state. A guild that becomes available
/// is cached as not complete, with its roles, and its load starts over. Role
/// events cache or evict the role. A member chunk caches its members, counts
/// them for the guild, which becomes complete when its load is done, and
/// reaches the waiter that is pending under its nonce. `Ready` and the
/// gateway's greeting ask for a presence update. A session that was
/// invalidated and cannot be resumed is an error, and changes nothing. Every
/// other event changes nothing.
pub fn handle_event(shard_id: u64, event: &Event, ctx: &mut BotContext) -> (outcome: Result<
    Action,
    Error,
>)
    requires
        old(ctx).wf(),
    ensures
        final(ctx).wf(),
        old(ctx).accepting_events ==> routed(old(ctx), final(ctx), shard_id, *event),
        old(ctx).accepting_events ==> (match outcome {
            Ok(action) => !is_fatal(*event) && action@ == routed_action(
                old(ctx).chunk_requests@,
                *event,
            ),
            Err(error) => is_fatal(*event) && error == Error::InvalidSession,
        }),
        !old(ctx).accepting_events ==> untouched(old(ctx), final(ctx)),
        !old(ctx).accepting_events ==> (match outcome {
            Ok(action) => action@ == ActionView::Nothing,
            Err(_) => false,
        }),
{
    if !ctx.accepting_events {
        return Ok(Action::Nothing);
    }
    proof {
        let missing = old(ctx).shards.missing();
        if old(ctx).shards.owns(shard_id) {
            assert(missing.contains_key(shard_id));
            assert(missing.insert(shard_id, missing[shard_id]) =~= missing);
        }
    }
    match event {
        Event::ShardConnecting => {
            ctx.shards.set_state(shard_id, ShardState::Connecting);
            Ok(Action::Nothing)
        },
        Event::ShardIdentifying => {
            ctx.shards.set_state(shard_id, ShardState::Identifying);
            Ok(Action::Nothing)
        },
        Event::ShardConnected => {
            ctx.shards.set_state(shard_id, ShardState::Connected);
            Ok(Action::Nothing)
        },
        Event::ShardResuming => {
            ctx.shards.set_state(shard_id, ShardState::Resuming);
            Ok(Action::Nothing)
        },
        Event::ShardReconnecting => {
            ctx.shards.set_state(shard_id, ShardState::Reconnecting);
            Ok(Action::Nothing)
        },
        Event::ShardDisconnected => {
            ctx.shards.set_state(shard_id, ShardState::Disconnected);
            Ok(Action::Nothing)
        },
        Event::Resumed => {
            ctx.shards.set_state(shard_id, ShardState::Ready);
            Ok(Action::Nothing)
        },
        Event::Ready => {
            ctx.shards.set_state(shard_id, ShardState::Ready);
            Ok(
                Action::UpdateStatus(
                    UpdateStatus {
                        afk: false,
                        activity: gen_activity(String::from_str("the gears turn")),
                        since: None,
                        status: Status::Online,
                    },
                ),
            )
        },
        Event::GatewayHello(_) => Ok(
            Action::UpdateStatus(
                UpdateStatus {
                    afk: true,
                    activity: gen_activity(String::from_str("things coming online")),
                    since: None,
                    status: Status::Idle,
                },
            ),
        ),
        Event::GatewayInvalidateSession(resumable) => {
            if *resumable {
                Ok(Action::Nothing)
            } else {
                Err(Error::InvalidSession)
            }
        },
        Event::GuildCreate(guild) => {
            on_guild_available(ctx, shard_id, guild);
            Ok(Action::Nothing)
        },
        Event::GuildDelete { id } => {
            let before = count_outstanding(ctx, *id);
            ctx.cache.remove(EntityKind::Guild, *id);
            recount(ctx, shard_id, before, 0);
            Ok(Action::Nothing)
        },
        Event::RoleCreate { guild_id, role } => {
            on_role_upsert(ctx, *guild_id, role);
            Ok(Action::Nothing)
        },
        Event::RoleUpdate { guild_id, role } => {
            on_role_upsert(ctx, *guild_id, role);
            Ok(Action::Nothing)
        },
        Event::RoleDelete { guild_id, role_id } => {
            on_role_delete(ctx, *guild_id, *role_id);
            Ok(Action::Nothing)
        },
        Event::MemberChunk(chunk) => Ok(on_member_chunk(ctx, shard_id, chunk)),
        _ => Ok(Action::Nothing),
    }
}

/// Caches a guild that has become available, with its roles, and starts its
/// load over.
fn on_guild_available(ctx: &mut BotContext, shard_id: u64, guild: &GuildAvailable)
    requires
        old(ctx).wf(),
    ensures
        final(ctx).wf(),
        routed(old(ctx), final(ctx), shard_id, Event::GuildCreate(*guild)),
{
    let before = count_outstanding(ctx, guild.id);
    let (roles, role_ids) = list_roles(&guild.roles);
    ctx.cache.upsert_many(roles);
    let cached = CachedGuild::available(
        guild.id,
        guild.name.clone(),
        guild.expected_members,
        crate::entity::copy_ids(&guild.channels),
        role_ids,
    );
    let expected = cached.loading.to_load as u64;
    ctx.cache.upsert(Entity::Guild(cached));
    recount(ctx, shard_id, before, expected);
}

/// Caches a role that was created or updated, and lists it in its guild.
fn on_role_upsert(ctx: &mut BotContext, guild_id: u64, role: &Role)
    requires
        old(ctx).wf(),
    ensures
        final(ctx).wf(),
        final(ctx).shards == old(ctx).shards,
        final(ctx).chunk_requests == old(ctx).chunk_requests,
        rest_unchanged(old(ctx), final(ctx)),
        final(ctx).cache@ == cache_with_role(old(ctx).cache@, guild_id, *role),
{
    let guild = ctx.cache.get_guild(guild_id);
    ctx.cache.upsert(Entity::Role(cache_role(role)));
    match guild {
        Some(mut guild) => {
            insert_id(&mut guild.roles, role.id);
            assert(guild.id == guild_id);
            ctx.cache.upsert(Entity::Guild(guild));
        },
        None => {},
    }
}

/// Evicts a role that was deleted, and takes it off its guild's list.
fn on_role_delete(ctx: &mut BotContext, guild_id: u64, role_id: u64)
    requires
        old(ctx).wf(),
    ensures
        final(ctx).wf(),
        final(ctx).shards == old(ctx).shards,
        final(ctx).chunk_requests == old(ctx).chunk_requests,
        rest_unchanged(old(ctx), final(ctx)),
        final(ctx).cache@ == cache_without_role(old(ctx).cache@, guild_id, role_id),
{
    let guild = ctx.cache.get_guild(guild_id);
    ctx.cache.remove(EntityKind::Role, role_id);
    match guild {
        Some(mut guild) => {
            remove_id(&mut guild.roles, role_id);
            assert(guild.id == guild_id);
            ctx.cache.upsert(Entity::Guild(guild));
        },
        None => {},
    }
}

/// Caches the members of a chunk, counts them for their guild, and finds the
/// waiter that the chunk is owed to.
fn on_member_chunk(ctx: &mut BotContext, shard_id: u64, chunk: &MemberChunk) -> (action: Action)
    requires
        old(ctx).wf(),
    ensures
        final(ctx).wf(),
        routed(old(ctx), final(ctx), shard_id, Event::MemberChunk(*chunk)),
        action@ == routed_action(old(ctx).chunk_requests@, Event::MemberChunk(*chunk)),
{
    let before = count_outstanding(ctx, chunk.guild_id);
    let guild = ctx.cache.get_guild(chunk.guild_id);
    ctx.cache.upsert_many(list_users(&chunk.members));
    let mut after: u64 = 0;
    match guild {
        Some(mut guild) => {
            insert_users(&mut guild.members, &chunk.members);
            guild.record_arrival(Arrival { count: chunk.arrivals(), last: chunk.is_last() });
            after = guild.loading.missing() as u64;
            assert(guild.id == chunk.guild_id);
            ctx.cache.upsert(Entity::Guild(guild));
        },
        None => {
            proof {
                lemma_upsert_all_elsewhere(
                    old(ctx).cache@,
                    user_entities(chunk.members@),
                    key_of(EntityKind::Guild, chunk.guild_id),
                );
            }
        },
    }
    recount(ctx, shard_id, before, after);
    match &chunk.nonce {
        Some(nonce) => match ctx.chunk_requests.resolve(nonce.as_str(), chunk.clone()) {
            Some(delivery) => Action::DeliverChunk(delivery),
            None => Action::Nothing,
        },
        None => Action::Nothing,
    }
}

/// Whether `event` starts the availability of guild `guild_id` over, or ends it.
pub open spec fn resets(event: Event, guild_id: u64) -> bool {
    ||| event matches Event::GuildCreate(guild) && guild.id == guild_id
    ||| event matches Event::GuildDelete { id } && id == guild_id
}

/// The cache after `events`, one after the other.
pub open spec fn routed_cache_all(cache: Map<(u8, u64), EntityView>, events: Seq<Event>) -> Map<
    (u8, u64),
    EntityView,
>
    decreases events.len(),
{
    if events.len() == 0 {
        cache
    } else {
        routed_cache(routed_cache_all(cache, events.drop_last()), events.last())
    }
}

/// Within one availability period a guild goes from loading to complete at
/// most once and never back: once it is complete, it is complete after every
/// run of events that holds neither its becoming available again nor its
/// removal.
pub proof fn lemma_complete_through_events(
    cache: Map<(u8, u64), EntityView>,
    events: Seq<Event>,
    guild_id: u64,
)
    requires
        guild_complete_in(cache, guild_id),
        forall|i: int| 0 <= i < events.len() ==> !resets(#[trigger] events[i], guild_id),
    ensures
        guild_complete_in(routed_cache_all(cache, events), guild_id),
    decreases events.len(),
{
    if events.len() > 0 {
        assert forall|i: int| 0 <= i < events.drop_last().len() implies !resets(
            #[trigger] events.drop_last()[i],
            guild_id,
        ) by {
            assert(events.drop_last()[i] == events[i]);
        }
        lemma_complete_through_events(cache, events.drop_last(), guild_id);
        assert(events.last() == events[events.len() - 1]);
        lemma_complete_until_reset(
            routed_cache_all(cache, events.drop_last()),
            events.last(),
            guild_id,
        );
    }
}

/// A guild that has just become available is not complete, whatever it was before.
pub proof fn lemma_available_guild_is_loading(cache: Map<(u8, u64), EntityView>, guild: GuildAvailable)
    ensures
        !guild_complete_in(routed_cache(cache, Event::GuildCreate(guild)), guild.id),
        guild_in(routed_cache(cache, Event::GuildCreate(guild)), guild.id) == Some(
            available_guild(guild),
        ),
{
}

/// A guild that is complete stays complete through every event but those
/// that start its availability over or end it: its own becoming available
/// again, and its removal.
pub proof fn lemma_complete_until_reset(cache: Map<(u8, u64), EntityView>, event: Event, guild_id: u64)
    requires
        guild_complete_in(cache, guild_id),
        !resets(event, guild_id),
    ensures
        guild_complete_in(routed_cache(cache, event), guild_id),
{
    let key = key_of(EntityKind::Guild, guild_id);
    match event {
        Event::GuildCreate(guild) => {
            lemma_upsert_all_elsewhere(cache, role_entities(guild.roles@), key);
        },
        Event::MemberChunk(chunk) => {
            lemma_upsert_all_elsewhere(cache, user_entities(chunk.members@), key);
        },
        _ => {},
    }
}

} // verus!
