//! The state that all shards of one process share, and what the command
//! pipeline may read of it.

use crate::cache::{lists_exactly, EntityCache};
use crate::cold_resume::{capture, expiry_of, ResumeOutcome};
use crate::snapshot::{shard_views, snapshot_bytes, writable, ShardResume, SnapshotView};
use crate::correlator::{ChunkRequests, WaiterHandle};
use crate::entity::{text_view, CachedGuild, CachedRole, CachedUser};
use crate::events::{CurrentUser, Message};
use crate::shard::{ShardState, ShardTable};
use crate::stats::{now_millis, BotStats};
use crate::text::{decimal, push_decimal};
use vstd::prelude::*;
use vstd::string::StringExecFns;

verus! {

/// Which shards this process runs: those of cluster `cluster_id`, each cluster
/// holding `shards_per_cluster` of the `total_shards`.
#[derive(Clone, Copy, Debug, PartialEq, Eq, Structural)]
pub struct SchemeInfo {
    pub cluster_id: u64,
    pub shards_per_cluster: u64,
    pub total_shards: u64,
}

/// Where a member of the team can be found elsewhere.
#[derive(Debug, PartialEq, Eq)]
pub struct TeamSocials {
    pub twitter: Option<String>,
    pub github: Option<String>,
    pub website: Option<String>,
}

/// A member of the team as the team file names it.
#[derive(Debug, PartialEq, Eq)]
pub struct RawTeamMember {
    pub id: String,
    pub team: String,
    pub socials: TeamSocials,
}

/// A member of the team with the account it belongs to.
#[derive(Debug, PartialEq, Eq)]
pub struct TeamMember {
    pub username: String,
    pub discriminator: String,
    pub id: String,
    pub avatar: String,
    pub team: String,
    pub socials: TeamSocials,
}

/// The team, in the order of the team file.
#[derive(Debug, PartialEq, Eq)]
pub struct TeamInfo {
    pub members: Vec<TeamMember>,
}

/// Whether `member` is what the team file says of `raw`, with the name,
/// discriminator and avatar of `user`; a user without an avatar has the empty one.
pub open spec fn describes(member: TeamMember, raw: RawTeamMember, user: CachedUser) -> bool {
    &&& member.username@ == user.username@
    &&& member.discriminator@ == user.discriminator@
    &&& member.id@ == raw.id@
    &&& member.avatar@ == match user.avatar {
        Some(avatar) => avatar@,
        None => Seq::<char>::empty(),
    }
    &&& member.team@ == raw.team@
    &&& text_view(member.socials.twitter) == text_view(raw.socials.twitter)
    &&& text_view(member.socials.github) == text_view(raw.socials.github)
    &&& text_view(member.socials.website) == text_view(raw.socials.website)
}

/// A copy of an optional text.
fn copy_text(text: &Option<String>) -> (copy: Option<String>)
    ensures
        text_view(copy) == text_view(*text),
{
    match text {
        Some(text) => Some(text.clone()),
        None => None,
    }
}

/// A request for the members of a guild: what is to be sent, and the handle
/// that waits for the reply.
#[derive(Debug, PartialEq, Eq)]
pub struct ChunkRequest {
    pub guild_id: u64,
    pub nonce: String,
    pub waiter: WaiterHandle,
}

/// The nonce of the request with ticket `ticket`, made by the process that
/// started at `start_time`: the two numbers in decimal, with `-` between them.
pub open spec fn nonce_for(start_time: i64, ticket: u64) -> Seq<char> {
    decimal(run_number(start_time) as nat) + seq!['-'] + decimal(ticket as nat)
}

/// The number that stands for a start time in a nonce: the time itself, or
/// zero for a time before the epoch.
pub open spec fn run_number(start_time: i64) -> u64 {
    if start_time >= 0 {
        start_time as u64
    } else {
        0
    }
}

/// When the process last tried to resume from a snapshot, in seconds since the
/// Unix epoch, and how that ended.
#[derive(Clone, Copy, Debug, PartialEq, Eq, Structural)]
pub struct ColdResumeRecord {
    pub at: u64,
    pub outcome: ResumeOutcome,
}

/// The state shared by the shards of one process.
pub struct BotContext {
    pub cache: EntityCache,
    pub shards: ShardTable,
    pub chunk_requests: ChunkRequests,
    pub stats: BotStats,
    pub status_type: u16,
    pub status_text: String,
    pub bot_user: CurrentUser,
    pub scheme_info: SchemeInfo,
    /// When the process started, in milliseconds since the Unix epoch.
    pub start_time: i64,
    pub global_admins: Vec<u64>,
    pub team_info: Vec<RawTeamMember>,
    /// Whether events are still taken in. They are until the process prepares
    /// to stop.
    pub accepting_events: bool,
    /// The last attempt to resume from a snapshot, if there was one.
    pub last_cold_resume: Option<ColdResumeRecord>,
}

impl BotContext {
    /// The cache, the shard table and the pending requests are each well formed.
    pub open spec fn wf(&self) -> bool {
        &&& self.cache.wf()
        &&& self.shards.wf()
        &&& self.chunk_requests.wf()
    }

    /// Whether `other` was written by the account of this process.
    pub open spec fn spec_is_own(&self, other: &Message) -> bool {
        self.bot_user.id == other.author.id
    }

    /// The context of a process that is about to connect its shards: every
    /// shard of the cluster is `PendingCreation` with nothing outstanding, no
    /// request is pending, and the presence is the initial one.
    pub fn new(
        cache: EntityCache,
        scheme_info: SchemeInfo,
        bot_user: CurrentUser,
        global_admins: Vec<u64>,
        stats: BotStats,
        team_info: Vec<RawTeamMember>,
    ) -> (ctx: Self)
        requires
            cache.wf(),
            scheme_info.cluster_id * scheme_info.shards_per_cluster + scheme_info.shards_per_cluster
                <= u64::MAX,
        ensures
            ctx.wf(),
            ctx.cache == cache,
            ctx.shards.first() == scheme_info.cluster_id * scheme_info.shards_per_cluster,
            ctx.shards.count() == scheme_info.shards_per_cluster,
            forall|id: u64| #[trigger]
                ctx.shards.owns(id) ==> ctx.shards.states()[id] == ShardState::PendingCreation
                    && ctx.shards.missing()[id] == 0,
            ctx.shards.ready_gauge() == 0,
            ctx.chunk_requests@ == (Map::<Seq<char>, u64>::empty()),
            ctx.chunk_requests.next_ticket() == 0,
            ctx.stats == stats,
            ctx.status_type == 3,
            ctx.status_text@ == "the commands turn"@,
            ctx.bot_user == bot_user,
            ctx.scheme_info == scheme_info,
            ctx.global_admins == global_admins,
            ctx.team_info == team_info,
            ctx.accepting_events,
            ctx.last_cold_resume is None,
    {
        let shards = ShardTable::new(scheme_info.cluster_id, scheme_info.shards_per_cluster);
        BotContext {
            cache,
            shards,
            chunk_requests: ChunkRequests::new(),
            stats,
            status_type: 3,
            status_text: String::from_str("the commands turn"),
            bot_user,
            scheme_info,
            start_time: now_millis(),
            global_admins,
            team_info,
            accepting_events: true,
            last_cold_resume: None,
        }
    }

    /// How many shards of the cluster are `Ready`.
    pub fn ready_shard_count(&self) -> (ready: u64)
        requires
            self.shards.wf(),
        ensures
            ready == crate::shard::ready_shards(self.shards.states()).len(),
    {
        self.shards.ready_count()
    }

    /// How many requests wait for their reply.
    pub fn pending_request_count(&self) -> (pending: usize)
        ensures
            pending == self.chunk_requests@.dom().len(),
    {
        self.chunk_requests.pending_count()
    }

    /// Notes that the process tried to resume from a snapshot at time `at`,
    /// and how that ended.
    pub fn note_cold_resume(&mut self, at: u64, outcome: ResumeOutcome)
        ensures
            final(self).last_cold_resume == Some(ColdResumeRecord { at, outcome }),
            final(self).cache == old(self).cache,
            final(self).shards == old(self).shards,
            final(self).chunk_requests == old(self).chunk_requests,
            final(self).stats == old(self).stats,
            final(self).accepting_events == old(self).accepting_events,
    {
        self.last_cold_resume = Some(ColdResumeRecord { at, outcome });
    }

    /// Prepares the process to stop at time `now`: no event is taken in from
    /// here on, and the result is the snapshot to store, as bytes, which holds
    /// the sessions given and every entity of the cache, and may be used for
    /// `ttl` seconds. Requests that still wait for a reply are left to their
    /// own timeouts.
    pub fn prepare_shutdown(&mut self, sessions: Vec<ShardResume>, now: u64, ttl: u64) -> (bytes: Vec<
        u8,
    >)
        requires
            old(self).wf(),
        ensures
            final(self).wf(),
            !final(self).accepting_events,
            final(self).cache == old(self).cache,
            final(self).shards == old(self).shards,
            final(self).chunk_requests == old(self).chunk_requests,
            final(self).stats == old(self).stats,
            exists|snapshot: SnapshotView|
                {
                    &&& bytes@ == #[trigger] snapshot_bytes(snapshot)
                    &&& writable(snapshot)
                    &&& snapshot.shards == shard_views(sessions@)
                    &&& lists_exactly(snapshot.entities, old(self).cache@)
                    &&& snapshot.expires_at == expiry_of(now, ttl)
                },
    {
        self.accepting_events = false;
        let snapshot = capture(&self.cache, sessions, now, ttl);
        let bytes = snapshot.serialize();
        assert(bytes@ == snapshot_bytes(snapshot@));
        bytes
    }

    /// Whether `other` was written by the account of this process.
    #[verifier::when_used_as_spec(spec_is_own)]
    pub fn is_own(&self, other: &Message) -> (own: bool)
        ensures
            own == self.spec_is_own(other),
    {
        self.bot_user.id == other.author.id
    }

    /// A copy of guild `id`; `None` where the cache holds no such guild.
    pub fn get_guild(&self, id: u64) -> (found: Option<CachedGuild>)
        ensures
            match found {
                Some(guild) => self.cache.guild(id) == Some(guild@),
                None => self.cache.guild(id) is None,
            },
    {
        self.cache.get_guild(id)
    }

    /// A copy of role `role_id` of guild `guild_id`, where the cache holds both
    /// and the guild lists the role.
    pub fn get_role(&self, guild_id: u64, role_id: u64) -> (found: Option<CachedRole>)
        ensures
            match found {
                Some(role) => self.cache.role_of(guild_id, role_id) == Some(role@),
                None => self.cache.role_of(guild_id, role_id) is None,
            },
    {
        self.cache.get_role(guild_id, role_id)
    }

    /// Whether the cache holds guild `id` and its initial snapshot has fully arrived.
    pub fn is_guild_complete(&self, id: u64) -> (complete: bool)
        ensures
            complete == self.cache.guild_complete(id),
    {
        self.cache.is_guild_complete(id)
    }

    /// The state of shard `shard_id`; `None` for a shard of another cluster.
    pub fn get_shard_state(&self, shard_id: u64) -> (state: Option<ShardState>)
        requires
            self.shards.wf(),
        ensures
            state == (if self.shards.owns(shard_id) {
                Some(self.shards.states()[shard_id])
            } else {
                None
            }),
    {
        self.shards.get_state(shard_id)
    }

    /// Prepares a request for the members of guild `guild_id`: makes it pending
    /// under a nonce of its own and returns what is to be sent. Returns `None`,
    /// and changes nothing, where every ticket has been given out or a request
    /// is already pending under the nonce.
    pub fn request_member_chunk(&mut self, guild_id: u64) -> (request: Option<ChunkRequest>)
        requires
            old(self).wf(),
        ensures
            final(self).wf(),
            final(self).cache == old(self).cache,
            final(self).shards == old(self).shards,
            final(self).stats == old(self).stats,
            final(self).start_time == old(self).start_time,
            match request {
                Some(request) => {
                    &&& request.guild_id == guild_id
                    &&& request.nonce@ == nonce_for(
                        old(self).start_time,
                        old(self).chunk_requests.next_ticket(),
                    )
                    &&& request.waiter == (WaiterHandle {
                        ticket: old(self).chunk_requests.next_ticket(),
                    })
                    &&& !old(self).chunk_requests@.contains_key(request.nonce@)
                    &&& final(self).chunk_requests@ == old(self).chunk_requests@.insert(
                        request.nonce@,
                        request.waiter.ticket,
                    )
                    &&& final(self).chunk_requests.next_ticket() == old(
                        self,
                    ).chunk_requests.next_ticket() + 1
                },
                None => {
                    &&& final(self).chunk_requests@ == old(self).chunk_requests@
                    &&& final(self).chunk_requests.next_ticket() == old(
                        self,
                    ).chunk_requests.next_ticket()
                    &&& old(self).chunk_requests.next_ticket() == u64::MAX || old(
                        self,
                    ).chunk_requests@.contains_key(
                        nonce_for(old(self).start_time, old(self).chunk_requests.next_ticket()),
                    )
                },
            },
    {
        let ticket = self.chunk_requests.upcoming_ticket();
        let run: u64 = if self.start_time >= 0 {
            self.start_time as u64
        } else {
            0
        };
        let mut nonce = String::new();
        push_decimal(&mut nonce, run);
        nonce.append("-");
        push_decimal(&mut nonce, ticket);
        proof {
            reveal_strlit("-");
            assert("-"@ =~= seq!['-']);
            assert(nonce@ =~= nonce_for(self.start_time, ticket));
        }
        if self.chunk_requests.is_pending(nonce.as_str()) {
            return None;
        }
        let sent = nonce.clone();
        match self.chunk_requests.register(nonce) {
            Some(waiter) => Some(ChunkRequest { guild_id, nonce: sent, waiter }),
            None => None,
        }
    }

    /// The team with the accounts of its members. `users` holds the account of
    /// each member of the team file, in the file's order.
    pub fn get_team_info(&self, users: &Vec<CachedUser>) -> (team: TeamInfo)
        requires
            users@.len() == self.team_info@.len(),
        ensures
            team.members@.len() == self.team_info@.len(),
            forall|i: int|
                0 <= i < team.members@.len() ==> describes(
                    #[trigger] team.members@[i],
                    self.team_info@[i],
                    users@[i],
                ),
    {
        let mut members: Vec<TeamMember> = Vec::new();
        let mut i: usize = 0;
        while i < self.team_info.len()
            invariant
                i <= self.team_info.len(),
                users@.len() == self.team_info@.len(),
                members@.len() == i,
                forall|j: int|
                    0 <= j < i ==> describes(#[trigger] members@[j], self.team_info@[j], users@[j]),
            decreases self.team_info.len() - i,
        {
            let raw = &self.team_info[i];
            let user = &users[i];
            let avatar = match &user.avatar {
                Some(avatar) => avatar.clone(),
                None => String::new(),
            };
            members.push(
                TeamMember {
                    username: user.username.clone(),
                    discriminator: user.discriminator.clone(),
                    id: raw.id.clone(),
                    avatar,
                    team: raw.team.clone(),
                    socials: TeamSocials {
                        twitter: copy_text(&raw.socials.twitter),
                        github: copy_text(&raw.socials.github),
                        website: copy_text(&raw.socials.website),
                    },
                },
            );
            i = i + 1;
        }
        TeamInfo { members }
    }
}

} // verus!
