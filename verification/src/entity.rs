//! The entities that the cache holds, each with its mathematical view.

use crate::loading::{Arrival, LoadingState};
use vstd::prelude::*;
use vstd::std_specs::convert::FromSpecImpl;

verus! {

/// A role as the gateway sends it.
#[derive(Debug, PartialEq, Eq)]
pub struct Role {
    pub id: u64,
    pub name: String,
    pub color: u32,
    pub hoist: bool,
    pub position: i64,
    pub permissions: u64,
    pub managed: bool,
    pub mentionable: bool,
}

/// A role as the cache keeps it: a snapshot that is replaced as a whole.
#[derive(Debug, PartialEq, Eq)]
pub struct CachedRole {
    pub id: u64,
    pub name: String,
    pub color: u32,
    pub hoisted: bool,
    pub position: i64,
    pub permissions: u64,
    pub managed: bool,
    pub mentionable: bool,
}

/// What a cached role is, with its name as a sequence of characters.
pub struct CachedRoleView {
    pub id: u64,
    pub name: Seq<char>,
    pub color: u32,
    pub hoisted: bool,
    pub position: i64,
    pub permissions: u64,
    pub managed: bool,
    pub mentionable: bool,
}

impl View for CachedRole {
    type V = CachedRoleView;

    open spec fn view(&self) -> CachedRoleView {
        CachedRoleView {
            id: self.id,
            name: self.name@,
            color: self.color,
            hoisted: self.hoisted,
            position: self.position,
            permissions: self.permissions,
            managed: self.managed,
            mentionable: self.mentionable,
        }
    }
}

impl Clone for CachedRole {
    fn clone(&self) -> (copy: Self)
        ensures
            copy@ == self@,
    {
        CachedRole {
            id: self.id,
            name: self.name.clone(),
            color: self.color,
            hoisted: self.hoisted,
            position: self.position,
            permissions: self.permissions,
            managed: self.managed,
            mentionable: self.mentionable,
        }
    }
}

impl FromSpecImpl<Role> for CachedRole {
    open spec fn obeys_from_spec() -> bool {
        true
    }

    open spec fn from_spec(role: Role) -> CachedRole {
        CachedRole {
            id: role.id,
            name: role.name,
            color: role.color,
            hoisted: role.hoist,
            position: role.position,
            permissions: role.permissions,
            managed: role.managed,
            mentionable: role.mentionable,
        }
    }
}

impl From<Role> for CachedRole {
    /// Keeps every attribute of the role as it was sent.
    fn from(role: Role) -> (cached: CachedRole) {
        CachedRole {
            id: role.id,
            name: role.name,
            color: role.color,
            hoisted: role.hoist,
            position: role.position,
            permissions: role.permissions,
            managed: role.managed,
            mentionable: role.mentionable,
        }
    }
}

/// A user as the cache keeps it.
#[derive(Debug, PartialEq, Eq)]
pub struct CachedUser {
    pub id: u64,
    pub username: String,
    pub discriminator: String,
    pub avatar: Option<String>,
    pub bot: bool,
}

/// What a cached user is, with its texts as sequences of characters.
pub struct CachedUserView {
    pub id: u64,
    pub username: Seq<char>,
    pub discriminator: Seq<char>,
    pub avatar: Option<Seq<char>>,
    pub bot: bool,
}

/// The characters of an optional text.
pub open spec fn text_view(text: Option<String>) -> Option<Seq<char>> {
    match text {
        Some(text) => Some(text@),
        None => None,
    }
}

impl View for CachedUser {
    type V = CachedUserView;

    open spec fn view(&self) -> CachedUserView {
        CachedUserView {
            id: self.id,
            username: self.username@,
            discriminator: self.discriminator@,
            avatar: text_view(self.avatar),
            bot: self.bot,
        }
    }
}

impl Clone for CachedUser {
    fn clone(&self) -> (copy: Self)
        ensures
            copy@ == self@,
    {
        let avatar = match &self.avatar {
            Some(avatar) => Some(avatar.clone()),
            None => None,
        };
        CachedUser {
            id: self.id,
            username: self.username.clone(),
            discriminator: self.discriminator.clone(),
            avatar,
            bot: self.bot,
        }
    }
}

/// A guild as the cache keeps it.
///
/// `complete` says that the initial snapshot of the guild has fully arrived. It
/// is set once per availability period and never cleared by later arrivals.
#[derive(Debug, PartialEq, Eq)]
pub struct CachedGuild {
    pub id: u64,
    pub name: String,
    pub complete: bool,
    pub loading: LoadingState,
    pub channels: Vec<u64>,
    pub roles: Vec<u64>,
    pub members: Vec<u64>,
}

/// What a cached guild is, with its name and identifier lists as sequences.
pub struct CachedGuildView {
    pub id: u64,
    pub name: Seq<char>,
    pub complete: bool,
    pub loading: LoadingState,
    pub channels: Seq<u64>,
    pub roles: Seq<u64>,
    pub members: Seq<u64>,
}

impl CachedGuildView {
    /// The guild after one batch of arrivals was observed: the counters move,
    /// and the guild becomes complete when the load is done.
    pub open spec fn after_arrival(self, arrival: Arrival) -> CachedGuildView {
        CachedGuildView {
            complete: self.complete || self.loading.spec_record(arrival).spec_is_done(),
            loading: self.loading.spec_record(arrival),
            ..self
        }
    }

    /// The guild after `arrivals` were observed in order.
    pub open spec fn after_arrivals(self, arrivals: Seq<Arrival>) -> CachedGuildView
        decreases arrivals.len(),
    {
        if arrivals.len() == 0 {
            self
        } else {
            self.after_arrivals(arrivals.drop_last()).after_arrival(arrivals.last())
        }
    }

    /// The guild with `id` among its roles, added at the end if it was not there.
    pub open spec fn with_role(self, id: u64) -> CachedGuildView {
        CachedGuildView { roles: with_id(self.roles, id), ..self }
    }

    /// The guild without `id` among its roles.
    pub open spec fn without_role(self, id: u64) -> CachedGuildView {
        CachedGuildView { roles: without_id(self.roles, id), ..self }
    }

    /// The guild with `id` among its members, added at the end if it was not there.
    pub open spec fn with_member(self, id: u64) -> CachedGuildView {
        CachedGuildView { members: with_id(self.members, id), ..self }
    }
}

/// `ids` with `id` in it: unchanged if it holds `id`, else with `id` at the end.
pub open spec fn with_id(ids: Seq<u64>, id: u64) -> Seq<u64> {
    if ids.contains(id) {
        ids
    } else {
        ids.push(id)
    }
}

/// `ids` without any occurrence of `id`, the others in their order.
pub open spec fn without_id(ids: Seq<u64>, id: u64) -> Seq<u64> {
    ids.filter(differs_from(id))
}

/// The test that an identifier is not `id`.
pub open spec fn differs_from(id: u64) -> spec_fn(u64) -> bool {
    |other: u64| other != id
}

/// Taking `id` out of a list with one more element at its end.
pub proof fn lemma_without_id_push(ids: Seq<u64>, next: u64, id: u64)
    ensures
        without_id(ids.push(next), id) == if next != id {
            without_id(ids, id).push(next)
        } else {
            without_id(ids, id)
        },
{
    ids.lemma_filter_push(next, differs_from(id));
}

/// Whether `ids` holds `id`.
pub fn holds_id(ids: &Vec<u64>, id: u64) -> (found: bool)
    ensures
        found == ids@.contains(id),
{
    let mut i: usize = 0;
    while i < ids.len()
        invariant
            i <= ids.len(),
            forall|j: int| 0 <= j < i ==> ids@[j] != id,
        decreases ids.len() - i,
    {
        if ids[i] == id {
            return true;
        }
        i = i + 1;
    }
    false
}

/// Adds `id` to `ids` unless it is there.
pub fn insert_id(ids: &mut Vec<u64>, id: u64)
    ensures
        final(ids)@ == with_id(old(ids)@, id),
{
    if !holds_id(ids, id) {
        ids.push(id);
    }
}

/// Takes every occurrence of `id` out of `ids`.
pub fn remove_id(ids: &mut Vec<u64>, id: u64)
    ensures
        final(ids)@ == without_id(old(ids)@, id),
{
    let mut kept: Vec<u64> = Vec::new();
    let mut i: usize = 0;
    while i < ids.len()
        invariant
            i <= ids.len(),
            kept@ == without_id(ids@.take(i as int), id),
        decreases ids.len() - i,
    {
        proof {
            assert(ids@.take(i + 1) =~= ids@.take(i as int).push(ids@[i as int]));
            lemma_without_id_push(ids@.take(i as int), ids@[i as int], id);
        }
        if ids[i] != id {
            kept.push(ids[i]);
        }
        i = i + 1;
    }
    assert(ids@.take(ids.len() as int) =~= ids@);
    *ids = kept;
}

/// A copy of `ids`.
pub fn copy_ids(ids: &Vec<u64>) -> (copy: Vec<u64>)
    ensures
        copy@ == ids@,
{
    let mut copy: Vec<u64> = Vec::new();
    let mut i: usize = 0;
    while i < ids.len()
        invariant
            i <= ids.len(),
            copy@ == ids@.take(i as int),
        decreases ids.len() - i,
    {
        copy.push(ids[i]);
        assert(ids@.take(i + 1) =~= ids@.take(i as int).push(ids@[i as int]));
        i = i + 1;
    }
    assert(ids@.take(ids.len() as int) =~= ids@);
    copy
}

impl View for CachedGuild {
    type V = CachedGuildView;

    open spec fn view(&self) -> CachedGuildView {
        CachedGuildView {
            id: self.id,
            name: self.name@,
            complete: self.complete,
            loading: self.loading,
            channels: self.channels@,
            roles: self.roles@,
            members: self.members@,
        }
    }
}

impl Clone for CachedGuild {
    fn clone(&self) -> (copy: Self)
        ensures
            copy@ == self@,
    {
        CachedGuild {
            id: self.id,
            name: self.name.clone(),
            complete: self.complete,
            loading: self.loading,
            channels: copy_ids(&self.channels),
            roles: copy_ids(&self.roles),
            members: copy_ids(&self.members),
        }
    }
}

impl CachedGuild {
    /// A guild that has just become available: not complete, its load announcing
    /// `expected_members` arrivals, or none where the total is not known.
    pub fn available(
        id: u64,
        name: String,
        expected_members: Option<u32>,
        channels: Vec<u64>,
        roles: Vec<u64>,
    ) -> (guild: Self)
        ensures
            guild@ == (CachedGuildView {
                id,
                name: name@,
                complete: false,
                loading: LoadingState {
                    to_load: match expected_members {
                        Some(expected) => expected,
                        None => 0,
                    },
                    loaded: 0,
                    marker_seen: false,
                },
                channels: channels@,
                roles: roles@,
                members: Seq::empty(),
            }),
    {
        let to_load = match expected_members {
            Some(expected) => expected,
            None => 0,
        };
        CachedGuild {
            id,
            name,
            complete: false,
            loading: LoadingState::new(to_load),
            channels,
            roles,
            members: Vec::new(),
        }
    }

    /// Records one observed batch of arrivals and marks the guild complete when
    /// its load is done. A complete guild stays complete.
    pub fn record_arrival(&mut self, arrival: Arrival)
        ensures
            final(self)@ == old(self)@.after_arrival(arrival),
            old(self).complete ==> final(self).complete,
    {
        self.loading.record(arrival);
        if self.loading.is_done() {
            self.complete = true;
        }
    }
}

/// A complete guild stays complete whatever arrives, and so does a guild that
/// became complete part of the way through `arrivals`.
pub proof fn lemma_complete_is_stable(guild: CachedGuildView, arrivals: Seq<Arrival>, seen: int)
    requires
        0 <= seen <= arrivals.len(),
        guild.after_arrivals(arrivals.take(seen)).complete,
    ensures
        guild.after_arrivals(arrivals).complete,
    decreases arrivals.len() - seen,
{
    if seen < arrivals.len() {
        assert(arrivals.take(seen + 1).drop_last() =~= arrivals.take(seen));
        assert(arrivals.take(seen + 1).last() == arrivals[seen]);
        lemma_complete_is_stable(guild, arrivals, seen + 1);
    } else {
        assert(arrivals.take(seen) =~= arrivals);
    }
}

/// The counters of a guild move with its arrivals as a load of their own does.
pub proof fn lemma_guild_loading_after_arrivals(guild: CachedGuildView, arrivals: Seq<Arrival>)
    ensures
        guild.after_arrivals(arrivals).loading == crate::loading::after_arrivals(
            guild.loading,
            arrivals,
        ),
    decreases arrivals.len(),
{
    if arrivals.len() > 0 {
        lemma_guild_loading_after_arrivals(guild, arrivals.drop_last());
    }
}

/// A guild that was not complete is complete after some arrivals exactly when
/// its load is done after them: no sooner, and no later.
pub proof fn lemma_guild_completes_with_its_load(guild: CachedGuildView, arrivals: Seq<Arrival>)
    requires
        !guild.complete,
        arrivals.len() > 0,
    ensures
        guild.after_arrivals(arrivals).complete == crate::loading::after_arrivals(
            guild.loading,
            arrivals,
        ).spec_is_done(),
    decreases arrivals.len(),
{
    let before = arrivals.drop_last();
    lemma_guild_loading_after_arrivals(guild, before);
    if before.len() > 0 {
        lemma_guild_completes_with_its_load(guild, before);
        if guild.after_arrivals(before).complete {
            crate::loading::lemma_done_is_stable(
                crate::loading::after_arrivals(guild.loading, before),
                seq![arrivals.last()],
            );
            assert(seq![arrivals.last()].drop_last() =~= Seq::<Arrival>::empty());
        }
    }
}

/// Arrivals change nothing of a guild but its load counters and its flag.
pub proof fn lemma_arrivals_keep_identity(guild: CachedGuildView, arrivals: Seq<Arrival>)
    ensures
        guild.after_arrivals(arrivals).id == guild.id,
        guild.after_arrivals(arrivals).name == guild.name,
        guild.after_arrivals(arrivals).channels == guild.channels,
        guild.after_arrivals(arrivals).roles == guild.roles,
        guild.after_arrivals(arrivals).members == guild.members,
    decreases arrivals.len(),
{
    if arrivals.len() > 0 {
        lemma_arrivals_keep_identity(guild, arrivals.drop_last());
    }
}

/// The kinds of entity that the cache holds.
#[derive(Clone, Copy, Debug, PartialEq, Eq, Structural)]
pub enum EntityKind {
    Guild,
    Role,
    User,
}

impl EntityKind {
    /// The number that stands for the kind in a key.
    pub open spec fn spec_tag(self) -> u8 {
        match self {
            EntityKind::Guild => 1,
            EntityKind::Role => 2,
            EntityKind::User => 3,
        }
    }

    /// The number that stands for the kind in a key.
    #[verifier::when_used_as_spec(spec_tag)]
    pub fn tag(self) -> (tag: u8)
        ensures
            tag == self.spec_tag(),
    {
        match self {
            EntityKind::Guild => 1,
            EntityKind::Role => 2,
            EntityKind::User => 3,
        }
    }
}

/// One cached entity of any kind.
#[derive(Debug, PartialEq, Eq)]
pub enum Entity {
    Guild(CachedGuild),
    Role(CachedRole),
    User(CachedUser),
}

/// What a cached entity is.
pub enum EntityView {
    Guild(CachedGuildView),
    Role(CachedRoleView),
    User(CachedUserView),
}

impl EntityView {
    /// The kind of the entity.
    pub open spec fn kind(self) -> EntityKind {
        match self {
            EntityView::Guild(_) => EntityKind::Guild,
            EntityView::Role(_) => EntityKind::Role,
            EntityView::User(_) => EntityKind::User,
        }
    }

    /// The remote identifier of the entity.
    pub open spec fn id(self) -> u64 {
        match self {
            EntityView::Guild(guild) => guild.id,
            EntityView::Role(role) => role.id,
            EntityView::User(user) => user.id,
        }
    }

    /// The key under which the cache holds the entity.
    pub open spec fn key(self) -> (u8, u64) {
        (self.kind().spec_tag(), self.id())
    }
}

impl View for Entity {
    type V = EntityView;

    open spec fn view(&self) -> EntityView {
        match self {
            Entity::Guild(guild) => EntityView::Guild(guild@),
            Entity::Role(role) => EntityView::Role(role@),
            Entity::User(user) => EntityView::User(user@),
        }
    }
}

impl Clone for Entity {
    fn clone(&self) -> (copy: Self)
        ensures
            copy@ == self@,
    {
        match self {
            Entity::Guild(guild) => Entity::Guild(guild.clone()),
            Entity::Role(role) => Entity::Role(role.clone()),
            Entity::User(user) => Entity::User(user.clone()),
        }
    }
}

impl Entity {
    /// The kind of the entity.
    pub fn kind(&self) -> (kind: EntityKind)
        ensures
            kind == self@.kind(),
    {
        match self {
            Entity::Guild(_) => EntityKind::Guild,
            Entity::Role(_) => EntityKind::Role,
            Entity::User(_) => EntityKind::User,
        }
    }

    /// The remote identifier of the entity.
    pub fn id(&self) -> (id: u64)
        ensures
            id == self@.id(),
    {
        match self {
            Entity::Guild(guild) => guild.id,
            Entity::Role(role) => role.id,
            Entity::User(user) => user.id,
        }
    }
}

} // verus!
