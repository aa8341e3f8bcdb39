//! The entity cache: a store of guilds, roles and users keyed by kind and
//! remote identifier, derived from the event stream alone.
//!
//! The store is a `DashMap`. The proofs do not look into its code: what the
//! wrappers at the top of this file state of it is taken on trust from its
//! source.
//!
//! Reads take the cache by shared reference and writes by exclusive
//! reference, so every contract speaks of one writer at a time. A process that
//! shares the cache among tasks holds it behind a lock of its own.

use crate::entity::{
    CachedGuild, CachedGuildView, CachedRole, CachedRoleView, CachedUser, CachedUserView, Entity,
    EntityKind, EntityView,
};
use crate::loading::Arrival;
use dashmap::DashMap;
use std::collections::hash_map::RandomState;
use vstd::prelude::*;

verus! {

/// `dashmap::DashMap`, a concurrent hash map. Nothing of its inside is known
/// to the proofs.
#[verifier::external_type_specification]
#[verifier::external_body]
#[verifier::reject_recursive_types(K)]
#[verifier::reject_recursive_types(V)]
#[verifier::reject_recursive_types(S)]
pub struct ExDashMap<K, V, S>(DashMap<K, V, S>);

/// The entries that an entity store holds.
pub uninterp spec fn cache_entries(store: DashMap<(u8, u64), Entity, RandomState>) -> Map<(u8, u64), Entity>;

/// `DashMap::new`: a store that holds nothing.
#[verifier::external_body]
fn store_new() -> (store: DashMap<(u8, u64), Entity, RandomState>)
    ensures
        cache_entries(store) == (Map::<(u8, u64), Entity>::empty()),
{
    DashMap::new()
}

/// `DashMap::insert`: afterwards the store holds `entity` under `key`, in place
/// of what it held there, and every other entry as before.
#[verifier::external_body]
fn store_insert(store: &mut DashMap<(u8, u64), Entity, RandomState>, key: (u8, u64), entity: Entity)
    ensures
        cache_entries(*final(store)) == cache_entries(*old(store)).insert(key, entity),
{
    store.insert(key, entity);
}

/// `DashMap::remove`: afterwards the store holds nothing under `key`, and every
/// other entry as before. The result says whether there was an entry.
#[verifier::external_body]
fn store_remove(store: &mut DashMap<(u8, u64), Entity, RandomState>, key: (u8, u64)) -> (removed: bool)
    ensures
        cache_entries(*final(store)) == cache_entries(*old(store)).remove(key),
        removed == cache_entries(*old(store)).contains_key(key),
{
    store.remove(&key).is_some()
}

/// `DashMap::get`, followed by a copy of the value found: the result is a copy
/// of the entry under `key`, or `None` where there is none.
#[verifier::external_body]
fn store_get(store: &DashMap<(u8, u64), Entity, RandomState>, key: (u8, u64)) -> (found: Option<Entity>)
    ensures
        found is Some <==> cache_entries(*store).contains_key(key),
        found matches Some(entity) ==> entity@ == cache_entries(*store)[key]@,
{
    match store.get(&key) {
        Some(entry) => Some(entry.value().clone()),
        None => None,
    }
}

/// `DashMap::len`: how many entries the store holds.
#[verifier::external_body]
fn store_len(store: &DashMap<(u8, u64), Entity, RandomState>) -> (count: usize)
    ensures
        count == cache_entries(*store).dom().len(),
{
    store.len()
}

/// `DashMap::iter`, each entry copied out with its key: every pair listed is an
/// entry of the store, no key is listed twice, and every entry is listed. The
/// order is the store's own and is not stated.
#[verifier::external_body]
fn store_list(store: &DashMap<(u8, u64), Entity, RandomState>) -> (listed: Vec<((u8, u64), Entity)>)
    ensures
        forall|i: int|
            0 <= i < listed@.len() ==> cache_entries(*store).contains_key(#[trigger] listed@[i].0)
                && listed@[i].1@ == cache_entries(*store)[listed@[i].0]@,
        forall|i: int, j: int|
            0 <= i < j < listed@.len() ==> #[trigger] listed@[i].0 != #[trigger] listed@[j].0,
        forall|key: (u8, u64)| #[trigger]
            cache_entries(*store).contains_key(key) ==> exists|i: int|
                0 <= i < listed@.len() && #[trigger] listed@[i].0 == key,
{
    let mut listed = Vec::new();
    for entry in store.iter() {
        listed.push((*entry.key(), entry.value().clone()));
    }
    listed
}

/// The key under which the cache holds the entity of `kind` with identifier `id`.
pub open spec fn key_of(kind: EntityKind, id: u64) -> (u8, u64) {
    (kind.spec_tag(), id)
}

/// The views of the entries of a store.
pub open spec fn entity_views(entries: Map<(u8, u64), Entity>) -> Map<(u8, u64), EntityView> {
    Map::new(|key: (u8, u64)| entries.contains_key(key), |key: (u8, u64)| entries[key]@)
}

/// The map that upserting `entities` one after the other into `start` gives.
pub open spec fn upsert_all(start: Map<(u8, u64), EntityView>, entities: Seq<EntityView>) -> Map<
    (u8, u64),
    EntityView,
>
    decreases entities.len(),
{
    if entities.len() == 0 {
        start
    } else {
        upsert_all(start, entities.drop_last()).insert(entities.last().key(), entities.last())
    }
}

/// The views of a list of entities.
pub open spec fn views_of(entities: Seq<Entity>) -> Seq<EntityView> {
    Seq::new(entities.len(), |i: int| entities[i]@)
}

/// Whether `entities` lists every entry of `entries` exactly once.
pub open spec fn lists_exactly(entities: Seq<EntityView>, entries: Map<(u8, u64), EntityView>) -> bool {
    &&& forall|i: int|
        0 <= i < entities.len() ==> entries.contains_key(#[trigger] entities[i].key())
            && entries[entities[i].key()] == entities[i]
    &&& forall|i: int, j: int|
        0 <= i < j < entities.len() ==> #[trigger] entities[i].key() != #[trigger] entities[j].key()
    &&& forall|key: (u8, u64)| #[trigger]
        entries.contains_key(key) ==> exists|i: int|
            0 <= i < entities.len() && #[trigger] entities[i].key() == key
}

/// The entity of `kind` with identifier `id` among `entries`, if there is one.
pub open spec fn entity_in(entries: Map<(u8, u64), EntityView>, kind: EntityKind, id: u64) -> Option<
    EntityView,
> {
    if entries.contains_key(key_of(kind, id)) {
        Some(entries[key_of(kind, id)])
    } else {
        None
    }
}

/// The guild with identifier `id` among `entries`, if there is one.
pub open spec fn guild_in(entries: Map<(u8, u64), EntityView>, id: u64) -> Option<CachedGuildView> {
    match entity_in(entries, EntityKind::Guild, id) {
        Some(EntityView::Guild(guild)) => Some(guild),
        _ => None,
    }
}

/// The role with identifier `id` among `entries`, if there is one.
pub open spec fn role_in(entries: Map<(u8, u64), EntityView>, id: u64) -> Option<CachedRoleView> {
    match entity_in(entries, EntityKind::Role, id) {
        Some(EntityView::Role(role)) => Some(role),
        _ => None,
    }
}

/// The user with identifier `id` among `entries`, if there is one.
pub open spec fn user_in(entries: Map<(u8, u64), EntityView>, id: u64) -> Option<CachedUserView> {
    match entity_in(entries, EntityKind::User, id) {
        Some(EntityView::User(user)) => Some(user),
        _ => None,
    }
}

/// Whether `entries` hold guild `id` and its initial snapshot has fully arrived.
pub open spec fn guild_complete_in(entries: Map<(u8, u64), EntityView>, id: u64) -> bool {
    match guild_in(entries, id) {
        Some(guild) => guild.complete,
        None => false,
    }
}

/// A store of cached entities. Each entity is held under the key made of its
/// kind and its identifier.
pub struct EntityCache {
    store: DashMap<(u8, u64), Entity, RandomState>,
}

impl View for EntityCache {
    type V = Map<(u8, u64), EntityView>;

    closed spec fn view(&self) -> Map<(u8, u64), EntityView> {
        entity_views(cache_entries(self.store))
    }
}

impl EntityCache {
    /// Every entity is held under its own key.
    pub open spec fn wf(&self) -> bool {
        forall|key: (u8, u64)| #[trigger] self@.contains_key(key) ==> self@[key].key() == key
    }

    /// The entity of `kind` with identifier `id`, if the cache holds it.
    pub open spec fn entity(&self, kind: EntityKind, id: u64) -> Option<EntityView> {
        entity_in(self@, kind, id)
    }

    /// The guild with identifier `id`, if the cache holds it.
    pub open spec fn guild(&self, id: u64) -> Option<CachedGuildView> {
        guild_in(self@, id)
    }

    /// The role with identifier `id`, if the cache holds it.
    pub open spec fn role(&self, id: u64) -> Option<CachedRoleView> {
        role_in(self@, id)
    }

    /// The user with identifier `id`, if the cache holds it.
    pub open spec fn user(&self, id: u64) -> Option<CachedUserView> {
        user_in(self@, id)
    }

    /// The role `role_id` of guild `guild_id`: known only where the cache holds
    /// the guild, the guild lists the role, and the cache holds the role.
    pub open spec fn role_of(&self, guild_id: u64, role_id: u64) -> Option<CachedRoleView> {
        match self.guild(guild_id) {
            Some(guild) => if guild.roles.contains(role_id) {
                self.role(role_id)
            } else {
                None
            },
            None => None,
        }
    }

    /// Whether the cache holds guild `id` and its initial snapshot has fully arrived.
    pub open spec fn guild_complete(&self, id: u64) -> bool {
        guild_complete_in(self@, id)
    }

    /// A cache that holds nothing.
    pub fn new() -> (cache: Self)
        ensures
            cache.wf(),
            cache@ == (Map::<(u8, u64), EntityView>::empty()),
    {
        let cache = EntityCache { store: store_new() };
        assert(cache@ =~= Map::<(u8, u64), EntityView>::empty());
        cache
    }

    /// Puts `entity` in place of whatever the cache held for its kind and
    /// identifier. Every other entity stays as it was.
    pub fn upsert(&mut self, entity: Entity)
        requires
            old(self).wf(),
        ensures
            final(self).wf(),
            final(self)@ == old(self)@.insert(entity@.key(), entity@),
            final(self)@ == after_op(old(self)@, CacheOp::Upsert(entity@)),
            final(self).entity(entity@.kind(), entity@.id()) == Some(entity@),
    {
        let key = (entity.kind().tag(), entity.id());
        store_insert(&mut self.store, key, entity);
        assert(self@ =~= old(self)@.insert(key, entity@));
    }

    /// A copy of the entity of `kind` with identifier `id`; `None` where the
    /// cache holds none.
    pub fn get(&self, kind: EntityKind, id: u64) -> (found: Option<Entity>)
        ensures
            match found {
                Some(entity) => self.entity(kind, id) == Some(entity@),
                None => self.entity(kind, id) is None,
            },
    {
        store_get(&self.store, (kind.tag(), id))
    }

    /// Evicts the entity of `kind` with identifier `id` and says whether the
    /// cache held it. Every other entity stays as it was.
    pub fn remove(&mut self, kind: EntityKind, id: u64) -> (removed: bool)
        requires
            old(self).wf(),
        ensures
            final(self).wf(),
            final(self)@ == old(self)@.remove(key_of(kind, id)),
            final(self)@ == after_op(old(self)@, CacheOp::Remove { kind, id }),
            final(self).entity(kind, id) is None,
            removed == old(self)@.contains_key(key_of(kind, id)),
    {
        let removed = store_remove(&mut self.store, (kind.tag(), id));
        assert(self@ =~= old(self)@.remove(key_of(kind, id)));
        removed
    }

    /// How many entities the cache holds.
    pub fn len(&self) -> (len: usize)
        ensures
            len == self@.dom().len(),
    {
        let len = store_len(&self.store);
        assert(self@.dom() =~= cache_entries(self.store).dom());
        len
    }

    /// A copy of guild `id`; `None` where the cache holds no such guild.
    pub fn get_guild(&self, id: u64) -> (found: Option<CachedGuild>)
        ensures
            match found {
                Some(guild) => self.guild(id) == Some(guild@),
                None => self.guild(id) is None,
            },
    {
        match self.get(EntityKind::Guild, id) {
            Some(Entity::Guild(guild)) => Some(guild),
            _ => None,
        }
    }

    /// A copy of user `id`; `None` where the cache holds no such user.
    pub fn get_user(&self, id: u64) -> (found: Option<CachedUser>)
        ensures
            match found {
                Some(user) => self.user(id) == Some(user@),
                None => self.user(id) is None,
            },
    {
        match self.get(EntityKind::User, id) {
            Some(Entity::User(user)) => Some(user),
            _ => None,
        }
    }

    /// A copy of role `role_id` of guild `guild_id`; `None` where the cache does
    /// not hold the guild, the guild does not list the role, or the cache does
    /// not hold the role.
    pub fn get_role(&self, guild_id: u64, role_id: u64) -> (found: Option<CachedRole>)
        ensures
            match found {
                Some(role) => self.role_of(guild_id, role_id) == Some(role@),
                None => self.role_of(guild_id, role_id) is None,
            },
    {
        let guild = match self.get_guild(guild_id) {
            Some(guild) => guild,
            None => {
                return None;
            },
        };
        if !crate::entity::holds_id(&guild.roles, role_id) {
            return None;
        }
        match self.get(EntityKind::Role, role_id) {
            Some(Entity::Role(role)) => Some(role),
            _ => None,
        }
    }

    /// Whether the cache holds guild `id` and its initial snapshot has fully arrived.
    pub fn is_guild_complete(&self, id: u64) -> (complete: bool)
        ensures
            complete == self.guild_complete(id),
    {
        match self.get_guild(id) {
            Some(guild) => guild.complete,
            None => false,
        }
    }

    /// Records one batch of arrivals for guild `id`, and says whether the guild
    /// is complete afterwards. Where the cache does not hold the guild, nothing
    /// changes and the result is `None`.
    pub fn record_arrival(&mut self, id: u64, arrival: Arrival) -> (complete: Option<bool>)
        requires
            old(self).wf(),
        ensures
            final(self).wf(),
            match old(self).guild(id) {
                Some(guild) => final(self)@ == old(self)@.insert(
                    key_of(EntityKind::Guild, id),
                    EntityView::Guild(guild.after_arrival(arrival)),
                ) && complete == Some(guild.after_arrival(arrival).complete),
                None => final(self)@ == old(self)@ && complete is None,
            },
    {
        match self.get_guild(id) {
            Some(mut guild) => {
                guild.record_arrival(arrival);
                let complete = guild.complete;
                assert(guild.id == id);
                self.upsert(Entity::Guild(guild));
                Some(complete)
            },
            None => None,
        }
    }

    /// A copy of every entity that the cache holds, each once, in the store's
    /// own order.
    pub fn entities(&self) -> (listed: Vec<Entity>)
        requires
            self.wf(),
        ensures
            lists_exactly(views_of(listed@), self@),
    {
        let mut pairs = store_list(&self.store);
        let ghost all = pairs@;
        let mut listed: Vec<Entity> = Vec::new();
        let ghost entries = cache_entries(self.store);
        // Entities are taken from the end of the list, so the result is built
        // backwards and holds the pairs in reverse.
        while pairs.len() > 0
            invariant
                entries == cache_entries(self.store),
                self.wf(),
                pairs@.len() + listed@.len() == all.len(),
                pairs@ == all.take(pairs@.len() as int),
                forall|i: int|
                    0 <= i < listed@.len() ==> (#[trigger] listed@[i])@ == all[all.len() - 1 - i].1@,
                forall|i: int|
                    0 <= i < all.len() ==> entries.contains_key(#[trigger] all[i].0) && all[i].1@
                        == entries[all[i].0]@,
            decreases pairs.len(),
        {
            let pair = pairs.pop().unwrap();
            listed.push(pair.1);
            assert(pairs@ =~= all.take(pairs@.len() as int));
        }
        proof {
            let views = views_of(listed@);
            let n = all.len() as int;
            assert forall|i: int| 0 <= i < views.len() implies self@.contains_key(
                #[trigger] views[i].key(),
            ) && self@[views[i].key()] == views[i] by {
                let k = all[n - 1 - i].0;
                assert(entries.contains_key(k));
                assert(self@.contains_key(k));
                assert(self@[k].key() == k);
            }
            assert forall|i: int, j: int| 0 <= i < j < views.len() implies #[trigger] views[i].key()
                != #[trigger] views[j].key() by {
                let ki = all[n - 1 - i].0;
                let kj = all[n - 1 - j].0;
                assert(self@.contains_key(ki) && self@[ki].key() == ki);
                assert(self@.contains_key(kj) && self@[kj].key() == kj);
                assert(ki != kj);
            }
            assert forall|key: (u8, u64)| #[trigger] self@.contains_key(key) implies exists|i: int|
                0 <= i < views.len() && #[trigger] views[i].key() == key by {
                assert(entries.contains_key(key));
                let at = choose|i: int| 0 <= i < all.len() && #[trigger] all[i].0 == key;
                assert(self@[key].key() == key);
                assert(views[n - 1 - at].key() == key);
            }
        }
        listed
    }

    /// Upserts `entities` one after the other, the first one first.
    pub fn upsert_many(&mut self, entities: Vec<Entity>)
        requires
            old(self).wf(),
        ensures
            final(self).wf(),
            final(self)@ == upsert_all(old(self)@, views_of(entities@)),
    {
        let mut entities = entities;
        let ghost all = views_of(entities@);
        let mut rest: Vec<Entity> = Vec::new();
        // Turn the list round, so that taking from its end gives the first entity first.
        while entities.len() > 0
            invariant
                entities@.len() + rest@.len() == all.len(),
                forall|i: int| 0 <= i < entities@.len() ==> (#[trigger] entities@[i])@ == all[i],
                forall|i: int|
                    0 <= i < rest@.len() ==> (#[trigger] rest@[i])@ == all[all.len() - 1 - i],
            decreases entities.len(),
        {
            let entity = entities.pop().unwrap();
            rest.push(entity);
        }
        let ghost done = 0int;
        assert(all.take(0) =~= Seq::<EntityView>::empty());
        while rest.len() > 0
            invariant
                self.wf(),
                0 <= done <= all.len(),
                done + rest@.len() == all.len(),
                forall|i: int|
                    0 <= i < rest@.len() ==> (#[trigger] rest@[i])@ == all[all.len() - 1 - i],
                self@ == upsert_all(old(self)@, all.take(done)),
            decreases rest.len(),
        {
            let entity = rest.pop().unwrap();
            proof {
                assert(entity@ == all[done]);
                assert(all.take(done + 1).drop_last() =~= all.take(done));
                assert(all.take(done + 1).last() == all[done]);
            }
            self.upsert(entity);
            proof {
                done = done + 1;
            }
        }
        assert(all.take(all.len() as int) =~= all);
    }

    /// A cache that holds `entities`, upserted one after the other.
    pub fn restore(entities: Vec<Entity>) -> (cache: Self)
        ensures
            cache.wf(),
            cache@ == upsert_all(Map::empty(), views_of(entities@)),
    {
        let mut cache = EntityCache::new();
        cache.upsert_many(entities);
        cache
    }
}

/// What can be done to the entries of a cache.
pub enum CacheOp {
    /// The entity is put in place of what is held for its kind and identifier.
    Upsert(EntityView),
    /// What is held for the kind and the identifier is evicted.
    Remove { kind: EntityKind, id: u64 },
}

impl CacheOp {
    /// The key that the operation writes.
    pub open spec fn key(self) -> (u8, u64) {
        match self {
            CacheOp::Upsert(entity) => entity.key(),
            CacheOp::Remove { kind, id } => key_of(kind, id),
        }
    }
}

/// The entries after `op`.
pub open spec fn after_op(entries: Map<(u8, u64), EntityView>, op: CacheOp) -> Map<(u8, u64), EntityView> {
    match op {
        CacheOp::Upsert(entity) => entries.insert(entity.key(), entity),
        CacheOp::Remove { kind, id } => entries.remove(key_of(kind, id)),
    }
}

/// The entries after `ops`, one after the other.
pub open spec fn after_ops(entries: Map<(u8, u64), EntityView>, ops: Seq<CacheOp>) -> Map<
    (u8, u64),
    EntityView,
>
    decreases ops.len(),
{
    if ops.len() == 0 {
        entries
    } else {
        after_op(after_ops(entries, ops.drop_last()), ops.last())
    }
}

/// A read after an upsert gives exactly the entity that was upserted, however
/// many upserts and removals of other entities came in between.
pub proof fn lemma_get_after_upsert(
    entries: Map<(u8, u64), EntityView>,
    entity: EntityView,
    ops: Seq<CacheOp>,
)
    requires
        forall|i: int| 0 <= i < ops.len() ==> (#[trigger] ops[i]).key() != entity.key(),
    ensures
        entity_in(
            after_ops(after_op(entries, CacheOp::Upsert(entity)), ops),
            entity.kind(),
            entity.id(),
        ) == Some(entity),
    decreases ops.len(),
{
    if ops.len() > 0 {
        assert forall|i: int| 0 <= i < ops.drop_last().len() implies (#[trigger] ops.drop_last()[i]).key()
            != entity.key() by {
            assert(ops.drop_last()[i] == ops[i]);
        }
        lemma_get_after_upsert(entries, entity, ops.drop_last());
        assert(ops.last() == ops[ops.len() - 1]);
    }
}

/// A read after a removal finds nothing, however many upserts and removals of
/// other entities came in between.
pub proof fn lemma_get_after_remove(
    entries: Map<(u8, u64), EntityView>,
    kind: EntityKind,
    id: u64,
    ops: Seq<CacheOp>,
)
    requires
        forall|i: int| 0 <= i < ops.len() ==> (#[trigger] ops[i]).key() != key_of(kind, id),
    ensures
        entity_in(after_ops(after_op(entries, CacheOp::Remove { kind, id }), ops), kind, id) is None,
    decreases ops.len(),
{
    if ops.len() > 0 {
        assert forall|i: int| 0 <= i < ops.drop_last().len() implies (#[trigger] ops.drop_last()[i]).key()
            != key_of(kind, id) by {
            assert(ops.drop_last()[i] == ops[i]);
        }
        lemma_get_after_remove(entries, kind, id, ops.drop_last());
        assert(ops.last() == ops[ops.len() - 1]);
    }
}

/// Upserting entities leaves alone every key that none of them has.
pub proof fn lemma_upsert_all_elsewhere(
    start: Map<(u8, u64), EntityView>,
    entities: Seq<EntityView>,
    key: (u8, u64),
)
    requires
        forall|i: int| 0 <= i < entities.len() ==> (#[trigger] entities[i]).key() != key,
    ensures
        upsert_all(start, entities).contains_key(key) == start.contains_key(key),
        upsert_all(start, entities).contains_key(key) ==> upsert_all(start, entities)[key]
            == start[key],
    decreases entities.len(),
{
    if entities.len() > 0 {
        lemma_upsert_all_elsewhere(start, entities.drop_last(), key);
        assert(entities.last() == entities[entities.len() - 1]);
    }
}

/// Upserting into an empty cache a list that holds every entry of a
/// well-formed cache exactly once, in any order, gives that cache back.
pub proof fn lemma_restore_of_listing(entities: Seq<EntityView>, entries: Map<(u8, u64), EntityView>)
    requires
        lists_exactly(entities, entries),
    ensures
        upsert_all(Map::empty(), entities) == entries,
{
    lemma_upsert_all_prefix(entities, entries, entities.len() as int);
    assert(entities.take(entities.len() as int) =~= entities);
    let built = upsert_all(Map::empty(), entities);
    assert forall|key: (u8, u64)| entries.contains_key(key) implies built.contains_key(key) by {
        let at = choose|i: int| 0 <= i < entities.len() && #[trigger] entities[i].key() == key;
        assert(entities[at].key() == key);
    }
    assert(built =~= entries);
}

/// After the first `n` entities of an exact listing were upserted, the map
/// holds those entities, each under its key, and nothing else.
pub proof fn lemma_upsert_all_prefix(
    entities: Seq<EntityView>,
    entries: Map<(u8, u64), EntityView>,
    n: int,
)
    requires
        lists_exactly(entities, entries),
        0 <= n <= entities.len(),
    ensures
        forall|key: (u8, u64)| #[trigger]
            upsert_all(Map::empty(), entities.take(n)).contains_key(key) <==> exists|i: int|
                0 <= i < n && #[trigger] entities[i].key() == key,
        forall|key: (u8, u64)| #[trigger]
            upsert_all(Map::empty(), entities.take(n)).contains_key(key) ==> upsert_all(
                Map::empty(),
                entities.take(n),
            )[key] == entries[key],
    decreases n,
{
    if n > 0 {
        lemma_upsert_all_prefix(entities, entries, n - 1);
        assert(entities.take(n).drop_last() =~= entities.take(n - 1));
        assert(entities.take(n).last() == entities[n - 1]);
        let before = upsert_all(Map::empty(), entities.take(n - 1));
        let after = upsert_all(Map::empty(), entities.take(n));
        assert(after == before.insert(entities[n - 1].key(), entities[n - 1]));
        assert forall|key: (u8, u64)| #[trigger] after.contains_key(key) <==> exists|i: int|
            0 <= i < n && #[trigger] entities[i].key() == key by {
            if after.contains_key(key) {
                if key == entities[n - 1].key() {
                    assert(entities[n - 1].key() == key);
                } else {
                    assert(before.contains_key(key));
                    let at = choose|i: int| 0 <= i < n - 1 && #[trigger] entities[i].key() == key;
                    assert(entities[at].key() == key);
                }
            }
            if exists|i: int| 0 <= i < n && #[trigger] entities[i].key() == key {
                let at = choose|i: int| 0 <= i < n && #[trigger] entities[i].key() == key;
                if at < n - 1 {
                    assert(entities[at].key() == key);
                    assert(before.contains_key(key));
                }
            }
        }
        assert forall|key: (u8, u64)| #[trigger] after.contains_key(key) implies after[key]
            == entries[key] by {
            if key == entities[n - 1].key() {
                assert(entries[entities[n - 1].key()] == entities[n - 1]);
            } else {
                assert(before.contains_key(key));
            }
        }
    } else {
        assert(entities.take(0) =~= Seq::<EntityView>::empty());
    }
}

} // verus!
