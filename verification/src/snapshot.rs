//! The cold-resume snapshot: what a process writes before it stops so that
//! its successor can take up the shards' sessions and the cache, and how the
//! snapshot is laid out in bytes.
//!
//! The first byte is the version of the layout. A run of fields follows: one
//! field for each shard's session, then one for each cached entity, tagged by
//! its kind, then the time at which the snapshot expires. The payload of a
//! shard or an entity is a record of its attributes.

use crate::entity::{
    text_view, CachedGuild, CachedGuildView, CachedRole, CachedRoleView, CachedUser, CachedUserView,
    Entity, EntityView,
};
use crate::loading::LoadingState;
use crate::wire::{
    conforms, decode_record, decoded_record, encodable, encode_record, field_bytes, fold_fields,
    lemma_cut_after_field, lemma_cut_inside_field, lemma_first_of_field, lemma_fold_field,
    lemma_record_round_trip, read_field, record_bytes, value_from, value_views, write_field,
    SlotKind, Value, ValueView,
};
use vstd::bytes::{spec_u64_to_le_bytes, u64_from_le_bytes, u64_to_le_bytes};
use vstd::prelude::*;
use vstd::slice::slice_subrange;

verus! {

/// The version of the layout that this library writes and reads.
pub const FORMAT_VERSION: u8 = 1;

/// The tag of a shard's session in a snapshot.
pub const TAG_SHARD: u8 = 1;

/// The tag of a cached guild in a snapshot.
pub const TAG_GUILD: u8 = 2;

/// The tag of a cached role in a snapshot.
pub const TAG_ROLE: u8 = 3;

/// The tag of a cached user in a snapshot.
pub const TAG_USER: u8 = 4;

/// The tag of the expiry time in a snapshot.
pub const TAG_EXPIRES: u8 = 5;

/// What a shard needs to take up its session again.
#[derive(Debug, PartialEq, Eq)]
pub struct ShardResume {
    pub shard_id: u64,
    pub resume_endpoint: String,
    pub session_token: String,
    pub last_sequence: u64,
}

/// What a shard's session is, with its texts as sequences of characters.
pub struct ShardResumeView {
    pub shard_id: u64,
    pub resume_endpoint: Seq<char>,
    pub session_token: Seq<char>,
    pub last_sequence: u64,
}

impl View for ShardResume {
    type V = ShardResumeView;

    open spec fn view(&self) -> ShardResumeView {
        ShardResumeView {
            shard_id: self.shard_id,
            resume_endpoint: self.resume_endpoint@,
            session_token: self.session_token@,
            last_sequence: self.last_sequence,
        }
    }
}

impl Clone for ShardResume {
    fn clone(&self) -> (copy: Self)
        ensures
            copy@ == self@,
    {
        ShardResume {
            shard_id: self.shard_id,
            resume_endpoint: self.resume_endpoint.clone(),
            session_token: self.session_token.clone(),
            last_sequence: self.last_sequence,
        }
    }
}

/// The number at slot `index`, where the slot holds a number.
pub open spec fn number_at(values: Seq<ValueView>, index: int) -> Option<u64> {
    match values[index] {
        ValueView::Number(number) => Some(number),
        _ => None,
    }
}

/// The flag at slot `index`, where the slot holds a flag.
pub open spec fn flag_at(values: Seq<ValueView>, index: int) -> Option<bool> {
    match values[index] {
        ValueView::Flag(flag) => Some(flag),
        _ => None,
    }
}

/// The text at slot `index`, where the slot holds a text.
pub open spec fn text_at(values: Seq<ValueView>, index: int) -> Option<Seq<char>> {
    match values[index] {
        ValueView::Text(text) => Some(text),
        _ => None,
    }
}

/// The optional text at slot `index`, where the slot holds one.
pub open spec fn optional_text_at(values: Seq<ValueView>, index: int) -> Option<Option<Seq<char>>> {
    match values[index] {
        ValueView::OptionalText(text) => Some(text),
        _ => None,
    }
}

/// The identifiers at slot `index`, where the slot holds a list of them.
pub open spec fn ids_at(values: Seq<ValueView>, index: int) -> Option<Seq<u64>> {
    match values[index] {
        ValueView::Ids(ids) => Some(ids),
        _ => None,
    }
}

/// The 64 bits of a signed number, read as an unsigned one.
pub open spec fn bits_of(number: i64) -> u64 {
    number as u64
}

/// The signed number that 64 bits stand for.
pub open spec fn signed_of(bits: u64) -> i64 {
    bits as i64
}

/// The bits of a signed number stand for that number.
pub proof fn lemma_signed_round_trip(number: i64)
    ensures
        signed_of(bits_of(number)) == number,
{
    assert((number as u64) as i64 == number) by (bit_vector);
}

/// The slots of a shard's session.
pub open spec fn shard_schema() -> Seq<SlotKind> {
    seq![SlotKind::Number, SlotKind::Text, SlotKind::Text, SlotKind::Number]
}

/// The values of the slots of a shard's session.
pub open spec fn shard_values(shard: ShardResumeView) -> Seq<ValueView> {
    seq![
        ValueView::Number(shard.shard_id),
        ValueView::Text(shard.resume_endpoint),
        ValueView::Text(shard.session_token),
        ValueView::Number(shard.last_sequence),
    ]
}

/// The shard's session that the slots hold.
pub open spec fn shard_of(values: Seq<ValueView>) -> Option<ShardResumeView> {
    if values.len() == 4 && number_at(values, 0) is Some && text_at(values, 1) is Some && text_at(
        values,
        2,
    ) is Some && number_at(values, 3) is Some {
        Some(
            ShardResumeView {
                shard_id: number_at(values, 0).unwrap(),
                resume_endpoint: text_at(values, 1).unwrap(),
                session_token: text_at(values, 2).unwrap(),
                last_sequence: number_at(values, 3).unwrap(),
            },
        )
    } else {
        None
    }
}

/// The slots of a role.
pub open spec fn role_schema() -> Seq<SlotKind> {
    seq![
        SlotKind::Number,
        SlotKind::Text,
        SlotKind::Number,
        SlotKind::Flag,
        SlotKind::Number,
        SlotKind::Number,
        SlotKind::Flag,
        SlotKind::Flag,
    ]
}

/// The values of the slots of a role.
pub open spec fn role_values(role: CachedRoleView) -> Seq<ValueView> {
    seq![
        ValueView::Number(role.id),
        ValueView::Text(role.name),
        ValueView::Number(role.color as u64),
        ValueView::Flag(role.hoisted),
        ValueView::Number(bits_of(role.position)),
        ValueView::Number(role.permissions),
        ValueView::Flag(role.managed),
        ValueView::Flag(role.mentionable),
    ]
}

/// The role that the slots hold; none where the colour does not fit in 32 bits.
pub open spec fn role_of(values: Seq<ValueView>) -> Option<CachedRoleView> {
    if values.len() == 8 && number_at(values, 0) is Some && text_at(values, 1) is Some && number_at(
        values,
        2,
    ) is Some && flag_at(values, 3) is Some && number_at(values, 4) is Some && number_at(
        values,
        5,
    ) is Some && flag_at(values, 6) is Some && flag_at(values, 7) is Some && number_at(
        values,
        2,
    ).unwrap() <= u32::MAX {
        Some(
            CachedRoleView {
                id: number_at(values, 0).unwrap(),
                name: text_at(values, 1).unwrap(),
                color: number_at(values, 2).unwrap() as u32,
                hoisted: flag_at(values, 3).unwrap(),
                position: signed_of(number_at(values, 4).unwrap()),
                permissions: number_at(values, 5).unwrap(),
                managed: flag_at(values, 6).unwrap(),
                mentionable: flag_at(values, 7).unwrap(),
            },
        )
    } else {
        None
    }
}

/// The slots of a user.
pub open spec fn user_schema() -> Seq<SlotKind> {
    seq![
        SlotKind::Number,
        SlotKind::Text,
        SlotKind::Text,
        SlotKind::OptionalText,
        SlotKind::Flag,
    ]
}

/// The values of the slots of a user.
pub open spec fn user_values(user: CachedUserView) -> Seq<ValueView> {
    seq![
        ValueView::Number(user.id),
        ValueView::Text(user.username),
        ValueView::Text(user.discriminator),
        ValueView::OptionalText(user.avatar),
        ValueView::Flag(user.bot),
    ]
}

/// The user that the slots hold.
pub open spec fn user_of(values: Seq<ValueView>) -> Option<CachedUserView> {
    if values.len() == 5 && number_at(values, 0) is Some && text_at(values, 1) is Some && text_at(
        values,
        2,
    ) is Some && optional_text_at(values, 3) is Some && flag_at(values, 4) is Some {
        Some(
            CachedUserView {
                id: number_at(values, 0).unwrap(),
                username: text_at(values, 1).unwrap(),
                discriminator: text_at(values, 2).unwrap(),
                avatar: optional_text_at(values, 3).unwrap(),
                bot: flag_at(values, 4).unwrap(),
            },
        )
    } else {
        None
    }
}

/// The slots of a guild.
pub open spec fn guild_schema() -> Seq<SlotKind> {
    seq![
        SlotKind::Number,
        SlotKind::Text,
        SlotKind::Flag,
        SlotKind::Number,
        SlotKind::Number,
        SlotKind::Flag,
        SlotKind::Ids,
        SlotKind::Ids,
        SlotKind::Ids,
    ]
}

/// The values of the slots of a guild.
pub open spec fn guild_values(guild: CachedGuildView) -> Seq<ValueView> {
    seq![
        ValueView::Number(guild.id),
        ValueView::Text(guild.name),
        ValueView::Flag(guild.complete),
        ValueView::Number(guild.loading.to_load as u64),
        ValueView::Number(guild.loading.loaded as u64),
        ValueView::Flag(guild.loading.marker_seen),
        ValueView::Ids(guild.channels),
        ValueView::Ids(guild.roles),
        ValueView::Ids(guild.members),
    ]
}

/// The guild that the slots hold; none where a load counter does not fit in
/// 32 bits.
pub open spec fn guild_of(values: Seq<ValueView>) -> Option<CachedGuildView> {
    if values.len() == 9 && number_at(values, 0) is Some && text_at(values, 1) is Some && flag_at(
        values,
        2,
    ) is Some && number_at(values, 3) is Some && number_at(values, 4) is Some && flag_at(
        values,
        5,
    ) is Some && ids_at(values, 6) is Some && ids_at(values, 7) is Some && ids_at(values, 8) is Some
        && number_at(values, 3).unwrap() <= u32::MAX && number_at(values, 4).unwrap() <= u32::MAX {
        Some(
            CachedGuildView {
                id: number_at(values, 0).unwrap(),
                name: text_at(values, 1).unwrap(),
                complete: flag_at(values, 2).unwrap(),
                loading: LoadingState {
                    to_load: number_at(values, 3).unwrap() as u32,
                    loaded: number_at(values, 4).unwrap() as u32,
                    marker_seen: flag_at(values, 5).unwrap(),
                },
                channels: ids_at(values, 6).unwrap(),
                roles: ids_at(values, 7).unwrap(),
                members: ids_at(values, 8).unwrap(),
            },
        )
    } else {
        None
    }
}

/// The tag under which an entity is written.
pub open spec fn entity_tag(entity: EntityView) -> u8 {
    match entity {
        EntityView::Guild(_) => TAG_GUILD,
        EntityView::Role(_) => TAG_ROLE,
        EntityView::User(_) => TAG_USER,
    }
}

/// The values of the slots of an entity.
pub open spec fn entity_values(entity: EntityView) -> Seq<ValueView> {
    match entity {
        EntityView::Guild(guild) => guild_values(guild),
        EntityView::Role(role) => role_values(role),
        EntityView::User(user) => user_values(user),
    }
}

/// The slots of the entities written under `tag`.
pub open spec fn entity_schema(tag: u8) -> Seq<SlotKind> {
    if tag == TAG_GUILD {
        guild_schema()
    } else if tag == TAG_ROLE {
        role_schema()
    } else {
        user_schema()
    }
}

/// The entity that the slots hold, read under `tag`.
pub open spec fn entity_of(tag: u8, values: Seq<ValueView>) -> Option<EntityView> {
    if tag == TAG_GUILD {
        match guild_of(values) {
            Some(guild) => Some(EntityView::Guild(guild)),
            None => None,
        }
    } else if tag == TAG_ROLE {
        match role_of(values) {
            Some(role) => Some(EntityView::Role(role)),
            None => None,
        }
    } else {
        match user_of(values) {
            Some(user) => Some(EntityView::User(user)),
            None => None,
        }
    }
}

/// The entity that `payload` holds, read under `tag`.
pub open spec fn entity_from(tag: u8, payload: Seq<u8>) -> Option<EntityView> {
    match decoded_record(entity_schema(tag), payload) {
        Some(values) => entity_of(tag, values),
        None => None,
    }
}

/// The shard's session that `payload` holds.
pub open spec fn shard_from(payload: Seq<u8>) -> Option<ShardResumeView> {
    match decoded_record(shard_schema(), payload) {
        Some(values) => shard_of(values),
        None => None,
    }
}

/// The slots of a shard's session hold that session.
pub proof fn lemma_shard_values(shard: ShardResumeView)
    ensures
        conforms(shard_values(shard), shard_schema()),
        shard_of(shard_values(shard)) == Some(shard),
{
}

/// The slots of an entity hold that entity.
pub proof fn lemma_entity_values(entity: EntityView)
    ensures
        conforms(entity_values(entity), entity_schema(entity_tag(entity))),
        entity_of(entity_tag(entity), entity_values(entity)) == Some(entity),
{
    match entity {
        EntityView::Role(role) => {
            lemma_signed_round_trip(role.position);
        },
        _ => {},
    }
}

/// A snapshot: the sessions of the shards, the entities of the cache, and the
/// time, in seconds since the Unix epoch, from which it is not to be used.
#[derive(Debug, PartialEq, Eq)]
pub struct ColdResumeSnapshot {
    pub shards: Vec<ShardResume>,
    pub entities: Vec<Entity>,
    pub expires_at: u64,
}

/// What a snapshot is, with its lists as sequences.
pub struct SnapshotView {
    pub shards: Seq<ShardResumeView>,
    pub entities: Seq<EntityView>,
    pub expires_at: u64,
}

/// The views of a list of shard sessions.
pub open spec fn shard_views(shards: Seq<ShardResume>) -> Seq<ShardResumeView> {
    Seq::new(shards.len(), |i: int| shards[i]@)
}

impl View for ColdResumeSnapshot {
    type V = SnapshotView;

    open spec fn view(&self) -> SnapshotView {
        SnapshotView {
            shards: shard_views(self.shards@),
            entities: crate::cache::views_of(self.entities@),
            expires_at: self.expires_at,
        }
    }
}

/// Why the bytes of a snapshot were not read.
#[derive(Clone, Copy, Debug, PartialEq, Eq, Structural)]
pub enum SnapshotError {
    /// There are no bytes.
    Empty,
    /// The first byte names a layout that this library does not read.
    UnknownVersion,
    /// The bytes are no run of fields, or a field does not hold what its tag says.
    Malformed,
}

/// A snapshot that holds nothing and has expired.
pub open spec fn empty_snapshot() -> SnapshotView {
    SnapshotView { shards: Seq::empty(), entities: Seq::empty(), expires_at: 0 }
}

/// What one field does to the snapshot read so far: a shard or an entity is
/// added to its list, the expiry time is set, and a field with any other tag
/// is passed over.
pub open spec fn snapshot_step() -> spec_fn(SnapshotView, u8, Seq<u8>) -> Option<SnapshotView> {
    |read: SnapshotView, tag: u8, payload: Seq<u8>|
        if tag == TAG_SHARD {
            match shard_from(payload) {
                Some(shard) => Some(SnapshotView { shards: read.shards.push(shard), ..read }),
                None => None,
            }
        } else if tag == TAG_GUILD || tag == TAG_ROLE || tag == TAG_USER {
            match entity_from(tag, payload) {
                Some(entity) => Some(SnapshotView { entities: read.entities.push(entity), ..read }),
                None => None,
            }
        } else if tag == TAG_EXPIRES {
            match value_from(SlotKind::Number, payload) {
                Some(ValueView::Number(expires_at)) => Some(SnapshotView { expires_at, ..read }),
                _ => None,
            }
        } else {
            Some(read)
        }
}

/// The snapshot that `bytes` hold.
pub open spec fn snapshot_from(bytes: Seq<u8>) -> Result<SnapshotView, SnapshotError> {
    if bytes.len() == 0 {
        Err(SnapshotError::Empty)
    } else if bytes[0] != FORMAT_VERSION {
        Err(SnapshotError::UnknownVersion)
    } else {
        match fold_fields(snapshot_step(), empty_snapshot(), bytes.skip(1)) {
            Some(snapshot) => Ok(snapshot),
            None => Err(SnapshotError::Malformed),
        }
    }
}

/// The field of the expiry time: nothing for zero.
pub open spec fn expiry_bytes(expires_at: u64) -> Seq<u8> {
    if expires_at == 0 {
        Seq::empty()
    } else {
        field_bytes(TAG_EXPIRES, spec_u64_to_le_bytes(expires_at))
    }
}

/// The fields of the entities from `from` on, and `rest` after them.
pub open spec fn entities_then(entities: Seq<EntityView>, from: int, rest: Seq<u8>) -> Seq<u8>
    decreases entities.len() - from,
{
    if from < 0 || from >= entities.len() {
        rest
    } else {
        field_bytes(entity_tag(entities[from]), record_bytes(entity_values(entities[from])))
            + entities_then(entities, from + 1, rest)
    }
}

/// The fields of the shards from `from` on, and `rest` after them.
pub open spec fn shards_then(shards: Seq<ShardResumeView>, from: int, rest: Seq<u8>) -> Seq<u8>
    decreases shards.len() - from,
{
    if from < 0 || from >= shards.len() {
        rest
    } else {
        field_bytes(TAG_SHARD, record_bytes(shard_values(shards[from]))) + shards_then(
            shards,
            from + 1,
            rest,
        )
    }
}

/// The bytes of a snapshot.
pub open spec fn snapshot_bytes(snapshot: SnapshotView) -> Seq<u8> {
    seq![FORMAT_VERSION] + shards_then(
        snapshot.shards,
        0,
        entities_then(snapshot.entities, 0, expiry_bytes(snapshot.expires_at)),
    )
}

/// Whether a snapshot can be written: the length of every record of it, and
/// of every payload in a record, fits in 64 bits.
pub open spec fn writable(snapshot: SnapshotView) -> bool {
    &&& forall|i: int|
        0 <= i < snapshot.shards.len() ==> encodable(shard_values(#[trigger] snapshot.shards[i]))
            && record_bytes(shard_values(snapshot.shards[i])).len() <= u64::MAX
    &&& forall|i: int|
        0 <= i < snapshot.entities.len() ==> encodable(
            entity_values(#[trigger] snapshot.entities[i]),
        ) && record_bytes(entity_values(snapshot.entities[i])).len() <= u64::MAX
}

/// Reading the fields of the entities from `from` on adds them to the
/// snapshot read so far, in their order.
pub proof fn lemma_entities_read(read: SnapshotView, entities: Seq<EntityView>, from: int, rest: Seq<u8>)
    requires
        0 <= from <= entities.len(),
        forall|i: int|
            from <= i < entities.len() ==> encodable(entity_values(#[trigger] entities[i]))
                && record_bytes(entity_values(entities[i])).len() <= u64::MAX,
    ensures
        fold_fields(snapshot_step(), read, entities_then(entities, from, rest)) == fold_fields(
            snapshot_step(),
            SnapshotView { entities: read.entities + entities.skip(from), ..read },
            rest,
        ),
    decreases entities.len() - from,
{
    if from == entities.len() {
        assert(read.entities + entities.skip(from) =~= read.entities);
    } else {
        let entity = entities[from];
        let tag = entity_tag(entity);
        let payload = record_bytes(entity_values(entity));
        let next = SnapshotView { entities: read.entities.push(entity), ..read };
        lemma_entity_values(entity);
        lemma_record_round_trip(entity_values(entity), entity_schema(tag));
        lemma_fold_field(snapshot_step(), read, tag, payload, entities_then(entities, from + 1, rest));
        lemma_entities_read(next, entities, from + 1, rest);
        assert(next.entities + entities.skip(from + 1) =~= read.entities + entities.skip(from));
    }
}

/// Reading the fields of the shards from `from` on adds them to the snapshot
/// read so far, in their order.
pub proof fn lemma_shards_read(read: SnapshotView, shards: Seq<ShardResumeView>, from: int, rest: Seq<u8>)
    requires
        0 <= from <= shards.len(),
        forall|i: int|
            from <= i < shards.len() ==> encodable(shard_values(#[trigger] shards[i]))
                && record_bytes(shard_values(shards[i])).len() <= u64::MAX,
    ensures
        fold_fields(snapshot_step(), read, shards_then(shards, from, rest)) == fold_fields(
            snapshot_step(),
            SnapshotView { shards: read.shards + shards.skip(from), ..read },
            rest,
        ),
    decreases shards.len() - from,
{
    if from == shards.len() {
        assert(read.shards + shards.skip(from) =~= read.shards);
    } else {
        let shard = shards[from];
        let payload = record_bytes(shard_values(shard));
        let next = SnapshotView { shards: read.shards.push(shard), ..read };
        lemma_shard_values(shard);
        lemma_record_round_trip(shard_values(shard), shard_schema());
        lemma_fold_field(snapshot_step(), read, TAG_SHARD, payload, shards_then(shards, from + 1, rest));
        lemma_shards_read(next, shards, from + 1, rest);
        assert(next.shards + shards.skip(from + 1) =~= read.shards + shards.skip(from));
    }
}

/// A snapshot that was written is read back as it was: the same sessions of
/// the same shards, and the same entities with the same attributes, each list
/// in its order, and the same expiry time.
pub proof fn lemma_snapshot_round_trip(snapshot: SnapshotView)
    requires
        writable(snapshot),
    ensures
        snapshot_from(snapshot_bytes(snapshot)) == Ok::<SnapshotView, SnapshotError>(snapshot),
{
    let expiry = expiry_bytes(snapshot.expires_at);
    let entities = entities_then(snapshot.entities, 0, expiry);
    let body = shards_then(snapshot.shards, 0, entities);
    let bytes = snapshot_bytes(snapshot);
    assert(bytes.skip(1) =~= body);
    let with_shards = SnapshotView { shards: snapshot.shards, ..empty_snapshot() };
    let with_entities = SnapshotView { entities: snapshot.entities, ..with_shards };
    lemma_shards_read(empty_snapshot(), snapshot.shards, 0, entities);
    assert(empty_snapshot().shards + snapshot.shards.skip(0) =~= snapshot.shards);
    lemma_entities_read(with_shards, snapshot.entities, 0, expiry);
    assert(with_shards.entities + snapshot.entities.skip(0) =~= snapshot.entities);
    if snapshot.expires_at != 0 {
        vstd::bytes::lemma_auto_spec_u64_to_from_le_bytes();
        lemma_fold_field(
            snapshot_step(),
            with_entities,
            TAG_EXPIRES,
            spec_u64_to_le_bytes(snapshot.expires_at),
            Seq::empty(),
        );
        assert(expiry + Seq::<u8>::empty() =~= expiry);
    }
}

/// Whether what was read of some bytes, if anything, has no expiry time, and
/// so has expired.
pub open spec fn read_as_expired(read: Option<SnapshotView>) -> bool {
    match read {
        Some(snapshot) => snapshot.expires_at == 0,
        None => true,
    }
}

/// The field of the expiry time, cut short, sets no expiry time.
pub proof fn lemma_cut_expiry(read: SnapshotView, expires_at: u64, cut: int)
    requires
        read.expires_at == 0,
        0 <= cut < expiry_bytes(expires_at).len(),
    ensures
        read_as_expired(fold_fields(snapshot_step(), read, expiry_bytes(expires_at).take(cut))),
{
    vstd::bytes::lemma_auto_spec_u64_to_from_le_bytes();
    let stamp = spec_u64_to_le_bytes(expires_at);
    if cut == 0 {
        assert(expiry_bytes(expires_at).take(0) =~= Seq::<u8>::empty());
    } else {
        lemma_first_of_field(TAG_EXPIRES, stamp, Seq::empty());
        assert(field_bytes(TAG_EXPIRES, stamp) + Seq::<u8>::empty() =~= field_bytes(
            TAG_EXPIRES,
            stamp,
        ));
        lemma_cut_inside_field(snapshot_step(), read, TAG_EXPIRES, stamp, Seq::empty(), cut);
    }
}

/// The fields of the entities from `from` on and of the expiry time, cut
/// short, set no expiry time.
pub proof fn lemma_cut_entities(
    read: SnapshotView,
    entities: Seq<EntityView>,
    from: int,
    expires_at: u64,
    cut: int,
)
    requires
        read.expires_at == 0,
        0 <= from <= entities.len(),
        forall|i: int|
            from <= i < entities.len() ==> encodable(entity_values(#[trigger] entities[i]))
                && record_bytes(entity_values(entities[i])).len() <= u64::MAX,
        0 <= cut < entities_then(entities, from, expiry_bytes(expires_at)).len(),
    ensures
        read_as_expired(
            fold_fields(
                snapshot_step(),
                read,
                entities_then(entities, from, expiry_bytes(expires_at)).take(cut),
            ),
        ),
    decreases entities.len() - from,
{
    let expiry = expiry_bytes(expires_at);
    if from == entities.len() {
        lemma_cut_expiry(read, expires_at, cut);
    } else {
        let entity = entities[from];
        let tag = entity_tag(entity);
        let payload = record_bytes(entity_values(entity));
        let rest = entities_then(entities, from + 1, expiry);
        lemma_first_of_field(tag, payload, rest);
        if cut == 0 {
            assert((field_bytes(tag, payload) + rest).take(0) =~= Seq::<u8>::empty());
        } else if cut < 9 + payload.len() {
            lemma_cut_inside_field(snapshot_step(), read, tag, payload, rest, cut);
        } else {
            lemma_entity_values(entity);
            lemma_record_round_trip(entity_values(entity), entity_schema(tag));
            lemma_cut_after_field(snapshot_step(), read, tag, payload, rest, cut);
            let next = SnapshotView { entities: read.entities.push(entity), ..read };
            lemma_cut_entities(next, entities, from + 1, expires_at, cut - 9 - payload.len());
        }
    }
}

/// The fields of the shards from `from` on, of the entities and of the expiry
/// time, cut short, set no expiry time.
pub proof fn lemma_cut_shards(read: SnapshotView, snapshot: SnapshotView, from: int, cut: int)
    requires
        read.expires_at == 0,
        writable(snapshot),
        0 <= from <= snapshot.shards.len(),
        0 <= cut < shards_then(
            snapshot.shards,
            from,
            entities_then(snapshot.entities, 0, expiry_bytes(snapshot.expires_at)),
        ).len(),
    ensures
        read_as_expired(
            fold_fields(
                snapshot_step(),
                read,
                shards_then(
                    snapshot.shards,
                    from,
                    entities_then(snapshot.entities, 0, expiry_bytes(snapshot.expires_at)),
                ).take(cut),
            ),
        ),
    decreases snapshot.shards.len() - from,
{
    let tail = entities_then(snapshot.entities, 0, expiry_bytes(snapshot.expires_at));
    if from == snapshot.shards.len() {
        lemma_cut_entities(read, snapshot.entities, 0, snapshot.expires_at, cut);
    } else {
        let shard = snapshot.shards[from];
        let payload = record_bytes(shard_values(shard));
        let rest = shards_then(snapshot.shards, from + 1, tail);
        lemma_first_of_field(TAG_SHARD, payload, rest);
        if cut == 0 {
            assert((field_bytes(TAG_SHARD, payload) + rest).take(0) =~= Seq::<u8>::empty());
        } else if cut < 9 + payload.len() {
            lemma_cut_inside_field(snapshot_step(), read, TAG_SHARD, payload, rest, cut);
        } else {
            lemma_shard_values(shard);
            lemma_record_round_trip(shard_values(shard), shard_schema());
            lemma_cut_after_field(snapshot_step(), read, TAG_SHARD, payload, rest, cut);
            let next = SnapshotView { shards: read.shards.push(shard), ..read };
            lemma_cut_shards(next, snapshot, from + 1, cut - 9 - payload.len());
        }
    }
}

/// A snapshot that was written only in part is never taken for a whole one:
/// bytes that are a beginning of the bytes of a snapshot, but not all of
/// them, are refused or are read as a snapshot without an expiry time, which
/// has expired at any time.
pub proof fn lemma_partial_snapshot_has_expired(snapshot: SnapshotView, cut: int)
    requires
        writable(snapshot),
        0 <= cut < snapshot_bytes(snapshot).len(),
    ensures
        match snapshot_from(snapshot_bytes(snapshot).take(cut)) {
            Ok(read) => read.expires_at == 0,
            Err(_) => true,
        },
{
    let body = shards_then(
        snapshot.shards,
        0,
        entities_then(snapshot.entities, 0, expiry_bytes(snapshot.expires_at)),
    );
    let bytes = snapshot_bytes(snapshot);
    if cut > 0 {
        assert(bytes.take(cut).skip(1) =~= body.take(cut - 1));
        lemma_cut_shards(empty_snapshot(), snapshot, 0, cut - 1);
    }
}

/// Takes the number out of the last slot.
fn take_number(values: &mut Vec<Value>) -> (number: Option<u64>)
    ensures
        match number {
            Some(number) => old(values)@.len() > 0 && old(values)@.last()@ == ValueView::Number(
                number,
            ) && final(values)@ == old(values)@.drop_last(),
            None => old(values)@.len() == 0 || !(old(values)@.last()@ is Number),
        },
{
    match values.pop() {
        Some(Value::Number(number)) => Some(number),
        _ => None,
    }
}

/// Takes the flag out of the last slot.
fn take_flag(values: &mut Vec<Value>) -> (flag: Option<bool>)
    ensures
        match flag {
            Some(flag) => old(values)@.len() > 0 && old(values)@.last()@ == ValueView::Flag(flag)
                && final(values)@ == old(values)@.drop_last(),
            None => old(values)@.len() == 0 || !(old(values)@.last()@ is Flag),
        },
{
    match values.pop() {
        Some(Value::Flag(flag)) => Some(flag),
        _ => None,
    }
}

/// Takes the text out of the last slot.
fn take_text(values: &mut Vec<Value>) -> (text: Option<String>)
    ensures
        match text {
            Some(text) => old(values)@.len() > 0 && old(values)@.last()@ == ValueView::Text(text@)
                && final(values)@ == old(values)@.drop_last(),
            None => old(values)@.len() == 0 || !(old(values)@.last()@ is Text),
        },
{
    match values.pop() {
        Some(Value::Text(text)) => Some(text),
        _ => None,
    }
}

/// Takes the optional text out of the last slot.
fn take_optional_text(values: &mut Vec<Value>) -> (text: Option<Option<String>>)
    ensures
        match text {
            Some(text) => old(values)@.len() > 0 && old(values)@.last()@
                == ValueView::OptionalText(text_view(text)) && final(values)@ == old(
                values,
            )@.drop_last(),
            None => old(values)@.len() == 0 || !(old(values)@.last()@ is OptionalText),
        },
{
    match values.pop() {
        Some(Value::OptionalText(text)) => Some(text),
        _ => None,
    }
}

/// Takes the list of identifiers out of the last slot.
fn take_ids(values: &mut Vec<Value>) -> (ids: Option<Vec<u64>>)
    ensures
        match ids {
            Some(ids) => old(values)@.len() > 0 && old(values)@.last()@ == ValueView::Ids(ids@)
                && final(values)@ == old(values)@.drop_last(),
            None => old(values)@.len() == 0 || !(old(values)@.last()@ is Ids),
        },
{
    match values.pop() {
        Some(Value::Ids(ids)) => Some(ids),
        _ => None,
    }
}

/// The slots of a shard's session.
fn make_shard_schema() -> (schema: Vec<SlotKind>)
    ensures
        schema@ == shard_schema(),
{
    let mut schema: Vec<SlotKind> = Vec::new();
    schema.push(SlotKind::Number);
    schema.push(SlotKind::Text);
    schema.push(SlotKind::Text);
    schema.push(SlotKind::Number);
    schema
}

/// The slots of the entities written under `tag`.
fn make_entity_schema(tag: u8) -> (schema: Vec<SlotKind>)
    ensures
        schema@ == entity_schema(tag),
{
    let mut schema: Vec<SlotKind> = Vec::new();
    if tag == TAG_GUILD {
        schema.push(SlotKind::Number);
        schema.push(SlotKind::Text);
        schema.push(SlotKind::Flag);
        schema.push(SlotKind::Number);
        schema.push(SlotKind::Number);
        schema.push(SlotKind::Flag);
        schema.push(SlotKind::Ids);
        schema.push(SlotKind::Ids);
        schema.push(SlotKind::Ids);
        } else if tag == TAG_ROLE {
        schema.push(SlotKind::Number);
        schema.push(SlotKind::Text);
        schema.push(SlotKind::Number);
        schema.push(SlotKind::Flag);
        schema.push(SlotKind::Number);
        schema.push(SlotKind::Number);
        schema.push(SlotKind::Flag);
        schema.push(SlotKind::Flag);
        } else {
        schema.push(SlotKind::Number);
        schema.push(SlotKind::Text);
        schema.push(SlotKind::Text);
        schema.push(SlotKind::OptionalText);
        schema.push(SlotKind::Flag);
        }
    schema
}

/// The values of the slots of a shard's session.
fn shard_to_values(shard: &ShardResume) -> (values: Vec<Value>)
    ensures
        value_views(values@) == shard_values(shard@),
{
    let mut values: Vec<Value> = Vec::new();
    values.push(Value::Number(shard.shard_id));
    values.push(Value::Text(shard.resume_endpoint.clone()));
    values.push(Value::Text(shard.session_token.clone()));
    values.push(Value::Number(shard.last_sequence));
    values
}

/// The shard's session that the slots hold.
fn shard_from_values(values: Vec<Value>) -> (shard: Option<ShardResume>)
    ensures
        match shard {
            Some(shard) => shard_of(value_views(values@)) == Some(shard@),
            None => shard_of(value_views(values@)) is None,
        },
{
    let mut values = values;
    if values.len() != 4 {
        return None;
    }
    let last_sequence = match take_number(&mut values) {
        Some(number) => number,
        None => {
            return None;
        },
    };
    let session_token = match take_text(&mut values) {
        Some(text) => text,
        None => {
            return None;
        },
    };
    let resume_endpoint = match take_text(&mut values) {
        Some(text) => text,
        None => {
            return None;
        },
    };
    let shard_id = match take_number(&mut values) {
        Some(number) => number,
        None => {
            return None;
        },
    };
    Some(ShardResume { shard_id, resume_endpoint, session_token, last_sequence })
}

/// The values of the slots of a role.
fn role_to_values(role: &CachedRole) -> (values: Vec<Value>)
    ensures
        value_views(values@) == role_values(role@),
{
    let mut values: Vec<Value> = Vec::new();
    values.push(Value::Number(role.id));
    values.push(Value::Text(role.name.clone()));
    values.push(Value::Number(role.color as u64));
    values.push(Value::Flag(role.hoisted));
    values.push(Value::Number(to_bits(role.position)));
    values.push(Value::Number(role.permissions));
    values.push(Value::Flag(role.managed));
    values.push(Value::Flag(role.mentionable));
    values
}

/// The 64 bits of a signed number, read as an unsigned one.
fn to_bits(number: i64) -> (bits: u64)
    ensures
        bits == bits_of(number),
{
    #[verifier::truncate]
    (number as u64)
}

/// The signed number that 64 bits stand for.
fn to_signed(bits: u64) -> (number: i64)
    ensures
        number == signed_of(bits),
{
    #[verifier::truncate]
    (bits as i64)
}

/// The role that the slots hold.
fn role_from_values(values: Vec<Value>) -> (role: Option<CachedRole>)
    ensures
        match role {
            Some(role) => role_of(value_views(values@)) == Some(role@),
            None => role_of(value_views(values@)) is None,
        },
{
    let mut values = values;
    if values.len() != 8 {
        return None;
    }
    let mentionable = match take_flag(&mut values) {
        Some(flag) => flag,
        None => {
            return None;
        },
    };
    let managed = match take_flag(&mut values) {
        Some(flag) => flag,
        None => {
            return None;
        },
    };
    let permissions = match take_number(&mut values) {
        Some(number) => number,
        None => {
            return None;
        },
    };
    let position = match take_number(&mut values) {
        Some(number) => to_signed(number),
        None => {
            return None;
        },
    };
    let hoisted = match take_flag(&mut values) {
        Some(flag) => flag,
        None => {
            return None;
        },
    };
    let color = match take_number(&mut values) {
        Some(number) => number,
        None => {
            return None;
        },
    };
    let name = match take_text(&mut values) {
        Some(text) => text,
        None => {
            return None;
        },
    };
    let id = match take_number(&mut values) {
        Some(number) => number,
        None => {
            return None;
        },
    };
    if color > 0xffff_ffff {
        return None;
    }
    Some(
        CachedRole {
            id,
            name,
            color: color as u32,
            hoisted,
            position,
            permissions,
            managed,
            mentionable,
        },
    )
}

/// The values of the slots of a user.
fn user_to_values(user: &CachedUser) -> (values: Vec<Value>)
    ensures
        value_views(values@) == user_values(user@),
{
    let avatar = match &user.avatar {
        Some(avatar) => Some(avatar.clone()),
        None => None,
    };
    let mut values: Vec<Value> = Vec::new();
    values.push(Value::Number(user.id));
    values.push(Value::Text(user.username.clone()));
    values.push(Value::Text(user.discriminator.clone()));
    values.push(Value::OptionalText(avatar));
    values.push(Value::Flag(user.bot));
    values
}

/// The user that the slots hold.
fn user_from_values(values: Vec<Value>) -> (user: Option<CachedUser>)
    ensures
        match user {
            Some(user) => user_of(value_views(values@)) == Some(user@),
            None => user_of(value_views(values@)) is None,
        },
{
    let mut values = values;
    if values.len() != 5 {
        return None;
    }
    let bot = match take_flag(&mut values) {
        Some(flag) => flag,
        None => {
            return None;
        },
    };
    let avatar = match take_optional_text(&mut values) {
        Some(text) => text,
        None => {
            return None;
        },
    };
    let discriminator = match take_text(&mut values) {
        Some(text) => text,
        None => {
            return None;
        },
    };
    let username = match take_text(&mut values) {
        Some(text) => text,
        None => {
            return None;
        },
    };
    let id = match take_number(&mut values) {
        Some(number) => number,
        None => {
            return None;
        },
    };
    Some(CachedUser { id, username, discriminator, avatar, bot })
}

/// The values of the slots of a guild.
fn guild_to_values(guild: &CachedGuild) -> (values: Vec<Value>)
    ensures
        value_views(values@) == guild_values(guild@),
{
    let mut values: Vec<Value> = Vec::new();
    values.push(Value::Number(guild.id));
    values.push(Value::Text(guild.name.clone()));
    values.push(Value::Flag(guild.complete));
    values.push(Value::Number(guild.loading.to_load as u64));
    values.push(Value::Number(guild.loading.loaded as u64));
    values.push(Value::Flag(guild.loading.marker_seen));
    values.push(Value::Ids(crate::entity::copy_ids(&guild.channels)));
    values.push(Value::Ids(crate::entity::copy_ids(&guild.roles)));
    values.push(Value::Ids(crate::entity::copy_ids(&guild.members)));
    values
}

/// The guild that the slots hold.
fn guild_from_values(values: Vec<Value>) -> (guild: Option<CachedGuild>)
    ensures
        match guild {
            Some(guild) => guild_of(value_views(values@)) == Some(guild@),
            None => guild_of(value_views(values@)) is None,
        },
{
    let mut values = values;
    if values.len() != 9 {
        return None;
    }
    let members = match take_ids(&mut values) {
        Some(ids) => ids,
        None => {
            return None;
        },
    };
    let roles = match take_ids(&mut values) {
        Some(ids) => ids,
        None => {
            return None;
        },
    };
    let channels = match take_ids(&mut values) {
        Some(ids) => ids,
        None => {
            return None;
        },
    };
    let marker_seen = match take_flag(&mut values) {
        Some(flag) => flag,
        None => {
            return None;
        },
    };
    let loaded = match take_number(&mut values) {
        Some(number) => number,
        None => {
            return None;
        },
    };
    let to_load = match take_number(&mut values) {
        Some(number) => number,
        None => {
            return None;
        },
    };
    let complete = match take_flag(&mut values) {
        Some(flag) => flag,
        None => {
            return None;
        },
    };
    let name = match take_text(&mut values) {
        Some(text) => text,
        None => {
            return None;
        },
    };
    let id = match take_number(&mut values) {
        Some(number) => number,
        None => {
            return None;
        },
    };
    if to_load > 0xffff_ffff || loaded > 0xffff_ffff {
        return None;
    }
    Some(
        CachedGuild {
            id,
            name,
            complete,
            loading: LoadingState { to_load: to_load as u32, loaded: loaded as u32, marker_seen },
            channels,
            roles,
            members,
        },
    )
}

/// The tag and the values of the slots of an entity.
fn entity_to_values(entity: &Entity) -> (tagged: (u8, Vec<Value>))
    ensures
        tagged.0 == entity_tag(entity@),
        value_views(tagged.1@) == entity_values(entity@),
{
    match entity {
        Entity::Guild(guild) => (TAG_GUILD, guild_to_values(guild)),
        Entity::Role(role) => (TAG_ROLE, role_to_values(role)),
        Entity::User(user) => (TAG_USER, user_to_values(user)),
    }
}

/// The entity that `payload` holds, read under `tag`.
fn read_entity(tag: u8, payload: &[u8]) -> (entity: Option<Entity>)
    requires
        tag == TAG_GUILD || tag == TAG_ROLE || tag == TAG_USER,
    ensures
        match entity {
            Some(entity) => entity_from(tag, payload@) == Some(entity@),
            None => entity_from(tag, payload@) is None,
        },
{
    let schema = make_entity_schema(tag);
    let values = match decode_record(&schema, payload) {
        Some(values) => values,
        None => {
            return None;
        },
    };
    if tag == TAG_GUILD {
        match guild_from_values(values) {
            Some(guild) => Some(Entity::Guild(guild)),
            None => None,
        }
    } else if tag == TAG_ROLE {
        match role_from_values(values) {
            Some(role) => Some(Entity::Role(role)),
            None => None,
        }
    } else {
        match user_from_values(values) {
            Some(user) => Some(Entity::User(user)),
            None => None,
        }
    }
}

/// The shard's session that `payload` holds.
fn read_shard(payload: &[u8]) -> (shard: Option<ShardResume>)
    ensures
        match shard {
            Some(shard) => shard_from(payload@) == Some(shard@),
            None => shard_from(payload@) is None,
        },
{
    let schema = make_shard_schema();
    match decode_record(&schema, payload) {
        Some(values) => shard_from_values(values),
        None => None,
    }
}

impl ColdResumeSnapshot {
    /// Writes the snapshot as bytes.
    pub fn serialize(&self) -> (bytes: Vec<u8>)
        ensures
            bytes@ == snapshot_bytes(self@),
            writable(self@),
    {
        let ghost shards = self@.shards;
        let ghost entities = self@.entities;
        let ghost expiry = expiry_bytes(self.expires_at);
        let ghost tail = entities_then(entities, 0, expiry);
        let mut out: Vec<u8> = Vec::new();
        out.push(FORMAT_VERSION);
        assert(out@ + shards_then(shards, 0, tail) =~= snapshot_bytes(self@));
        let mut i: usize = 0;
        while i < self.shards.len()
            invariant
                i <= self.shards@.len(),
                shards == self@.shards,
                out@ + shards_then(shards, i as int, tail) == snapshot_bytes(self@),
                forall|j: int|
                    0 <= j < i ==> encodable(shard_values(#[trigger] shards[j])) && record_bytes(
                        shard_values(shards[j]),
                    ).len() <= u64::MAX,
            decreases self.shards.len() - i,
        {
            let ghost before = out@;
            let values = shard_to_values(&self.shards[i]);
            let mut record: Vec<u8> = Vec::new();
            encode_record(&values, &mut record);
            write_field(&mut out, TAG_SHARD, record.as_slice());
            proof {
                assert(shards[i as int] == self.shards@[i as int]@);
                assert(record@ =~= record_bytes(shard_values(shards[i as int])));
                assert((before + field_bytes(TAG_SHARD, record@)) + shards_then(
                    shards,
                    i + 1,
                    tail,
                ) =~= before + shards_then(shards, i as int, tail));
            }
            i = i + 1;
        }
        let mut k: usize = 0;
        while k < self.entities.len()
            invariant
                k <= self.entities@.len(),
                entities == self@.entities,
                out@ + entities_then(entities, k as int, expiry) == snapshot_bytes(self@),
                forall|j: int|
                    0 <= j < k ==> encodable(entity_values(#[trigger] entities[j]))
                        && record_bytes(entity_values(entities[j])).len() <= u64::MAX,
            decreases self.entities.len() - k,
        {
            let ghost before = out@;
            let (tag, values) = entity_to_values(&self.entities[k]);
            let mut record: Vec<u8> = Vec::new();
            encode_record(&values, &mut record);
            write_field(&mut out, tag, record.as_slice());
            proof {
                assert(entities[k as int] == self.entities@[k as int]@);
                assert(record@ =~= record_bytes(entity_values(entities[k as int])));
                assert((before + field_bytes(tag, record@)) + entities_then(
                    entities,
                    k + 1,
                    expiry,
                ) =~= before + entities_then(entities, k as int, expiry));
            }
            k = k + 1;
        }
        if self.expires_at != 0 {
            let stamp = u64_to_le_bytes(self.expires_at);
            write_field(&mut out, TAG_EXPIRES, stamp.as_slice());
        }
        assert(out@ =~= snapshot_bytes(self@));
        out
    }

    /// Reads a snapshot from bytes.
    ///
    /// The bytes are refused where there are none, where the first byte is not
    /// the version that this library reads, and where what follows is no run
    /// of fields or a field does not hold what its tag says. A field with a
    /// tag that this library does not know is passed over.
    pub fn deserialize(bytes: &[u8]) -> (read: Result<ColdResumeSnapshot, SnapshotError>)
        ensures
            match read {
                Ok(snapshot) => snapshot_from(bytes@) == Ok::<SnapshotView, SnapshotError>(
                    snapshot@,
                ),
                Err(error) => snapshot_from(bytes@) == Err::<SnapshotView, SnapshotError>(error),
            },
    {
        if bytes.len() == 0 {
            return Err(SnapshotError::Empty);
        }
        if bytes[0] != FORMAT_VERSION {
            return Err(SnapshotError::UnknownVersion);
        }
        let mut snapshot = ColdResumeSnapshot {
            shards: Vec::new(),
            entities: Vec::new(),
            expires_at: 0,
        };
        assert(snapshot@.shards =~= Seq::<ShardResumeView>::empty());
        assert(snapshot@.entities =~= Seq::<EntityView>::empty());
        let mut pos: usize = 1;
        while pos < bytes.len()
            invariant
                1 <= pos <= bytes@.len(),
                bytes@[0] == FORMAT_VERSION,
                fold_fields(snapshot_step(), empty_snapshot(), bytes@.skip(1)) == fold_fields(
                    snapshot_step(),
                    snapshot@,
                    bytes@.skip(pos as int),
                ),
            decreases bytes.len() - pos,
        {
            let ghost before = snapshot@;
            let (tag, start, end) = match read_field(bytes, pos) {
                Some(field) => field,
                None => {
                    return Err(SnapshotError::Malformed);
                },
            };
            let payload = slice_subrange(bytes, start, end);
            if tag == TAG_SHARD {
                match read_shard(payload) {
                    Some(shard) => {
                        snapshot.shards.push(shard);
                        assert(snapshot@.shards =~= before.shards.push(shard@));
                        assert(snapshot@.entities =~= before.entities);
                    },
                    None => {
                        return Err(SnapshotError::Malformed);
                    },
                }
            } else if tag == TAG_GUILD || tag == TAG_ROLE || tag == TAG_USER {
                match read_entity(tag, payload) {
                    Some(entity) => {
                        snapshot.entities.push(entity);
                        assert(snapshot@.entities =~= before.entities.push(entity@));
                        assert(snapshot@.shards =~= before.shards);
                    },
                    None => {
                        return Err(SnapshotError::Malformed);
                    },
                }
            } else if tag == TAG_EXPIRES {
                if payload.len() != 8 {
                    return Err(SnapshotError::Malformed);
                }
                snapshot.expires_at = u64_from_le_bytes(payload);
                assert(snapshot@.shards =~= before.shards);
                assert(snapshot@.entities =~= before.entities);
            }
            pos = end;
        }
        assert(bytes@.skip(bytes@.len() as int) =~= Seq::<u8>::empty());
        Ok(snapshot)
    }
}

} // verus!
