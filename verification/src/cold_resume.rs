//! Cold resume: what is written when a process stops, and how its successor
//! starts from it.
//!
//! A successor that finds a snapshot which it can read and which has not
//! expired takes up the sessions of its shards and fills its cache from the
//! snapshot. In every other case it starts cold: each shard identifies anew,
//! and the cache is empty. That is never an error.

use crate::cache::{lemma_restore_of_listing, lists_exactly, upsert_all, EntityCache};
use crate::context::SchemeInfo;
use crate::entity::EntityView;
use crate::snapshot::{
    lemma_partial_snapshot_has_expired, lemma_snapshot_round_trip, snapshot_bytes, snapshot_from,
    writable, ColdResumeSnapshot, ShardResume, ShardResumeView, SnapshotError, SnapshotView,
};
use vstd::prelude::*;

verus! {

/// How a shard is to start.
#[derive(Debug, PartialEq, Eq)]
pub enum ShardStart {
    /// Identify anew.
    Identify { shard_id: u64 },
    /// Take up the session again.
    Resume(ShardResume),
}

/// What a shard's start is, with its texts as sequences of characters.
pub enum ShardStartView {
    Identify { shard_id: u64 },
    Resume(ShardResumeView),
}

impl View for ShardStart {
    type V = ShardStartView;

    open spec fn view(&self) -> ShardStartView {
        match self {
            ShardStart::Identify { shard_id } => ShardStartView::Identify { shard_id: *shard_id },
            ShardStart::Resume(session) => ShardStartView::Resume(session@),
        }
    }
}

/// How the attempt to resume ended.
#[derive(Clone, Copy, Debug, PartialEq, Eq, Structural)]
pub enum ResumeOutcome {
    /// No snapshot was stored.
    NoSnapshot,
    /// The snapshot could not be read.
    Unreadable(SnapshotError),
    /// The snapshot was read but has expired.
    Expired,
    /// The snapshot is used.
    Resumed,
}

/// How a process is to start: its cache, the start of each of its shards in
/// the order of their identifiers, and how the attempt to resume ended.
pub struct ResumePlan {
    pub cache: EntityCache,
    pub starts: Vec<ShardStart>,
    pub outcome: ResumeOutcome,
}

/// How the attempt to resume from `stored` ends at time `now`.
pub open spec fn outcome_of(stored: Option<Seq<u8>>, now: u64) -> ResumeOutcome {
    match stored {
        None => ResumeOutcome::NoSnapshot,
        Some(bytes) => match snapshot_from(bytes) {
            Err(error) => ResumeOutcome::Unreadable(error),
            Ok(snapshot) => if now >= snapshot.expires_at {
                ResumeOutcome::Expired
            } else {
                ResumeOutcome::Resumed
            },
        },
    }
}

/// The session that a snapshot holds for shard `shard_id`: the last one
/// written for it.
pub open spec fn session_of(shards: Seq<ShardResumeView>, shard_id: u64) -> Option<ShardResumeView>
    decreases shards.len(),
{
    if shards.len() == 0 {
        None
    } else if shards.last().shard_id == shard_id {
        Some(shards.last())
    } else {
        session_of(shards.drop_last(), shard_id)
    }
}

/// How shard `shard_id` starts from the sessions of a snapshot that is used.
pub open spec fn start_of(shards: Seq<ShardResumeView>, shard_id: u64) -> ShardStartView {
    match session_of(shards, shard_id) {
        Some(session) => ShardStartView::Resume(session),
        None => ShardStartView::Identify { shard_id },
    }
}

/// The bytes of a stored snapshot, if one was stored.
pub open spec fn stored_bytes(stored: Option<&[u8]>) -> Option<Seq<u8>> {
    match stored {
        Some(bytes) => Some(bytes@),
        None => None,
    }
}

/// The time at which a snapshot taken at `now` expires, where it may be used
/// for `ttl` seconds: the sum, stopping at `u64::MAX`.
pub open spec fn expiry_of(now: u64, ttl: u64) -> u64 {
    if now + ttl <= u64::MAX {
        (now + ttl) as u64
    } else {
        u64::MAX
    }
}

/// Takes a snapshot of the cache and of the shards' sessions at time `now`,
/// to be used for `ttl` seconds. It holds every entity of the cache once.
pub fn capture(cache: &EntityCache, shards: Vec<ShardResume>, now: u64, ttl: u64) -> (snapshot:
    ColdResumeSnapshot)
    requires
        cache.wf(),
    ensures
        lists_exactly(snapshot@.entities, cache@),
        snapshot.shards == shards,
        snapshot.expires_at == expiry_of(now, ttl),
{
    let expires_at = if ttl <= u64::MAX - now {
        now + ttl
    } else {
        u64::MAX
    };
    ColdResumeSnapshot { shards, entities: cache.entities(), expires_at }
}

/// The session that `shards` hold for shard `shard_id`.
fn find_session(shards: &Vec<ShardResume>, shard_id: u64) -> (start: ShardStart)
    ensures
        start@ == start_of(crate::snapshot::shard_views(shards@), shard_id),
{
    let ghost views = crate::snapshot::shard_views(shards@);
    let mut start = ShardStart::Identify { shard_id };
    let mut i: usize = 0;
    assert(views.take(0) =~= Seq::<ShardResumeView>::empty());
    while i < shards.len()
        invariant
            i <= shards@.len(),
            views == crate::snapshot::shard_views(shards@),
            start@ == start_of(views.take(i as int), shard_id),
        decreases shards.len() - i,
    {
        proof {
            assert(views.take(i + 1).drop_last() =~= views.take(i as int));
            assert(views.take(i + 1).last() == shards@[i as int]@);
        }
        if shards[i].shard_id == shard_id {
            start = ShardStart::Resume(shards[i].clone());
        }
        i = i + 1;
    }
    assert(views.take(shards@.len() as int) =~= views);
    start
}

/// Decides how a process starts at time `now`, where `stored` is the snapshot
/// that was found under the cluster's name, if any.
///
/// The snapshot is used where it can be read and has not expired: the cache
/// holds its entities, and each shard of the cluster takes up the session that
/// the snapshot holds for it, or identifies anew where it holds none. In
/// every other case the cache is empty and every shard identifies anew.
pub fn plan_resume(stored: Option<&[u8]>, now: u64, scheme: &SchemeInfo) -> (plan: ResumePlan)
    requires
        scheme.cluster_id * scheme.shards_per_cluster + scheme.shards_per_cluster <= u64::MAX,
    ensures
        plan.cache.wf(),
        plan.outcome == outcome_of(stored_bytes(stored), now),
        plan.starts@.len() == scheme.shards_per_cluster,
        plan.outcome == ResumeOutcome::Resumed ==> {
            let snapshot = snapshot_from(stored.unwrap()@).unwrap();
            &&& plan.cache@ == upsert_all(Map::empty(), snapshot.entities)
            &&& forall|i: int|
                0 <= i < plan.starts@.len() ==> (#[trigger] plan.starts@[i])@ == start_of(
                    snapshot.shards,
                    (scheme.cluster_id * scheme.shards_per_cluster + i) as u64,
                )
        },
        plan.outcome != ResumeOutcome::Resumed ==> {
            &&& plan.cache@ == Map::<(u8, u64), EntityView>::empty()
            &&& forall|i: int|
                0 <= i < plan.starts@.len() ==> (#[trigger] plan.starts@[i])@
                    == (ShardStartView::Identify {
                    shard_id: (scheme.cluster_id * scheme.shards_per_cluster + i) as u64,
                })
        },
{
    assert(scheme.cluster_id * scheme.shards_per_cluster >= 0) by (nonlinear_arith);
    let first: u64 = scheme.cluster_id * scheme.shards_per_cluster;
    let count: u64 = scheme.shards_per_cluster;
    let (snapshot, outcome) = match stored {
        None => (None, ResumeOutcome::NoSnapshot),
        Some(bytes) => match ColdResumeSnapshot::deserialize(bytes) {
            Err(error) => (None, ResumeOutcome::Unreadable(error)),
            Ok(snapshot) => if now >= snapshot.expires_at {
                (None, ResumeOutcome::Expired)
            } else {
                (Some(snapshot), ResumeOutcome::Resumed)
            },
        },
    };
    let mut starts: Vec<ShardStart> = Vec::new();
    let mut i: u64 = 0;
    match snapshot {
        Some(snapshot) => {
            while i < count
                invariant
                    i <= count,
                    first + count <= u64::MAX,
                    starts@.len() == i,
                    forall|j: int|
                        0 <= j < i ==> (#[trigger] starts@[j])@ == start_of(
                            snapshot@.shards,
                            (first + j) as u64,
                        ),
                decreases count - i,
            {
                starts.push(find_session(&snapshot.shards, first + i));
                i = i + 1;
            }
            let cache = EntityCache::restore(snapshot.entities);
            ResumePlan { cache, starts, outcome }
        },
        None => {
            while i < count
                invariant
                    i <= count,
                    first + count <= u64::MAX,
                    starts@.len() == i,
                    forall|j: int|
                        0 <= j < i ==> (#[trigger] starts@[j])@ == (ShardStartView::Identify {
                            shard_id: (first + j) as u64,
                        }),
                decreases count - i,
            {
                starts.push(ShardStart::Identify { shard_id: first + i });
                i = i + 1;
            }
            ResumePlan { cache: EntityCache::new(), starts, outcome }
        },
    }
}

/// The snapshot of a cache brings the cache back: written and read again, it
/// holds the same sessions and the same expiry time, and the entities it
/// holds, upserted into an empty cache, give a cache with the same
/// identifiers and the same attributes under each.
pub proof fn lemma_cache_survives_snapshot(entries: Map<(u8, u64), EntityView>, snapshot: SnapshotView)
    requires
        lists_exactly(snapshot.entities, entries),
        writable(snapshot),
    ensures
        snapshot_from(snapshot_bytes(snapshot)) == Ok::<SnapshotView, SnapshotError>(snapshot),
        upsert_all(Map::empty(), snapshot_from(snapshot_bytes(snapshot)).unwrap().entities)
            == entries,
        snapshot_from(snapshot_bytes(snapshot)).unwrap().shards == snapshot.shards,
{
    lemma_snapshot_round_trip(snapshot);
    lemma_restore_of_listing(snapshot.entities, entries);
}

/// A process never resumes from a snapshot that was stored only in part:
/// whatever the time, it starts cold.
pub proof fn lemma_partial_snapshot_is_not_resumed(snapshot: SnapshotView, cut: int, now: u64)
    requires
        writable(snapshot),
        0 <= cut < snapshot_bytes(snapshot).len(),
    ensures
        outcome_of(Some(snapshot_bytes(snapshot).take(cut)), now) != ResumeOutcome::Resumed,
{
    lemma_partial_snapshot_has_expired(snapshot, cut);
}

/// A process resumes from a snapshot that was stored whole and has not
/// expired.
pub proof fn lemma_whole_snapshot_is_resumed(snapshot: SnapshotView, now: u64)
    requires
        writable(snapshot),
        now < snapshot.expires_at,
    ensures
        outcome_of(Some(snapshot_bytes(snapshot)), now) == ResumeOutcome::Resumed,
{
    lemma_snapshot_round_trip(snapshot);
}

} // verus!
