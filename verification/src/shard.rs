//! Per-shard lifecycle states and the table that tracks them for one cluster.
//!
//! A cluster owns a contiguous range of shard ids. The table holds exactly one
//! state and one counter of outstanding arrivals for each of them, and keeps a
//! gauge of how many shards are `Ready`.

use std::collections::HashMap;
use vstd::prelude::*;
use vstd::set_lib::lemma_len_subset;

verus! {

broadcast use vstd::std_specs::hash::group_hash_axioms;

/// Where a shard stands in its connection lifecycle.
#[derive(Clone, Copy, Debug, PartialEq, Eq, Structural)]
pub enum ShardState {
    PendingCreation,
    Connecting,
    Identifying,
    Connected,
    Ready,
    Resuming,
    Reconnecting,
    Disconnected,
}

impl ShardState {
    /// A state that monitoring treats as settled: fully up, or fully stopped.
    pub open spec fn spec_is_steady(self) -> bool {
        self == ShardState::Ready || self == ShardState::Disconnected
    }

    #[verifier::when_used_as_spec(spec_is_steady)]
    pub fn is_steady(self) -> (steady: bool)
        ensures
            steady == self.spec_is_steady(),
    {
        match self {
            ShardState::Ready | ShardState::Disconnected => true,
            _ => false,
        }
    }
}

/// The shards of `states` that are `Ready`.
pub open spec fn ready_shards(states: Map<u64, ShardState>) -> Set<u64> {
    Set::new(|id: u64| states.contains_key(id) && states[id] == ShardState::Ready)
}

/// Writing one state changes the set of ready shards by at most that shard.
pub proof fn lemma_ready_shards_insert(states: Map<u64, ShardState>, id: u64, state: ShardState)
    ensures
        state == ShardState::Ready ==> ready_shards(states.insert(id, state)) == ready_shards(
            states,
        ).insert(id),
        state != ShardState::Ready ==> ready_shards(states.insert(id, state)) == ready_shards(
            states,
        ).remove(id),
{
    if state == ShardState::Ready {
        assert(ready_shards(states.insert(id, state)) =~= ready_shards(states).insert(id));
    } else {
        assert(ready_shards(states.insert(id, state)) =~= ready_shards(states).remove(id));
    }
}

/// The ready shards of a finite table are finitely many, no more than the table holds.
pub proof fn lemma_ready_shards_bounded(states: Map<u64, ShardState>)
    requires
        states.dom().finite(),
    ensures
        ready_shards(states).finite(),
        ready_shards(states).len() <= states.dom().len(),
{
    assert(ready_shards(states).subset_of(states.dom()));
    lemma_len_subset(ready_shards(states), states.dom());
}

/// The lifecycle state and the outstanding-arrival counter of every shard that
/// one cluster owns.
pub struct ShardTable {
    first: u64,
    count: u64,
    states: HashMap<u64, ShardState>,
    missing: HashMap<u64, u64>,
    ready: u64,
}

impl ShardTable {
    /// The state of each owned shard.
    pub closed spec fn states(&self) -> Map<u64, ShardState> {
        self.states@
    }

    /// The number of expected and not yet observed arrivals of each owned shard.
    pub closed spec fn missing(&self) -> Map<u64, u64> {
        self.missing@
    }

    /// The lowest shard id of the cluster.
    pub closed spec fn first(&self) -> u64 {
        self.first
    }

    /// How many shards the cluster owns.
    pub closed spec fn count(&self) -> u64 {
        self.count
    }

    /// The gauge of ready shards as it is stored.
    pub closed spec fn ready_gauge(&self) -> u64 {
        self.ready
    }

    /// Whether `shard_id` belongs to this cluster.
    pub open spec fn owns(&self, shard_id: u64) -> bool {
        self.first() <= shard_id < self.first() + self.count()
    }

    /// The table holds an entry for every owned shard and for no other, and the
    /// gauge counts the ready ones.
    pub open spec fn wf(&self) -> bool {
        &&& self.first() + self.count() <= u64::MAX
        &&& forall|id: u64| #[trigger] self.states().contains_key(id) <==> self.owns(id)
        &&& forall|id: u64| #[trigger] self.missing().contains_key(id) <==> self.owns(id)
        &&& self.ready_gauge() == ready_shards(self.states()).len()
    }

    /// Registers every shard of cluster `cluster_id` as `PendingCreation`, with
    /// nothing outstanding.
    pub fn new(cluster_id: u64, shards_per_cluster: u64) -> (table: Self)
        requires
            cluster_id * shards_per_cluster + shards_per_cluster <= u64::MAX,
        ensures
            table.wf(),
            table.first() == cluster_id * shards_per_cluster,
            table.count() == shards_per_cluster,
            forall|id: u64| #[trigger]
                table.owns(id) ==> table.states()[id] == ShardState::PendingCreation
                    && table.missing()[id] == 0,
            table.ready_gauge() == 0,
    {
        assert(cluster_id * shards_per_cluster >= 0) by (nonlinear_arith);
        let first: u64 = cluster_id * shards_per_cluster;
        let end: u64 = first + shards_per_cluster;
        let mut states: HashMap<u64, ShardState> = HashMap::new();
        let mut missing: HashMap<u64, u64> = HashMap::new();
        let mut i: u64 = first;
        while i < end
            invariant
                first <= i <= end,
                forall|id: u64| #[trigger] states@.contains_key(id) <==> first <= id < i,
                forall|id: u64| #[trigger] missing@.contains_key(id) <==> first <= id < i,
                forall|id: u64|
                    first <= id < i ==> #[trigger] states@[id] == ShardState::PendingCreation,
                forall|id: u64| first <= id < i ==> #[trigger] missing@[id] == 0,
            decreases end - i,
        {
            states.insert(i, ShardState::PendingCreation);
            missing.insert(i, 0);
            i = i + 1;
        }
        proof {
            assert(ready_shards(states@) =~= Set::<u64>::empty());
        }
        ShardTable { first, count: shards_per_cluster, states, missing, ready: 0 }
    }

    /// Whether `shard_id` belongs to this cluster.
    pub fn is_owned(&self, shard_id: u64) -> (owned: bool)
        requires
            self.wf(),
        ensures
            owned == self.owns(shard_id),
    {
        self.first <= shard_id && shard_id - self.first < self.count
    }

    /// Writes the state of an owned shard and returns the state it had. A shard
    /// that the cluster does not own is left out of the table: `None`.
    pub fn set_state(&mut self, shard_id: u64, state: ShardState) -> (previous: Option<ShardState>)
        requires
            old(self).wf(),
        ensures
            final(self).wf(),
            final(self).first() == old(self).first(),
            final(self).count() == old(self).count(),
            final(self).missing() == old(self).missing(),
            old(self).owns(shard_id) ==> previous == Some(old(self).states()[shard_id])
                && final(self).states() == old(self).states().insert(shard_id, state),
            !old(self).owns(shard_id) ==> previous is None && final(self).states() == old(
                self,
            ).states() && final(self).ready_gauge() == old(self).ready_gauge(),
            old(self).owns(shard_id) ==> final(self).ready_gauge() == old(self).ready_gauge() + (
            if state == ShardState::Ready {
                1int
            } else {
                0int
            }) - (if old(self).states()[shard_id] == ShardState::Ready {
                1int
            } else {
                0int
            }),
    {
        if !self.is_owned(shard_id) {
            return None;
        }
        proof {
            lemma_ready_shards_insert(self.states@, shard_id, state);
            lemma_ready_shards_bounded(self.states@);
            lemma_ready_shards_bounded(self.states@.insert(shard_id, state));
            assert(self.states@.contains_key(shard_id));
            assert(self.states@.insert(shard_id, state).dom() =~= self.states@.dom());
        }
        let was = self.states.insert(shard_id, state);
        let was_ready = match was {
            Some(ShardState::Ready) => true,
            _ => false,
        };
        let is_ready = match state {
            ShardState::Ready => true,
            _ => false,
        };
        if was_ready && !is_ready {
            self.ready = self.ready - 1;
        } else if !was_ready && is_ready {
            let held = self.states.len();
            assert(self.ready < held);
            self.ready = self.ready + 1;
        }
        assert forall|id: u64| #[trigger] self.states@.contains_key(id) <==> self.owns(id) by {
            assert(old(self).states().contains_key(id) <==> old(self).owns(id));
        }
        assert forall|id: u64| #[trigger] self.missing@.contains_key(id) <==> self.owns(id) by {
            assert(old(self).missing().contains_key(id) <==> old(self).owns(id));
        }
        was
    }

    /// The state of an owned shard; `None` for a shard the cluster does not own.
    pub fn get_state(&self, shard_id: u64) -> (state: Option<ShardState>)
        requires
            self.wf(),
        ensures
            state == (if self.owns(shard_id) {
                Some(self.states()[shard_id])
            } else {
                None
            }),
    {
        assert(self.states().contains_key(shard_id) <==> self.owns(shard_id));
        match self.states.get(&shard_id) {
            Some(state) => Some(*state),
            None => None,
        }
    }

    /// How many owned shards are `Ready`.
    pub fn ready_count(&self) -> (ready: u64)
        requires
            self.wf(),
        ensures
            ready == ready_shards(self.states()).len(),
    {
        self.ready
    }

    /// The outstanding arrivals of an owned shard; `None` for any other shard.
    pub fn missing_for(&self, shard_id: u64) -> (missing: Option<u64>)
        requires
            self.wf(),
        ensures
            missing == (if self.owns(shard_id) {
                Some(self.missing()[shard_id])
            } else {
                None
            }),
    {
        assert(self.missing().contains_key(shard_id) <==> self.owns(shard_id));
        match self.missing.get(&shard_id) {
            Some(missing) => Some(*missing),
            None => None,
        }
    }

    /// Adds `arrivals` expected arrivals to an owned shard's counter, which
    /// stops at `u64::MAX`. Returns the new count; `None`, and no change, for a
    /// shard the cluster does not own.
    pub fn expect_arrivals(&mut self, shard_id: u64, arrivals: u64) -> (missing: Option<u64>)
        requires
            old(self).wf(),
        ensures
            final(self).wf(),
            final(self).first() == old(self).first(),
            final(self).count() == old(self).count(),
            final(self).states() == old(self).states(),
            final(self).ready_gauge() == old(self).ready_gauge(),
            old(self).owns(shard_id) ==> missing == Some(
                saturating_sum(old(self).missing()[shard_id], arrivals),
            ) && final(self).missing() == old(self).missing().insert(
                shard_id,
                saturating_sum(old(self).missing()[shard_id], arrivals),
            ),
            !old(self).owns(shard_id) ==> missing is None && final(self).missing() == old(
                self,
            ).missing(),
    {
        let current = match self.missing.get(&shard_id) {
            Some(current) => *current,
            None => {
                return None;
            },
        };
        let next = if arrivals <= u64::MAX - current {
            current + arrivals
        } else {
            u64::MAX
        };
        self.missing.insert(shard_id, next);
        assert forall|id: u64| #[trigger] self.missing@.contains_key(id) <==> self.owns(id) by {
            assert(old(self).missing().contains_key(id) <==> old(self).owns(id));
        }
        Some(next)
    }

    /// Takes `arrivals` observed arrivals off an owned shard's counter, which
    /// stops at zero. Returns the new count; `None`, and no change, for a shard
    /// the cluster does not own.
    pub fn record_arrivals(&mut self, shard_id: u64, arrivals: u64) -> (missing: Option<u64>)
        requires
            old(self).wf(),
        ensures
            final(self).wf(),
            final(self).first() == old(self).first(),
            final(self).count() == old(self).count(),
            final(self).states() == old(self).states(),
            final(self).ready_gauge() == old(self).ready_gauge(),
            old(self).owns(shard_id) ==> missing == Some(
                saturating_difference(old(self).missing()[shard_id], arrivals),
            ) && final(self).missing() == old(self).missing().insert(
                shard_id,
                saturating_difference(old(self).missing()[shard_id], arrivals),
            ),
            !old(self).owns(shard_id) ==> missing is None && final(self).missing() == old(
                self,
            ).missing(),
    {
        let current = match self.missing.get(&shard_id) {
            Some(current) => *current,
            None => {
                return None;
            },
        };
        let next = if arrivals <= current {
            current - arrivals
        } else {
            0
        };
        self.missing.insert(shard_id, next);
        assert forall|id: u64| #[trigger] self.missing@.contains_key(id) <==> self.owns(id) by {
            assert(old(self).missing().contains_key(id) <==> old(self).owns(id));
        }
        Some(next)
    }
}

/// `a + b`, stopping at `u64::MAX`.
pub open spec fn saturating_sum(a: u64, b: u64) -> u64 {
    if a + b <= u64::MAX {
        (a + b) as u64
    } else {
        u64::MAX
    }
}

/// `a - b`, stopping at zero.
pub open spec fn saturating_difference(a: u64, b: u64) -> u64 {
    if b <= a {
        (a - b) as u64
    } else {
        0
    }
}

} // verus!
