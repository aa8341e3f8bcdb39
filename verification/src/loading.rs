//! Progress of a guild's initial load: how many arrivals are expected, how
//! many were observed, and whether the end of the initial snapshot was seen.

use vstd::prelude::*;

verus! {

/// The load counters of one guild during one availability period.
///
/// A load is done once the end-of-snapshot marker was seen and nothing that
/// was announced is still outstanding. Where no total was announced, nothing is
/// outstanding, so the marker alone ends the load.
#[derive(Clone, Copy, Debug, PartialEq, Eq, Structural)]
pub struct LoadingState {
    /// How many arrivals were announced.
    pub to_load: u32,
    /// How many arrivals were observed.
    pub loaded: u32,
    /// Whether the end of the initial snapshot was seen.
    pub marker_seen: bool,
}

/// One batch of arrivals: how many entities it brought, and whether it closes
/// the initial snapshot.
#[derive(Clone, Copy, Debug, PartialEq, Eq, Structural)]
pub struct Arrival {
    pub count: u32,
    pub last: bool,
}

impl LoadingState {
    /// How many announced arrivals are still outstanding.
    pub open spec fn spec_missing(&self) -> u32 {
        if self.loaded <= self.to_load {
            (self.to_load - self.loaded) as u32
        } else {
            0
        }
    }

    /// The marker was seen and nothing is outstanding.
    pub open spec fn spec_is_done(&self) -> bool {
        self.marker_seen && self.spec_missing() == 0
    }

    /// The state after `arrivals` more arrivals were announced.
    pub open spec fn spec_expect(self, arrivals: u32) -> LoadingState {
        LoadingState {
            to_load: if self.to_load + arrivals <= u32::MAX {
                (self.to_load + arrivals) as u32
            } else {
                u32::MAX
            },
            ..self
        }
    }

    /// The state after one batch was observed.
    pub open spec fn spec_record(self, arrival: Arrival) -> LoadingState {
        LoadingState {
            to_load: self.to_load,
            loaded: if self.loaded + arrival.count <= u32::MAX {
                (self.loaded + arrival.count) as u32
            } else {
                u32::MAX
            },
            marker_seen: self.marker_seen || arrival.last,
        }
    }

    /// The start of a load that announces `to_load` arrivals; zero where the
    /// total is not known.
    pub fn new(to_load: u32) -> (state: Self)
        ensures
            state == (LoadingState { to_load, loaded: 0, marker_seen: false }),
    {
        LoadingState { to_load, loaded: 0, marker_seen: false }
    }

    /// Announces `arrivals` more arrivals; the total stops at `u32::MAX`.
    pub fn expect(&mut self, arrivals: u32)
        ensures
            *final(self) == old(self).spec_expect(arrivals),
    {
        self.to_load = if arrivals <= u32::MAX - self.to_load {
            self.to_load + arrivals
        } else {
            u32::MAX
        };
    }

    /// Records one observed batch; the count stops at `u32::MAX`.
    pub fn record(&mut self, arrival: Arrival)
        ensures
            *final(self) == old(self).spec_record(arrival),
    {
        self.loaded = if arrival.count <= u32::MAX - self.loaded {
            self.loaded + arrival.count
        } else {
            u32::MAX
        };
        self.marker_seen = self.marker_seen || arrival.last;
    }

    /// How many announced arrivals are still outstanding.
    #[verifier::when_used_as_spec(spec_missing)]
    pub fn missing(&self) -> (missing: u32)
        ensures
            missing == self.spec_missing(),
    {
        if self.loaded <= self.to_load {
            self.to_load - self.loaded
        } else {
            0
        }
    }

    /// Whether the marker was seen and nothing is outstanding.
    #[verifier::when_used_as_spec(spec_is_done)]
    pub fn is_done(&self) -> (done: bool)
        ensures
            done == self.spec_is_done(),
    {
        self.marker_seen && self.loaded >= self.to_load
    }
}

/// The state that `arrivals` leave behind, taken in order.
pub open spec fn after_arrivals(state: LoadingState, arrivals: Seq<Arrival>) -> LoadingState
    decreases arrivals.len(),
{
    if arrivals.len() == 0 {
        state
    } else {
        after_arrivals(state, arrivals.drop_last()).spec_record(arrivals.last())
    }
}

/// How many entities `arrivals` brought in all.
pub open spec fn total_arrived(arrivals: Seq<Arrival>) -> nat
    decreases arrivals.len(),
{
    if arrivals.len() == 0 {
        0
    } else {
        total_arrived(arrivals.drop_last()) + arrivals.last().count as nat
    }
}

/// Whether one of `arrivals` closes the initial snapshot.
pub open spec fn any_last(arrivals: Seq<Arrival>) -> bool {
    exists|i: int| 0 <= i < arrivals.len() && (#[trigger] arrivals[i]).last
}

/// What arrivals leave behind depends only on how many entities they brought
/// in all and on whether one of them closed the snapshot: the count observed
/// is the sum, stopping at `u32::MAX`, and the marker is seen if it was seen
/// before or one of the batches was the last.
pub proof fn lemma_after_arrivals(state: LoadingState, arrivals: Seq<Arrival>)
    ensures
        after_arrivals(state, arrivals) == (LoadingState {
            to_load: state.to_load,
            loaded: if state.loaded + total_arrived(arrivals) <= u32::MAX {
                (state.loaded + total_arrived(arrivals)) as u32
            } else {
                u32::MAX
            },
            marker_seen: state.marker_seen || any_last(arrivals),
        }),
    decreases arrivals.len(),
{
    if arrivals.len() > 0 {
        let before = arrivals.drop_last();
        lemma_after_arrivals(state, before);
        if any_last(before) {
            let at = choose|i: int| 0 <= i < before.len() && (#[trigger] before[i]).last;
            assert(arrivals[at].last);
        }
        if arrivals.last().last {
            assert(arrivals[arrivals.len() - 1].last);
        }
        if any_last(arrivals) {
            let at = choose|i: int| 0 <= i < arrivals.len() && (#[trigger] arrivals[i]).last;
            if at < before.len() {
                assert(before[at].last);
            }
        }
    }
}

/// A load is done after some arrivals exactly when the marker has been seen,
/// before them or among them, and they brought at least what was missing.
pub proof fn lemma_done_after_arrivals(state: LoadingState, arrivals: Seq<Arrival>)
    ensures
        after_arrivals(state, arrivals).spec_is_done() <==> (state.marker_seen || any_last(arrivals))
            && state.loaded + total_arrived(arrivals) >= state.to_load,
{
    lemma_after_arrivals(state, arrivals);
}

/// Observing arrivals never undoes a finished load.
pub proof fn lemma_done_is_stable(state: LoadingState, arrivals: Seq<Arrival>)
    requires
        state.spec_is_done(),
    ensures
        after_arrivals(state, arrivals).spec_is_done(),
    decreases arrivals.len(),
{
    if arrivals.len() > 0 {
        lemma_done_is_stable(state, arrivals.drop_last());
    }
}

} // verus!
