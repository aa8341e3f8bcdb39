//! The request correlator: pending requests keyed by nonce, each waiting for
//! the one reply event that carries the same nonce.
//!
//! A waiter is known here by the ticket it was given when it registered. The
//! caller keeps the reply channel under that ticket and hands the payload over
//! when `resolve` names the ticket.
//!
//! The table is a `DashMap`, declared with the entity cache. The proofs do not
//! look into its code: what the wrappers at the top of this file state of it
//! is taken on trust from its source. Writes take the table by exclusive
//! reference, so of a timeout and a reply that race, the one that gets the
//! table first wins.

use dashmap::DashMap;
use std::collections::hash_map::RandomState;
use vstd::prelude::*;

verus! {

/// The pending requests that a registry holds: the ticket of the waiter under
/// the characters of each nonce.
pub uninterp spec fn pending_entries(registry: DashMap<String, u64, RandomState>) -> Map<Seq<char>, u64>;

/// `DashMap::new`: a registry that holds nothing.
#[verifier::external_body]
fn registry_new() -> (registry: DashMap<String, u64, RandomState>)
    ensures
        pending_entries(registry) == (Map::<Seq<char>, u64>::empty()),
{
    DashMap::new()
}

/// `DashMap::insert`: afterwards the registry holds `ticket` under `nonce`, in
/// place of what it held there, and every other entry as before.
#[verifier::external_body]
fn registry_insert(registry: &mut DashMap<String, u64, RandomState>, nonce: String, ticket: u64)
    ensures
        pending_entries(*final(registry)) == pending_entries(*old(registry)).insert(nonce@, ticket),
{
    registry.insert(nonce, ticket);
}

/// `DashMap::remove`: afterwards the registry holds nothing under `nonce`, and
/// every other entry as before. The result is the ticket that was held there.
#[verifier::external_body]
fn registry_remove(registry: &mut DashMap<String, u64, RandomState>, nonce: &str) -> (ticket: Option<u64>)
    ensures
        pending_entries(*final(registry)) == pending_entries(*old(registry)).remove(nonce@),
        ticket == (if pending_entries(*old(registry)).contains_key(nonce@) {
            Some(pending_entries(*old(registry))[nonce@])
        } else {
            None
        }),
{
    match registry.remove(nonce) {
        Some(entry) => Some(entry.1),
        None => None,
    }
}

/// `DashMap::get`: the ticket held under `nonce`, or `None` where there is none.
#[verifier::external_body]
fn registry_get(registry: &DashMap<String, u64, RandomState>, nonce: &str) -> (ticket: Option<u64>)
    ensures
        ticket == (if pending_entries(*registry).contains_key(nonce@) {
            Some(pending_entries(*registry)[nonce@])
        } else {
            None
        }),
{
    match registry.get(nonce) {
        Some(entry) => Some(*entry.value()),
        None => None,
    }
}

/// `DashMap::len`: how many entries the registry holds.
#[verifier::external_body]
fn registry_len(registry: &DashMap<String, u64, RandomState>) -> (count: usize)
    ensures
        count == pending_entries(*registry).dom().len(),
{
    registry.len()
}

/// What a caller holds while it waits for a reply: the ticket of its request.
#[derive(Clone, Copy, Debug, PartialEq, Eq, Structural)]
pub struct WaiterHandle {
    pub ticket: u64,
}

/// A reply that found its waiter: the payload is owed to the waiter named.
#[derive(Debug, PartialEq, Eq)]
pub struct Delivery<P> {
    pub waiter: WaiterHandle,
    pub payload: P,
}

/// The waiter that a reply carrying `nonce` reaches, if any.
pub open spec fn waiter_of(pending: Map<Seq<char>, u64>, nonce: Seq<char>) -> Option<WaiterHandle> {
    if pending.contains_key(nonce) {
        Some(WaiterHandle { ticket: pending[nonce] })
    } else {
        None
    }
}

/// The pending requests after a reply carrying `nonce` was resolved.
pub open spec fn after_resolve(pending: Map<Seq<char>, u64>, nonce: Seq<char>) -> Map<Seq<char>, u64> {
    pending.remove(nonce)
}

/// Whether the timeout of `handle`, registered under `nonce`, still finds its
/// own request pending.
pub open spec fn timeout_wins(pending: Map<Seq<char>, u64>, nonce: Seq<char>, handle: WaiterHandle) -> bool {
    pending.contains_key(nonce) && pending[nonce] == handle.ticket
}

/// The pending requests after the timeout of `handle`, registered under `nonce`.
pub open spec fn after_cancel(
    pending: Map<Seq<char>, u64>,
    nonce: Seq<char>,
    handle: WaiterHandle,
) -> Map<Seq<char>, u64> {
    if timeout_wins(pending, nonce, handle) {
        pending.remove(nonce)
    } else {
        pending
    }
}

/// What can happen to the table of pending requests.
pub enum RequestOp {
    /// A request is made pending under `nonce`.
    Register { nonce: Seq<char> },
    /// A reply that carries `nonce` arrives.
    Resolve { nonce: Seq<char> },
    /// The waiter `handle`, registered under `nonce`, gives up.
    Timeout { nonce: Seq<char>, handle: WaiterHandle },
}

impl RequestOp {
    /// The nonce that the operation is about.
    pub open spec fn nonce(self) -> Seq<char> {
        match self {
            RequestOp::Register { nonce } => nonce,
            RequestOp::Resolve { nonce } => nonce,
            RequestOp::Timeout { nonce, .. } => nonce,
        }
    }
}

/// The table of pending requests as a value: the ticket pending under each
/// nonce, and the ticket that the next waiter gets.
pub struct RegistryView {
    pub pending: Map<Seq<char>, u64>,
    pub next_ticket: u64,
}

impl RegistryView {
    /// The table after `op`.
    pub open spec fn after(self, op: RequestOp) -> RegistryView {
        match op {
            RequestOp::Register { nonce } => if self.next_ticket < u64::MAX {
                RegistryView {
                    pending: self.pending.insert(nonce, self.next_ticket),
                    next_ticket: (self.next_ticket + 1) as u64,
                }
            } else {
                self
            },
            RequestOp::Resolve { nonce } => RegistryView {
                pending: after_resolve(self.pending, nonce),
                ..self
            },
            RequestOp::Timeout { nonce, handle } => RegistryView {
                pending: after_cancel(self.pending, nonce, handle),
                ..self
            },
        }
    }

    /// The table after `ops`, one after the other.
    pub open spec fn after_all(self, ops: Seq<RequestOp>) -> RegistryView
        decreases ops.len(),
    {
        if ops.len() == 0 {
            self
        } else {
            self.after_all(ops.drop_last()).after(ops.last())
        }
    }

    /// Every ticket that is pending was given out before the next one.
    pub open spec fn wf(self) -> bool {
        forall|nonce: Seq<char>| #[trigger]
            self.pending.contains_key(nonce) ==> self.pending[nonce] < self.next_ticket
    }
}

/// The table of pending requests.
pub struct ChunkRequests {
    pending: DashMap<String, u64, RandomState>,
    next_ticket: u64,
}

impl View for ChunkRequests {
    type V = Map<Seq<char>, u64>;

    closed spec fn view(&self) -> Map<Seq<char>, u64> {
        pending_entries(self.pending)
    }
}

impl ChunkRequests {
    /// The ticket that the next waiter gets.
    pub closed spec fn next_ticket(&self) -> u64 {
        self.next_ticket
    }

    /// The table as a value.
    pub open spec fn state(&self) -> RegistryView {
        RegistryView { pending: self@, next_ticket: self.next_ticket() }
    }

    /// Every ticket that is pending was given out before the next one.
    pub open spec fn wf(&self) -> bool {
        forall|nonce: Seq<char>| #[trigger] self@.contains_key(nonce) ==> self@[nonce] < self.next_ticket()
    }

    /// A table with nothing pending.
    pub fn new() -> (requests: Self)
        ensures
            requests.wf(),
            requests@ == (Map::<Seq<char>, u64>::empty()),
            requests.next_ticket() == 0,
    {
        ChunkRequests { pending: registry_new(), next_ticket: 0 }
    }

    /// Makes a request pending under `nonce` and returns the handle of its
    /// waiter, whose ticket no waiter had before. A request that was pending
    /// under the same nonce is displaced: no reply can reach it any more.
    /// Returns `None`, and changes nothing, once every ticket has been given out.
    pub fn register(&mut self, nonce: String) -> (handle: Option<WaiterHandle>)
        requires
            old(self).wf(),
        ensures
            final(self).wf(),
            final(self).state() == old(self).state().after(RequestOp::Register { nonce: nonce@ }),
            old(self).next_ticket() < u64::MAX ==> handle == Some(
                WaiterHandle { ticket: old(self).next_ticket() },
            ) && final(self)@ == old(self)@.insert(nonce@, old(self).next_ticket())
                && final(self).next_ticket() == old(self).next_ticket() + 1,
            old(self).next_ticket() == u64::MAX ==> handle is None && final(self)@ == old(self)@
                && final(self).next_ticket() == old(self).next_ticket(),
    {
        if self.next_ticket == u64::MAX {
            return None;
        }
        let ticket = self.next_ticket;
        registry_insert(&mut self.pending, nonce, ticket);
        self.next_ticket = ticket + 1;
        assert forall|other: Seq<char>| #[trigger] self@.contains_key(other) implies self@[other]
            < self.next_ticket() by {
            if other != nonce@ {
                assert(old(self)@.contains_key(other));
            }
        }
        Some(WaiterHandle { ticket })
    }

    /// Takes the request pending under `nonce` out of the table and names the
    /// waiter that `payload` is owed to. Where nothing is pending under `nonce`
    /// (a late or repeated reply), nothing changes and the result is `None`.
    pub fn resolve<P>(&mut self, nonce: &str, payload: P) -> (delivery: Option<Delivery<P>>)
        requires
            old(self).wf(),
        ensures
            final(self).wf(),
            final(self).state() == old(self).state().after(RequestOp::Resolve { nonce: nonce@ }),
            final(self)@ == after_resolve(old(self)@, nonce@),
            final(self).next_ticket() == old(self).next_ticket(),
            delivery == (match waiter_of(old(self)@, nonce@) {
                Some(waiter) => Some(Delivery { waiter, payload }),
                None => None,
            }),
    {
        let found = registry_remove(&mut self.pending, nonce);
        assert forall|other: Seq<char>| #[trigger] self@.contains_key(other) implies self@[other]
            < self.next_ticket() by {
            assert(old(self)@.contains_key(other));
        }
        match found {
            Some(ticket) => Some(Delivery { waiter: WaiterHandle { ticket }, payload }),
            None => None,
        }
    }

    /// The timeout of the waiter `handle`, registered under `nonce`: takes its
    /// request out of the table if it is still pending, and says whether it
    /// was. A request that was resolved before, or displaced by a later one
    /// under the same nonce, is left alone.
    pub fn cancel(&mut self, nonce: &str, handle: WaiterHandle) -> (cancelled: bool)
        requires
            old(self).wf(),
        ensures
            final(self).wf(),
            final(self).state() == old(self).state().after(
                RequestOp::Timeout { nonce: nonce@, handle },
            ),
            cancelled == timeout_wins(old(self)@, nonce@, handle),
            final(self)@ == after_cancel(old(self)@, nonce@, handle),
            final(self).next_ticket() == old(self).next_ticket(),
    {
        match registry_get(&self.pending, nonce) {
            Some(ticket) => {
                if ticket == handle.ticket {
                    registry_remove(&mut self.pending, nonce);
                    assert forall|other: Seq<char>| #[trigger]
                        self@.contains_key(other) implies self@[other] < self.next_ticket() by {
                        assert(old(self)@.contains_key(other));
                    }
                    true
                } else {
                    false
                }
            },
            None => false,
        }
    }

    /// The ticket that the next waiter gets.
    pub fn upcoming_ticket(&self) -> (ticket: u64)
        ensures
            ticket == self.next_ticket(),
    {
        self.next_ticket
    }

    /// Whether a request is pending under `nonce`.
    pub fn is_pending(&self, nonce: &str) -> (pending: bool)
        ensures
            pending == self@.contains_key(nonce@),
    {
        registry_get(&self.pending, nonce).is_some()
    }

    /// How many requests are pending.
    pub fn pending_count(&self) -> (count: usize)
        ensures
            count == self@.dom().len(),
    {
        registry_len(&self.pending)
    }
}

/// Operations keep the table well formed.
pub proof fn lemma_ops_keep_wf(table: RegistryView, ops: Seq<RequestOp>)
    requires
        table.wf(),
    ensures
        table.after_all(ops).wf(),
        table.after_all(ops).next_ticket >= table.next_ticket,
    decreases ops.len(),
{
    if ops.len() > 0 {
        lemma_ops_keep_wf(table, ops.drop_last());
        let before = table.after_all(ops.drop_last());
        let after = before.after(ops.last());
        assert forall|nonce: Seq<char>| #[trigger] after.pending.contains_key(nonce) implies
            after.pending[nonce] < after.next_ticket by {
            match ops.last() {
                RequestOp::Register { nonce: registered } => {
                    if nonce != registered {
                        assert(before.pending.contains_key(nonce));
                    }
                },
                _ => {
                    assert(before.pending.contains_key(nonce));
                },
            }
        }
    }
}

/// A reply reaches the waiter that registered under its nonce if and only if
/// it comes first: whatever happens under other nonces after the waiter
/// registered, and however often other waiters that gave up on the same nonce
/// time out, the request stays pending for that waiter, a reply that carries
/// the nonce is owed to it, and after the reply nothing is pending under the
/// nonce, so that neither a second reply nor the waiter's timeout finds it.
pub proof fn lemma_reply_reaches_its_waiter(table: RegistryView, nonce: Seq<char>, ops: Seq<RequestOp>)
    requires
        table.wf(),
        table.next_ticket < u64::MAX,
        forall|i: int|
            0 <= i < ops.len() ==> (#[trigger] ops[i]).nonce() != nonce || (ops[i] matches RequestOp::Timeout {
                handle,
                ..
            } && handle.ticket != table.next_ticket),
    ensures
        ({
            let registered = table.after(RequestOp::Register { nonce });
            let waiting = registered.after_all(ops);
            let answered = waiting.after(RequestOp::Resolve { nonce });
            &&& waiter_of(waiting.pending, nonce) == Some(WaiterHandle { ticket: table.next_ticket })
            &&& waiter_of(answered.pending, nonce) is None
            &&& answered.after(RequestOp::Resolve { nonce }) == answered
            &&& answered.after(
                RequestOp::Timeout { nonce, handle: WaiterHandle { ticket: table.next_ticket } },
            ) == answered
        }),
    decreases ops.len(),
{
    let registered = table.after(RequestOp::Register { nonce });
    if ops.len() > 0 {
        assert forall|i: int| 0 <= i < ops.drop_last().len() implies (#[trigger] ops.drop_last()[i]).nonce()
            != nonce || (ops.drop_last()[i] matches RequestOp::Timeout { handle, .. }
            && handle.ticket != table.next_ticket) by {
            assert(ops.drop_last()[i] == ops[i]);
        }
        lemma_reply_reaches_its_waiter(table, nonce, ops.drop_last());
        assert(ops.last() == ops[ops.len() - 1]);
    }
    let waiting = registered.after_all(ops);
    let answered = waiting.after(RequestOp::Resolve { nonce });
    assert(answered.pending.remove(nonce) =~= answered.pending);
}

/// A reply that comes after the timeout of its waiter has won reaches nobody
/// and changes nothing, whatever happened under other nonces in between.
pub proof fn lemma_late_reply_is_ignored(
    table: RegistryView,
    nonce: Seq<char>,
    handle: WaiterHandle,
    ops: Seq<RequestOp>,
)
    requires
        timeout_wins(table.pending, nonce, handle),
        forall|i: int| 0 <= i < ops.len() ==> (#[trigger] ops[i]).nonce() != nonce,
    ensures
        ({
            let given_up = table.after(RequestOp::Timeout { nonce, handle }).after_all(ops);
            &&& waiter_of(given_up.pending, nonce) is None
            &&& given_up.after(RequestOp::Resolve { nonce }) == given_up
        }),
    decreases ops.len(),
{
    let start = table.after(RequestOp::Timeout { nonce, handle });
    if ops.len() > 0 {
        assert forall|i: int| 0 <= i < ops.drop_last().len() implies (#[trigger] ops.drop_last()[i]).nonce()
            != nonce by {
            assert(ops.drop_last()[i] == ops[i]);
        }
        lemma_late_reply_is_ignored(table, nonce, handle, ops.drop_last());
        assert(ops.last() == ops[ops.len() - 1]);
    }
    let given_up = start.after_all(ops);
    assert(given_up.pending.remove(nonce) =~= given_up.pending);
}

/// A reply whose nonce is not pending, because it was never registered or was
/// resolved already, reaches nobody and changes nothing.
pub proof fn lemma_unknown_reply_is_ignored(table: RegistryView, nonce: Seq<char>)
    requires
        !table.pending.contains_key(nonce),
    ensures
        waiter_of(table.pending, nonce) is None,
        table.after(RequestOp::Resolve { nonce }) == table,
{
    assert(table.pending.remove(nonce) =~= table.pending);
}

/// An operation under one nonce touches no request under another.
pub proof fn lemma_other_nonces_untouched(table: RegistryView, op: RequestOp, other: Seq<char>)
    requires
        op.nonce() != other,
    ensures
        waiter_of(table.after(op).pending, other) == waiter_of(table.pending, other),
{
}

} // verus!
