//! Histories of a connection: what holds of the calls of a connection after
//! any sequence of events, in whatever order calls were issued, answered,
//! given up and failed.

use crate::connection::{ConnectionState, ConnectionView};
use crate::message::CallId;
use vstd::prelude::*;

verus! {

/// One thing that happens to a connection.
pub enum Event<S> {
    /// The transport is being opened.
    Connecting,
    /// The transport stands.
    Connected,
    /// A caller that waits on the given slot asks for a call.
    Call(S),
    /// A response with the given identifier arrives.
    Response(CallId),
    /// The caller of the given call gives it up.
    Cancel(CallId),
    /// The request of the given call could not be encoded.
    EncodeFailed(CallId),
    /// The connection fails as a whole.
    Fail,
}

/// The connection that has not been opened yet.
pub open spec fn initial<S>() -> ConnectionView<S> {
    ConnectionView { state: ConnectionState::Disconnected, next_id: 0, pending: Map::empty() }
}

/// The connection after one event.
pub open spec fn after<S>(pre: ConnectionView<S>, event: Event<S>) -> ConnectionView<S> {
    match event {
        Event::Connecting => if pre.state == ConnectionState::Disconnected {
            pre.with_state(ConnectionState::Connecting)
        } else {
            pre
        },
        Event::Connected => if pre.state == ConnectionState::Connecting {
            pre.with_state(ConnectionState::Connected)
        } else {
            pre
        },
        Event::Call(slot) => if pre.can_issue() {
            pre.issue(slot)
        } else {
            pre
        },
        Event::Response(id) | Event::Cancel(id) | Event::EncodeFailed(id) => if pre.pending.contains_key(
            id,
        ) {
            pre.resolve(id)
        } else {
            pre
        },
        Event::Fail => pre.fail(),
    }
}

/// How many outcomes one event delivers to the caller of the call `id`.
pub open spec fn delivered_by<S>(pre: ConnectionView<S>, event: Event<S>, id: CallId) -> nat {
    match event {
        Event::Response(answered) | Event::Cancel(answered) | Event::EncodeFailed(answered) => if answered
            == id && pre.pending.contains_key(id) {
            1
        } else {
            0
        },
        Event::Fail => if pre.pending.contains_key(id) {
            1
        } else {
            0
        },
        _ => 0,
    }
}

/// The connection after a sequence of events.
pub open spec fn after_all<S>(pre: ConnectionView<S>, events: Seq<Event<S>>) -> ConnectionView<S>
    decreases events.len(),
{
    if events.len() == 0 {
        pre
    } else {
        after(after_all(pre, events.drop_last()), events.last())
    }
}

/// How many outcomes a sequence of events delivers to the caller of the
/// call `id`.
pub open spec fn outcomes<S>(pre: ConnectionView<S>, events: Seq<Event<S>>, id: CallId) -> nat
    decreases events.len(),
{
    if events.len() == 0 {
        0
    } else {
        outcomes(pre, events.drop_last(), id) + delivered_by(
            after_all(pre, events.drop_last()),
            events.last(),
            id,
        )
    }
}

/// An event leaves a well-formed connection well formed, and never takes
/// back an identifier.
pub proof fn lemma_after_wf<S>(pre: ConnectionView<S>, event: Event<S>)
    requires
        pre.wf(),
    ensures
        after(pre, event).wf(),
        after(pre, event).next_id >= pre.next_id,
{
    let post = after(pre, event);
    match event {
        Event::Response(id) | Event::Cancel(id) | Event::EncodeFailed(id) => {
            if pre.pending.contains_key(id) && post.state != ConnectionState::Connected {
                assert(post.pending =~= Map::<CallId, S>::empty());
            }
        },
        _ => {},
    }
}

/// A sequence of events leaves a well-formed connection well formed, and
/// never takes back an identifier.
pub proof fn lemma_after_all_wf<S>(pre: ConnectionView<S>, events: Seq<Event<S>>)
    requires
        pre.wf(),
    ensures
        after_all(pre, events).wf(),
        after_all(pre, events).next_id >= pre.next_id,
    decreases events.len(),
{
    if events.len() > 0 {
        lemma_after_all_wf(pre, events.drop_last());
        lemma_after_wf(after_all(pre, events.drop_last()), events.last());
    }
}

/// One outcome per call. Whatever happens to a connection, and in whatever
/// order, the caller of a call that the connection has issued has either
/// been given exactly one outcome, or is still in the table and has been
/// given none. No caller is given two outcomes, and no outcome goes to a
/// call that was never issued.
pub proof fn law_one_outcome_per_call<S>(events: Seq<Event<S>>, id: CallId)
    ensures
        ({
            let now = after_all(initial::<S>(), events);
            let delivered = outcomes(initial::<S>(), events, id);
            &&& delivered <= 1
            &&& id < now.next_id ==> (delivered == 1) != now.pending.contains_key(id)
            &&& id >= now.next_id ==> delivered == 0 && !now.pending.contains_key(id)
        }),
    decreases events.len(),
{
    if events.len() > 0 {
        law_one_outcome_per_call(events.drop_last(), id);
        lemma_after_all_wf(initial::<S>(), events.drop_last());
    }
}

/// No caller is left waiting. Once a connection has failed, every call that
/// it ever issued has been given exactly one outcome, and none waits any
/// more.
pub proof fn law_failure_leaves_no_waiter<S>(events: Seq<Event<S>>, id: CallId)
    requires
        id < after_all(initial::<S>(), events).next_id,
    ensures
        ({
            let failed = after_all(initial::<S>(), events.push(Event::Fail));
            &&& failed.state == ConnectionState::Failed
            &&& failed.pending == Map::<CallId, S>::empty()
            &&& outcomes(initial::<S>(), events.push(Event::Fail), id) == 1
        }),
{
    let all = events.push(Event::Fail);
    assert(all.drop_last() =~= events);
    law_one_outcome_per_call(all, id);
}

/// Identifiers are not reused. Once a call has been issued, the identifier
/// that the connection gives to the next call is larger than the one it
/// gave to that call, whatever has happened in between.
pub proof fn law_identifiers_are_fresh<S>(before: Seq<Event<S>>, first: S, between: Seq<Event<S>>)
    requires
        after_all(initial::<S>(), before).can_issue(),
    ensures
        after_all(initial::<S>(), before).next_id < after_all(
            after_all(initial::<S>(), before).issue(first),
            between,
        ).next_id,
{
    lemma_after_all_wf(initial::<S>(), before);
    lemma_after_all_wf(after_all(initial::<S>(), before).issue(first), between);
}

/// A response reaches its caller. As long as a call is in the table, the
/// slot found under its identifier is the one that its caller entered,
/// whatever was issued, answered or given up in between.
pub proof fn law_slot_stays_with_its_call<S>(
    before: Seq<Event<S>>,
    slot: S,
    between: Seq<Event<S>>,
)
    requires
        after_all(initial::<S>(), before).can_issue(),
    ensures
        ({
            let issued = after_all(initial::<S>(), before);
            let id = issued.next_id as CallId;
            let now = after_all(issued.issue(slot), between);
            now.pending.contains_key(id) ==> now.pending[id] == slot
        }),
    decreases between.len(),
{
    let issued = after_all(initial::<S>(), before);
    lemma_after_all_wf(initial::<S>(), before);
    if between.len() > 0 {
        law_slot_stays_with_its_call(before, slot, between.drop_last());
        lemma_after_all_wf(issued.issue(slot), between.drop_last());
    }
}

} // verus!
