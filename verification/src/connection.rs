//! One connection to the peer: its state, the identifiers it hands out, and
//! the table of the calls that are in flight on it.
//!
//! The connection does no input or output. Whoever owns the stream tells it
//! what happened (a call is to be issued, a response has arrived, the stream
//! has failed), and it answers with what is to be done: the request to
//! send, or the waiting callers to wake and what to tell each of them.

use crate::error::RpcError;
use crate::message::{response_on_wire, Call, CallId, Request, Response, MAX_CALL_ID};
use crate::value::{Value, ValueView};
use vstd::prelude::*;

verus! {

/// Where a connection stands in its life. A connection is never repaired:
/// once failed it stays failed, and another one takes its place.
#[derive(Clone, Copy, Debug, PartialEq, Eq, Structural)]
pub enum ConnectionState {
    Disconnected,
    Connecting,
    Connected,
    Failed,
}

/// What can go wrong with a connection as a whole.
#[derive(Clone, Copy, Debug, PartialEq, Eq, Structural)]
pub enum Failure {
    /// The transport could not be established.
    Refused,
    /// The stream was closed, or reading or writing it failed.
    Closed,
    /// The peer sent something that is not a response.
    Malformed,
}

impl Failure {
    /// What a caller is told when the connection fails in this way.
    pub open spec fn error(self) -> RpcError {
        match self {
            Failure::Refused => RpcError::ConnectError,
            Failure::Closed => RpcError::Disconnected,
            Failure::Malformed => RpcError::DecodeError,
        }
    }

    /// What a caller is told when the connection fails in this way.
    pub fn to_error(self) -> (error: RpcError)
        ensures
            error == self.error(),
    {
        match self {
            Failure::Refused => RpcError::ConnectError,
            Failure::Closed => RpcError::Disconnected,
            Failure::Malformed => RpcError::DecodeError,
        }
    }
}

/// A call in flight: the identifier it was sent under, and the slot on which
/// its caller waits.
pub struct PendingCall<S> {
    pub id: CallId,
    pub slot: S,
}

/// The end of one call: the slot to fulfil, and what to fulfil it with.
pub struct Delivery<S> {
    pub id: CallId,
    pub slot: S,
    pub outcome: Result<Value, RpcError>,
}

/// What the caller of the call that `response` answers is told: the value,
/// or the peer's message as a remote error.
pub open spec fn outcome_of(response: Response) -> Result<Value, RpcError> {
    match response.outcome {
        Ok(value) => Ok(value),
        Err(message) => Err(RpcError::RemoteError(message)),
    }
}

/// Whether `deliveries` tell each caller in `pending` once, and no one
/// else, that its call ended in `error`: every delivery goes to the slot of
/// a call in the table, every call in the table has a delivery, and no two
/// deliveries are for the same call.
pub open spec fn tells_all<S>(
    deliveries: Seq<Delivery<S>>,
    pending: Map<CallId, S>,
    error: RpcError,
) -> bool {
    &&& forall|i: int|
        0 <= i < deliveries.len() ==> {
            &&& pending.contains_key((#[trigger] deliveries[i]).id)
            &&& deliveries[i].slot == pending[deliveries[i].id]
            &&& deliveries[i].outcome == Err::<Value, RpcError>(error)
        }
    &&& forall|id: CallId| #[trigger]
        pending.contains_key(id) ==> exists|i: int|
            0 <= i < deliveries.len() && (#[trigger] deliveries[i]).id == id
    &&& forall|i: int, j: int|
        0 <= i < j < deliveries.len() ==> (#[trigger] deliveries[i]).id != (
        #[trigger] deliveries[j]).id
}

/// Whether `outcome` is what the caller of a call is told when the peer
/// answers with `answer`: the value, or the peer's message as a remote
/// error.
pub open spec fn tells_answer(
    outcome: Result<Value, RpcError>,
    answer: Result<ValueView, Seq<char>>,
) -> bool {
    match outcome {
        Ok(value) => answer == Ok::<ValueView, Seq<char>>(value@),
        Err(RpcError::RemoteError(message)) => answer == Err::<ValueView, Seq<char>>(message@),
        Err(_) => false,
    }
}

/// The state of a connection, the identifiers it hands out, and the calls in
/// flight on it.
pub struct Connection<S> {
    state: ConnectionState,
    next_id: CallId,
    pending: Vec<PendingCall<S>>,
}

/// A connection as a mathematical value.
pub struct ConnectionView<S> {
    pub state: ConnectionState,
    /// The identifier that the next call gets; all smaller ones were issued.
    pub next_id: nat,
    /// The slot of each call in flight, by the call's identifier.
    pub pending: Map<CallId, S>,
}

impl<S> ConnectionView<S> {
    /// What holds of every connection: the calls in flight were issued by
    /// it, and only an established connection has calls in flight.
    pub open spec fn wf(self) -> bool {
        &&& self.next_id <= MAX_CALL_ID + 1
        &&& self.pending.dom().finite()
        &&& forall|id: CallId| #[trigger] self.pending.contains_key(id) ==> id < self.next_id
        &&& self.state != ConnectionState::Connected ==> self.pending == Map::<
            CallId,
            S,
        >::empty()
    }

    /// Whether a call can be issued: the connection is established and has
    /// an identifier left.
    pub open spec fn can_issue(self) -> bool {
        self.state == ConnectionState::Connected && self.next_id <= MAX_CALL_ID
    }

    /// The connection once a call waiting on `slot` has been issued.
    pub open spec fn issue(self, slot: S) -> ConnectionView<S> {
        ConnectionView {
            state: self.state,
            next_id: self.next_id + 1,
            pending: self.pending.insert(self.next_id as CallId, slot),
        }
    }

    /// The connection once the call `id` has left the table.
    pub open spec fn resolve(self, id: CallId) -> ConnectionView<S> {
        ConnectionView { state: self.state, next_id: self.next_id, pending: self.pending.remove(id) }
    }

    /// The connection once it has failed and every caller has been told.
    pub open spec fn fail(self) -> ConnectionView<S> {
        ConnectionView {
            state: ConnectionState::Failed,
            next_id: self.next_id,
            pending: Map::empty(),
        }
    }

    /// The connection in another state, with the same calls.
    pub open spec fn with_state(self, state: ConnectionState) -> ConnectionView<S> {
        ConnectionView { state, next_id: self.next_id, pending: self.pending }
    }
}

/// Some call among `pending` has the identifier `id`.
pub open spec fn waits<S>(pending: Seq<PendingCall<S>>, id: CallId) -> bool {
    exists|i: int| 0 <= i < pending.len() && (#[trigger] pending[i]).id == id
}

/// The position of the call `id` among `pending`, where it is there.
pub open spec fn position_of<S>(pending: Seq<PendingCall<S>>, id: CallId) -> int {
    choose|i: int| 0 <= i < pending.len() && (#[trigger] pending[i]).id == id
}

/// No two calls among `pending` have the same identifier.
pub open spec fn ids_distinct<S>(pending: Seq<PendingCall<S>>) -> bool {
    forall|i: int, j: int|
        0 <= i < j < pending.len() ==> (#[trigger] pending[i]).id != (#[trigger] pending[j]).id
}

/// The table that a list of calls in flight stands for.
pub open spec fn table_of<S>(pending: Seq<PendingCall<S>>) -> Map<CallId, S> {
    Map::new(|id: CallId| waits(pending, id), |id: CallId| pending[position_of(pending, id)].slot)
}

/// In a list with distinct identifiers, the call at position `i` is the one
/// that the table holds under its identifier.
pub proof fn lemma_pending_is_tabled<S>(pending: Seq<PendingCall<S>>, i: int)
    requires
        ids_distinct(pending),
        0 <= i < pending.len(),
    ensures
        table_of(pending).contains_key(pending[i].id),
        table_of(pending)[pending[i].id] == pending[i].slot,
        position_of(pending, pending[i].id) == i,
{
    let id = pending[i].id;
    let p = position_of(pending, id);
    assert(0 <= p < pending.len() && pending[p].id == id);
    if p < i {
        assert(pending[p].id != pending[i].id);
    } else if i < p {
        assert(pending[i].id != pending[p].id);
    }
}

/// The table of a list with distinct identifiers has as many entries as the
/// list has calls.
pub proof fn lemma_table_len<S>(pending: Seq<PendingCall<S>>)
    requires
        ids_distinct(pending),
    ensures
        table_of(pending).dom().finite(),
        table_of(pending).dom().len() == pending.len(),
    decreases pending.len(),
{
    if pending.len() == 0 {
        assert(table_of(pending).dom() =~= Set::<CallId>::empty());
    } else {
        let shorter = pending.drop_last();
        let last = pending.last();
        assert forall|i: int, j: int| 0 <= i < j < shorter.len() implies (#[trigger] shorter[i]).id
            != (#[trigger] shorter[j]).id by {
            assert(pending[i].id != pending[j].id);
        }
        lemma_table_len(shorter);
        assert(!waits(shorter, last.id)) by {
            if waits(shorter, last.id) {
                let p = position_of(shorter, last.id);
                assert(pending[p].id != pending[pending.len() - 1].id);
            }
        }
        assert forall|id: CallId| waits(pending, id) == (waits(shorter, id) || id == last.id) by {
            if waits(shorter, id) {
                let p = position_of(shorter, id);
                assert(pending[p].id == id);
            }
            if id == last.id {
                assert(pending[pending.len() - 1].id == id);
            }
            if waits(pending, id) {
                let p = position_of(pending, id);
                if p < shorter.len() {
                    assert(shorter[p].id == id);
                }
            }
        }
        assert(table_of(pending).dom() =~= table_of(shorter).dom().insert(last.id));
    }
}

impl<S> View for Connection<S> {
    type V = ConnectionView<S>;

    closed spec fn view(&self) -> ConnectionView<S> {
        ConnectionView {
            state: self.state,
            next_id: self.next_id as nat,
            pending: table_of(self.pending@),
        }
    }
}

impl<S> Connection<S> {
    /// No identifier is in the table twice.
    pub closed spec fn distinct(&self) -> bool {
        ids_distinct(self.pending@)
    }

    /// The invariant of the type: no identifier is in flight twice, and the
    /// connection as a mathematical value is well formed.
    pub open spec fn wf(&self) -> bool {
        &&& self.distinct()
        &&& self@.wf()
    }

    /// A connection that has not been opened yet. It has issued no call.
    pub fn new() -> (connection: Connection<S>)
        ensures
            connection.wf(),
            connection@ == (ConnectionView::<S> {
                state: ConnectionState::Disconnected,
                next_id: 0,
                pending: Map::empty(),
            }),
    {
        let connection = Connection {
            state: ConnectionState::Disconnected,
            next_id: 0,
            pending: Vec::new(),
        };
        assert(connection@.pending =~= Map::<CallId, S>::empty());
        connection
    }

    /// Where the connection stands in its life.
    pub fn state(&self) -> (state: ConnectionState)
        ensures
            state == self@.state,
    {
        self.state
    }

    /// The number of calls in flight.
    pub fn pending_calls(&self) -> (n: usize)
        requires
            self.wf(),
        ensures
            n == self@.pending.len(),
    {
        proof {
            lemma_table_len(self.pending@);
        }
        self.pending.len()
    }

    /// The position in the table of the call `id`, if it is in flight.
    fn find(&self, id: CallId) -> (found: Option<usize>)
        ensures
            match found {
                Some(i) => i < self.pending@.len() && self.pending@[i as int].id == id,
                None => !waits(self.pending@, id),
            },
    {
        let mut i: usize = 0;
        while i < self.pending.len()
            invariant
                i <= self.pending@.len(),
                forall|j: int| 0 <= j < i ==> (#[trigger] self.pending@[j]).id != id,
            decreases self.pending.len() - i,
        {
            if self.pending[i].id == id {
                return Some(i);
            }
            i += 1;
        }
        None
    }

    /// Whether the call `id` is in flight.
    pub fn is_pending(&self, id: CallId) -> (pending: bool)
        ensures
            pending == self@.pending.contains_key(id),
    {
        self.find(id).is_some()
    }

    /// Records that the transport is being opened. Only a connection that
    /// has not been opened yet can start to connect; the answer says
    /// whether this one did.
    pub fn connecting(&mut self) -> (started: bool)
        requires
            old(self).wf(),
        ensures
            final(self).wf(),
            started == (old(self)@.state == ConnectionState::Disconnected),
            final(self)@ == if started {
                old(self)@.with_state(ConnectionState::Connecting)
            } else {
                old(self)@
            },
    {
        match self.state {
            ConnectionState::Disconnected => {
                self.state = ConnectionState::Connecting;
                true
            },
            _ => false,
        }
    }

    /// Records that the transport stands. Only a connection that was
    /// connecting becomes connected; the answer says whether this one did.
    pub fn connected(&mut self) -> (established: bool)
        requires
            old(self).wf(),
        ensures
            final(self).wf(),
            established == (old(self)@.state == ConnectionState::Connecting),
            final(self)@ == if established {
                old(self)@.with_state(ConnectionState::Connected)
            } else {
                old(self)@
            },
    {
        match self.state {
            ConnectionState::Connecting => {
                self.state = ConnectionState::Connected;
                true
            },
            _ => false,
        }
    }

    /// Issues a call: gives it a fresh identifier, enters `slot` into the
    /// table under it, and returns the request to send. On a connection that
    /// is not established the call fails as disconnected, and on one that
    /// has run out of identifiers as not encodable; `slot` then comes back
    /// with the error, and nothing changes.
    pub fn begin_call(&mut self, call: Call, slot: S) -> (issued: Result<Request, (RpcError, S)>)
        requires
            old(self).wf(),
        ensures
            final(self).wf(),
            match issued {
                Ok(request) => {
                    &&& old(self)@.can_issue()
                    &&& request.id == old(self)@.next_id
                    &&& request.call() == call
                    &&& final(self)@ == old(self)@.issue(slot)
                },
                Err((error, returned)) => {
                    &&& !old(self)@.can_issue()
                    &&& returned == slot
                    &&& final(self)@ == old(self)@
                    &&& error == if old(self)@.state == ConnectionState::Connected {
                        RpcError::EncodeError
                    } else {
                        RpcError::Disconnected
                    }
                },
            },
    {
        match self.state {
            ConnectionState::Connected => {},
            _ => {
                return Err((RpcError::Disconnected, slot));
            },
        }
        if self.next_id > MAX_CALL_ID {
            return Err((RpcError::EncodeError, slot));
        }
        let id = self.next_id;
        let ghost before = self.pending@;
        proof {
            lemma_table_len(before);
        }
        assert(!waits(before, id)) by {
            if waits(before, id) {
                let p = position_of(before, id);
                lemma_pending_is_tabled(before, p);
            }
        }
        self.pending.push(PendingCall { id, slot });
        self.next_id = id + 1;
        proof {
            let after = self.pending@;
            assert(after == before.push(PendingCall { id, slot }));
            assert(ids_distinct(after)) by {
                assert forall|a: int, b: int| 0 <= a < b < after.len() implies (
                #[trigger] after[a]).id != (#[trigger] after[b]).id by {
                    if b < before.len() {
                        assert(before[a].id != before[b].id);
                    } else {
                        assert(before[a].id != id);
                    }
                }
            }
            assert forall|k: CallId| waits(after, k) == (waits(before, k) || k == id) by {
                if waits(before, k) {
                    let p = position_of(before, k);
                    assert(after[p].id == k);
                }
                if k == id {
                    assert(after[before.len() as int].id == k);
                }
                if waits(after, k) {
                    let p = position_of(after, k);
                    if p < before.len() {
                        assert(before[p].id == k);
                    }
                }
            }
            assert forall|k: CallId| waits(after, k) implies #[trigger] table_of(after)[k]
                == table_of(before).insert(id, slot)[k] by {
                let p = position_of(after, k);
                lemma_pending_is_tabled(after, p);
                if p < before.len() {
                    lemma_pending_is_tabled(before, p);
                }
            }
            assert(table_of(after) =~= table_of(before).insert(id, slot));
        }
        Ok(Request::new(id, call))
    }

    /// Takes the call `id` out of the table, if it is in flight.
    fn take(&mut self, id: CallId) -> (slot: Option<S>)
        requires
            old(self).wf(),
        ensures
            final(self).wf(),
            match slot {
                Some(s) => {
                    &&& old(self)@.pending.contains_key(id)
                    &&& s == old(self)@.pending[id]
                    &&& final(self)@ == old(self)@.resolve(id)
                },
                None => !old(self)@.pending.contains_key(id) && final(self)@ == old(self)@,
            },
    {
        let ghost before = self.pending@;
        match self.find(id) {
            None => None,
            Some(i) => {
                proof {
                    lemma_pending_is_tabled(before, i as int);
                }
                let taken = self.pending.remove(i);
                proof {
                    let after = self.pending@;
                    assert(after == before.remove(i as int));
                    assert(ids_distinct(after)) by {
                        assert forall|a: int, b: int| 0 <= a < b < after.len() implies (
                        #[trigger] after[a]).id != (#[trigger] after[b]).id by {
                            let a0 = if a < i { a } else { a + 1 };
                            let b0 = if b < i { b } else { b + 1 };
                            assert(before[a0].id != before[b0].id);
                        }
                    }
                    assert forall|k: CallId| waits(after, k) == (waits(before, k) && k != id) by {
                        if waits(before, k) && k != id {
                            let p = position_of(before, k);
                            let q = if p < i { p } else { p - 1 };
                            assert(after[q].id == k);
                        }
                        if waits(after, k) {
                            let q = position_of(after, k);
                            let p = if q < i { q } else { q + 1 };
                            assert(before[p].id == k);
                            if k == id {
                                assert(before[p].id != before[i as int].id);
                            }
                        }
                    }
                    assert forall|k: CallId| waits(after, k) implies #[trigger] table_of(after)[k]
                        == table_of(before).remove(id)[k] by {
                        let q = position_of(after, k);
                        let p = if q < i { q } else { q + 1 };
                        lemma_pending_is_tabled(after, q);
                        lemma_pending_is_tabled(before, p);
                    }
                    assert(table_of(after) =~= table_of(before).remove(id));
                    if after.len() == 0 {
                        assert(table_of(after) =~= Map::<CallId, S>::empty());
                    }
                }
                Some(taken.slot)
            },
        }
    }

    /// Routes a response to the call it answers. The call leaves the table,
    /// and its caller is to be told the value, or the peer's message as a
    /// remote error. A response to a call that is not in flight is dropped.
    pub fn on_response(&mut self, response: Response) -> (delivery: Option<Delivery<S>>)
        requires
            old(self).wf(),
        ensures
            final(self).wf(),
            match delivery {
                Some(d) => {
                    &&& old(self)@.pending.contains_key(response.id)
                    &&& d.id == response.id
                    &&& d.slot == old(self)@.pending[response.id]
                    &&& d.outcome == outcome_of(response)
                    &&& final(self)@ == old(self)@.resolve(response.id)
                },
                None => !old(self)@.pending.contains_key(response.id) && final(self)@ == old(
                    self,
                )@,
            },
    {
        let id = response.id;
        match self.take(id) {
            None => None,
            Some(slot) => {
                let outcome = match response.outcome {
                    Ok(value) => Ok(value),
                    Err(message) => Err(RpcError::RemoteError(message)),
                };
                Some(Delivery { id, slot, outcome })
            },
        }
    }

    /// Gives a call up on behalf of its caller. The call leaves the table,
    /// so that a response that arrives later finds no one to wake, and the
    /// caller is to be told that the call was cancelled.
    pub fn cancel(&mut self, id: CallId) -> (delivery: Option<Delivery<S>>)
        requires
            old(self).wf(),
        ensures
            final(self).wf(),
            match delivery {
                Some(d) => {
                    &&& old(self)@.pending.contains_key(id)
                    &&& d.id == id
                    &&& d.slot == old(self)@.pending[id]
                    &&& d.outcome == Err::<Value, RpcError>(RpcError::Cancelled)
                    &&& final(self)@ == old(self)@.resolve(id)
                },
                None => !old(self)@.pending.contains_key(id) && final(self)@ == old(self)@,
            },
    {
        match self.take(id) {
            None => None,
            Some(slot) => Some(Delivery { id, slot, outcome: Err(RpcError::Cancelled) }),
        }
    }

    /// Withdraws a call whose request could not be serialized or framed.
    /// The call leaves the table, and its caller is to be told that the
    /// request could not be encoded.
    pub fn encode_failed(&mut self, id: CallId) -> (delivery: Option<Delivery<S>>)
        requires
            old(self).wf(),
        ensures
            final(self).wf(),
            match delivery {
                Some(d) => {
                    &&& old(self)@.pending.contains_key(id)
                    &&& d.id == id
                    &&& d.slot == old(self)@.pending[id]
                    &&& d.outcome == Err::<Value, RpcError>(RpcError::EncodeError)
                    &&& final(self)@ == old(self)@.resolve(id)
                },
                None => !old(self)@.pending.contains_key(id) && final(self)@ == old(self)@,
            },
    {
        match self.take(id) {
            None => None,
            Some(slot) => Some(Delivery { id, slot, outcome: Err(RpcError::EncodeError) }),
        }
    }

    /// Marks the connection as failed and resolves every call in flight
    /// with the failure: each of them is delivered exactly once, and no call
    /// stays in the table.
    pub fn fail(&mut self, failure: Failure) -> (deliveries: Vec<Delivery<S>>)
        requires
            old(self).wf(),
        ensures
            final(self).wf(),
            final(self)@ == old(self)@.fail(),
            deliveries@.len() == old(self)@.pending.len(),
            tells_all(deliveries@, old(self)@.pending, failure.error()),
    {
        let ghost before = self.pending@;
        proof {
            lemma_table_len(before);
        }
        self.state = ConnectionState::Failed;
        let mut deliveries: Vec<Delivery<S>> = Vec::new();
        while self.pending.len() > 0
            invariant
                self.state == ConnectionState::Failed,
                self.next_id == old(self).next_id,
                ids_distinct(before),
                self.pending@.len() + deliveries@.len() == before.len(),
                forall|i: int| 0 <= i < self.pending@.len() ==> self.pending@[i] == before[i],
                forall|i: int|
                    0 <= i < deliveries@.len() ==> {
                        &&& (#[trigger] deliveries@[i]).id == before[before.len() - 1 - i].id
                        &&& deliveries@[i].slot == before[before.len() - 1 - i].slot
                        &&& deliveries@[i].outcome == Err::<Value, RpcError>(failure.error())
                    },
            decreases self.pending@.len(),
        {
            let call = self.pending.pop().unwrap();
            deliveries.push(Delivery { id: call.id, slot: call.slot, outcome: Err(failure.to_error()) });
        }
        proof {
            assert(table_of(self.pending@) =~= Map::<CallId, S>::empty());
            assert forall|i: int| 0 <= i < deliveries@.len() implies {
                &&& table_of(before).contains_key((#[trigger] deliveries@[i]).id)
                &&& deliveries@[i].slot == table_of(before)[deliveries@[i].id]
            } by {
                lemma_pending_is_tabled(before, before.len() - 1 - i);
            }
            assert forall|id: CallId| #[trigger] table_of(before).contains_key(id) implies exists|
                i: int,
            |
                0 <= i < deliveries@.len() && (#[trigger] deliveries@[i]).id == id by {
                let p = position_of(before, id);
                assert(deliveries@[before.len() - 1 - p].id == id);
            }
            assert forall|i: int, j: int| 0 <= i < j < deliveries@.len() implies (
            #[trigger] deliveries@[i]).id != (#[trigger] deliveries@[j]).id by {
                assert(before[before.len() - 1 - j].id != before[before.len() - 1 - i].id);
            }
        }
        deliveries
    }

    /// Takes one message from the peer, as the structured value that was
    /// read from its frame. A response is routed to the call it answers, as
    /// `on_response` does: its caller, if it still waits, is the one to
    /// wake. Anything else is fatal: the connection fails, and every call
    /// in flight is resolved with a decode error, as `fail` does.
    pub fn on_message(&mut self, wire: Value) -> (deliveries: Vec<Delivery<S>>)
        requires
            old(self).wf(),
        ensures
            final(self).wf(),
            match response_on_wire(wire@) {
                Some(response) => if old(self)@.pending.contains_key(response.id as CallId) {
                    &&& final(self)@ == old(self)@.resolve(response.id as CallId)
                    &&& deliveries@.len() == 1
                    &&& deliveries@[0].id == response.id
                    &&& deliveries@[0].slot == old(self)@.pending[response.id as CallId]
                    &&& tells_answer(deliveries@[0].outcome, response.outcome)
                } else {
                    final(self)@ == old(self)@ && deliveries@.len() == 0
                },
                None => {
                    &&& final(self)@ == old(self)@.fail()
                    &&& deliveries@.len() == old(self)@.pending.len()
                    &&& tells_all(deliveries@, old(self)@.pending, RpcError::DecodeError)
                },
            },
    {
        match Response::decode(wire) {
            Ok(response) => {
                let mut deliveries: Vec<Delivery<S>> = Vec::new();
                match self.on_response(response) {
                    Some(delivery) => {
                        deliveries.push(delivery);
                    },
                    None => {},
                }
                deliveries
            },
            Err(_) => self.fail(Failure::Malformed),
        }
    }
}

} // verus!
