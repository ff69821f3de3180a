//! The connection slot: where to connect, and the connection that stands,
//! if one does. The slot is filled on first use and emptied when a call
//! shows that the connection has failed, so that the next call connects
//! anew. It never retries by itself.

use crate::connection::ConnectionState;
use crate::error::RpcError;
use crate::value::Value;
use vstd::prelude::*;

verus! {

/// Where the peer listens: a local domain socket, or a port of a host.
#[derive(Debug, PartialEq, Eq)]
pub enum Endpoint {
    Socket { path: String },
    Tcp { host: String, port: u16 },
}

impl Clone for Endpoint {
    /// A copy that names the same place.
    fn clone(&self) -> (copy: Endpoint)
        ensures
            copy == *self,
    {
        match self {
            Endpoint::Socket { path } => Endpoint::Socket { path: path.clone() },
            Endpoint::Tcp { host, port } => Endpoint::Tcp { host: host.clone(), port: *port },
        }
    }
}

/// Makes connections to one endpoint.
#[derive(Debug, PartialEq, Eq)]
pub struct NewClient {
    endpoint: Endpoint,
}

impl NewClient {
    /// The endpoint to which the connections are made.
    pub closed spec fn target(&self) -> Endpoint {
        self.endpoint
    }

    /// A maker of connections to `endpoint`.
    pub fn new(endpoint: &Endpoint) -> (client: NewClient)
        ensures
            client.target() == *endpoint,
    {
        NewClient { endpoint: endpoint.clone() }
    }

    /// The endpoint to which the connections are made.
    pub fn endpoint(&self) -> (endpoint: &Endpoint)
        ensures
            *endpoint == self.target(),
    {
        &self.endpoint
    }
}

/// What a caller that needs the connection has to do.
#[derive(Clone, Copy, Debug, PartialEq, Eq, Structural)]
pub enum Acquired {
    /// A connection stands: use it.
    Ready,
    /// No connection stands and none is being made: make one, and report
    /// how that went.
    Connect,
    /// Another caller is making the connection: wait for it, then ask again.
    Wait,
}

/// The slot as a mathematical value.
pub struct ReconnectView<C> {
    pub endpoint: Endpoint,
    /// `Disconnected`, `Connecting` or `Connected`; a failed connection is
    /// thrown away at once, so the slot is never `Failed`.
    pub state: ConnectionState,
    pub connection: Option<C>,
}

impl<C> ReconnectView<C> {
    /// What holds of every slot: it holds a connection exactly when it is
    /// connected, and it is never failed.
    pub open spec fn wf(self) -> bool {
        &&& self.state != ConnectionState::Failed
        &&& (self.state == ConnectionState::Connected) == self.connection.is_some()
    }

    /// The slot in another state and with another content.
    pub open spec fn with(self, state: ConnectionState, connection: Option<C>) -> ReconnectView<C> {
        ReconnectView { endpoint: self.endpoint, state, connection }
    }

    /// What a caller that needs the connection is told.
    pub open spec fn acquired(self) -> Acquired {
        match self.state {
            ConnectionState::Connected => Acquired::Ready,
            ConnectionState::Connecting => Acquired::Wait,
            _ => Acquired::Connect,
        }
    }

    /// The slot after a caller has asked for the connection: a caller that
    /// is told to connect leaves the slot connecting.
    pub open spec fn acquire(self) -> ReconnectView<C> {
        if self.acquired() == Acquired::Connect {
            self.with(ConnectionState::Connecting, None)
        } else {
            self
        }
    }

    /// The slot after an attempt to connect has succeeded with
    /// `connection`. A connection that the slot did not ask for is not
    /// taken.
    pub open spec fn connect_succeeded(self, connection: C) -> ReconnectView<C> {
        if self.state == ConnectionState::Connecting {
            self.with(ConnectionState::Connected, Some(connection))
        } else {
            self
        }
    }

    /// The slot after an attempt to connect has failed.
    pub open spec fn connect_failed(self) -> ReconnectView<C> {
        if self.state == ConnectionState::Connecting {
            self.with(ConnectionState::Disconnected, None)
        } else {
            self
        }
    }

    /// Whether the outcome of a call shows that the connection it was made
    /// on has failed.
    pub open spec fn shows_failure(outcome: Result<Value, RpcError>) -> bool {
        outcome matches Err(error) && error.fatal_to_connection()
    }

    /// The connection that leaves the slot when a call on it has ended in
    /// `outcome`: the stored one, if the outcome shows that it has failed.
    pub open spec fn discarded(self, outcome: Result<Value, RpcError>) -> Option<C> {
        if self.state == ConnectionState::Connected && Self::shows_failure(outcome) {
            self.connection
        } else {
            None
        }
    }

    /// The slot after a call on the connection has ended in `outcome`: a
    /// connection that has failed leaves the slot.
    pub open spec fn call_finished(self, outcome: Result<Value, RpcError>) -> ReconnectView<C> {
        if self.state == ConnectionState::Connected && Self::shows_failure(outcome) {
            self.with(ConnectionState::Disconnected, None)
        } else {
            self
        }
    }
}

/// The endpoint and the connection to it that stands, if one does.
pub struct Reconnect<C> {
    client: NewClient,
    state: ConnectionState,
    connection: Option<C>,
}

impl<C> View for Reconnect<C> {
    type V = ReconnectView<C>;

    closed spec fn view(&self) -> ReconnectView<C> {
        ReconnectView {
            endpoint: self.client.target(),
            state: self.state,
            connection: self.connection,
        }
    }
}

impl<C> Reconnect<C> {
    /// The invariant of the type.
    pub open spec fn wf(&self) -> bool {
        self@.wf()
    }

    /// A slot for connections made by `client`. It is empty: the first call
    /// will connect.
    pub fn new(client: NewClient) -> (slot: Reconnect<C>)
        ensures
            slot.wf(),
            slot@ == (ReconnectView::<C> {
                endpoint: client.target(),
                state: ConnectionState::Disconnected,
                connection: None,
            }),
    {
        Reconnect { client, state: ConnectionState::Disconnected, connection: None }
    }

    /// Where the connections are made to.
    pub fn endpoint(&self) -> (endpoint: &Endpoint)
        ensures
            *endpoint == self@.endpoint,
    {
        self.client.endpoint()
    }

    /// Whether a connection stands, is being made, or neither.
    pub fn state(&self) -> (state: ConnectionState)
        ensures
            state == self@.state,
    {
        self.state
    }

    /// The connection that stands, if one does.
    pub fn connection(&self) -> (connection: Option<&C>)
        ensures
            connection == match self@.connection {
                Some(c) => Some(&c),
                None => None,
            },
    {
        self.connection.as_ref()
    }

    /// Asks for the connection on behalf of a call. Where one stands the
    /// caller is to use it, and nothing changes. Where one is being made the
    /// caller is to wait. Otherwise the caller is to make it, and until it
    /// reports back every other caller waits: no two attempts to connect
    /// are in flight at once.
    pub fn acquire(&mut self) -> (acquired: Acquired)
        requires
            old(self).wf(),
        ensures
            final(self).wf(),
            acquired == old(self)@.acquired(),
            final(self)@ == old(self)@.acquire(),
    {
        match self.state {
            ConnectionState::Connected => Acquired::Ready,
            ConnectionState::Connecting => Acquired::Wait,
            _ => {
                self.state = ConnectionState::Connecting;
                Acquired::Connect
            },
        }
    }

    /// Reports that the attempt to connect succeeded. The connection is
    /// stored for this call and the following ones. A connection that the
    /// slot was not waiting for is handed back, and nothing changes.
    pub fn connect_succeeded(&mut self, connection: C) -> (refused: Option<C>)
        requires
            old(self).wf(),
        ensures
            final(self).wf(),
            final(self)@ == old(self)@.connect_succeeded(connection),
            refused == if old(self)@.state == ConnectionState::Connecting {
                None
            } else {
                Some(connection)
            },
    {
        match self.state {
            ConnectionState::Connecting => {
                self.connection = Some(connection);
                self.state = ConnectionState::Connected;
                None
            },
            _ => Some(connection),
        }
    }

    /// Reports that the attempt to connect failed, and returns the error
    /// with which the call that made the attempt fails. The slot is empty
    /// again, so that the next call makes another attempt.
    pub fn connect_failed(&mut self) -> (error: RpcError)
        requires
            old(self).wf(),
        ensures
            final(self).wf(),
            final(self)@ == old(self)@.connect_failed(),
            error == RpcError::ConnectError,
    {
        match self.state {
            ConnectionState::Connecting => {
                self.state = ConnectionState::Disconnected;
            },
            _ => {},
        }
        RpcError::ConnectError
    }

    /// Reports how a call on the stored connection ended. An outcome that
    /// shows that the connection has failed empties the slot, and the
    /// connection is handed back to be closed; the failure itself is for the
    /// caller to pass on. Any other outcome leaves the connection in place.
    pub fn call_finished(&mut self, outcome: &Result<Value, RpcError>) -> (discarded: Option<C>)
        requires
            old(self).wf(),
        ensures
            final(self).wf(),
            final(self)@ == old(self)@.call_finished(*outcome),
            discarded == old(self)@.discarded(*outcome),
    {
        let failed = match outcome {
            Ok(_) => false,
            Err(error) => error.invalidates_connection(),
        };
        match self.state {
            ConnectionState::Connected => {
                if failed {
                    self.state = ConnectionState::Disconnected;
                    self.connection.take()
                } else {
                    None
                }
            },
            _ => None,
        }
    }
}

/// A healthy connection is used again. On a slot in which a connection
/// stands, a call is told to use it; a call that ends without showing a
/// failure of the connection leaves the slot as it is, so that the next call
/// is told to use the same connection, and no attempt to connect is made.
pub proof fn law_healthy_connection_is_reused<C>(
    slot: ReconnectView<C>,
    outcome: Result<Value, RpcError>,
)
    requires
        slot.wf(),
        slot.state == ConnectionState::Connected,
        !ReconnectView::<C>::shows_failure(outcome),
    ensures
        slot.acquired() == Acquired::Ready,
        slot.acquire().call_finished(outcome) == slot,
        slot.acquire().call_finished(outcome).acquired() == Acquired::Ready,
{
}

/// After a failure, one attempt to connect. Once a call on the stored
/// connection has ended as disconnected (or with a decode error), the slot is
/// empty; the next call is told to connect, every call that asks while that
/// attempt is in flight is told to wait, and once the attempt has succeeded
/// the calls are told to use the new connection.
pub proof fn law_one_attempt_after_failure<C>(
    slot: ReconnectView<C>,
    outcome: Result<Value, RpcError>,
    replacement: C,
)
    requires
        slot.wf(),
        slot.state == ConnectionState::Connected,
        ReconnectView::<C>::shows_failure(outcome),
    ensures
        ({
            let emptied = slot.call_finished(outcome);
            let connecting = emptied.acquire();
            let restored = connecting.connect_succeeded(replacement);
            &&& emptied.connection is None
            &&& emptied.acquired() == Acquired::Connect
            &&& connecting.acquired() == Acquired::Wait
            &&& connecting.acquire() == connecting
            &&& restored.acquired() == Acquired::Ready
            &&& restored.connection == Some(replacement)
            &&& restored.acquire() == restored
        }),
{
}

/// An endpoint that cannot be reached costs one attempt to connect per
/// call. On an empty slot a call is told to connect; when the attempt has
/// failed the slot is empty again, so the next call is told to connect as
/// well.
pub proof fn law_unreachable_endpoint_is_tried_once_per_call<C>(slot: ReconnectView<C>)
    requires
        slot.wf(),
        slot.state == ConnectionState::Disconnected,
    ensures
        slot.acquired() == Acquired::Connect,
        slot.acquire().acquired() == Acquired::Wait,
        slot.acquire().connect_failed() == slot,
{
}

} // verus!
