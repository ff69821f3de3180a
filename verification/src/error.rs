//! The failures that a call can end in, and how the middleware treats each.

use vstd::prelude::*;

verus! {

/// Why a call did not produce a value.
#[derive(Debug, PartialEq, Eq)]
pub enum RpcError {
    /// The transport to the endpoint could not be established.
    ConnectError,
    /// The request could not be put on the wire.
    EncodeError,
    /// The peer sent a frame that is not a well-formed response.
    DecodeError,
    /// The stream closed or failed while the call was in flight.
    Disconnected,
    /// The peer answered the call with an error of its own.
    RemoteError(String),
    /// The caller gave the call up before a response arrived.
    Cancelled,
}

impl Clone for RpcError {
    /// A copy of the same kind, with the same message.
    fn clone(&self) -> (copy: RpcError)
        ensures
            copy == *self,
    {
        match self {
            RpcError::ConnectError => RpcError::ConnectError,
            RpcError::EncodeError => RpcError::EncodeError,
            RpcError::DecodeError => RpcError::DecodeError,
            RpcError::Disconnected => RpcError::Disconnected,
            RpcError::RemoteError(message) => RpcError::RemoteError(message.clone()),
            RpcError::Cancelled => RpcError::Cancelled,
        }
    }
}

impl RpcError {
    /// Whether a later attempt may succeed where this one failed: the
    /// failures of the connection are transient, the others are final.
    pub open spec fn retryable(self) -> bool {
        self is ConnectError || self is DecodeError || self is Disconnected
    }

    /// Whether the connection on which this failure was seen can no longer
    /// be used.
    pub open spec fn fatal_to_connection(self) -> bool {
        self is DecodeError || self is Disconnected
    }

    /// Decides whether retrying is worthwhile after this failure.
    pub fn is_retryable(&self) -> (r: bool)
        ensures
            r == self.retryable(),
    {
        match self {
            RpcError::ConnectError => true,
            RpcError::DecodeError => true,
            RpcError::Disconnected => true,
            RpcError::EncodeError => false,
            RpcError::RemoteError(_) => false,
            RpcError::Cancelled => false,
        }
    }

    /// Decides whether the connection has to be replaced after this failure.
    pub fn invalidates_connection(&self) -> (r: bool)
        ensures
            r == self.fatal_to_connection(),
    {
        match self {
            RpcError::DecodeError => true,
            RpcError::Disconnected => true,
            RpcError::ConnectError => false,
            RpcError::EncodeError => false,
            RpcError::RemoteError(_) => false,
            RpcError::Cancelled => false,
        }
    }
}

} // verus!
