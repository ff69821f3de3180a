//! The client as the application sees it: the retrying, reconnecting stack
//! for one endpoint, and the typed calls made through it.

use crate::connection::ConnectionState;
use crate::message::Call;
use crate::reconnect::{Endpoint, NewClient, Reconnect};
use crate::retry::{Attempts, Retry, Step};
use crate::value::{Mapping, Value, ValueView};
use vstd::prelude::*;

verus! {

/// The game being played, as the peer names it.
#[derive(Copy, Clone, Debug, PartialEq, Eq)]
pub struct GameId {
    pub id: i32,
    pub is_override: bool,
}

/// The show being streamed, as the peer names it.
#[derive(Copy, Clone, Debug, PartialEq, Eq)]
pub struct ShowId {
    pub id: i32,
    pub is_override: bool,
}

/// What the peer knows about the stream at the moment.
#[derive(Clone, Debug, PartialEq, Eq)]
pub struct HeaderInfo {
    pub is_live: bool,
    pub channel: String,
    pub current_game: Option<GameId>,
    pub current_show: Option<ShowId>,
    pub advice: Option<String>,
}

/// The kind of system the client runs on, which decides how the peer is
/// reached.
#[derive(Clone, Copy, Debug, PartialEq, Eq, Structural)]
pub enum Platform {
    /// The peer listens on a local domain socket.
    Unix,
    /// The peer listens on a port of this host.
    Other,
}

/// What the client takes from the configuration.
#[derive(Clone, Debug, PartialEq, Eq)]
pub struct Config {
    pub lrrbot_socket: String,
    pub lrrbot_port: u16,
    pub platform: Platform,
}

/// The attempts that each call of the client may take.
pub const ATTEMPTS: u32 = 3;

/// Whether `endpoint` is where `config` says the peer listens: the socket on
/// a Unix system, the port of this host elsewhere.
pub open spec fn is_endpoint_of(endpoint: Endpoint, config: Config) -> bool {
    match config.platform {
        Platform::Unix => endpoint matches Endpoint::Socket { path } && path
            == config.lrrbot_socket,
        Platform::Other => endpoint matches Endpoint::Tcp { host, port } && host@ == "localhost"@
            && port == config.lrrbot_port,
    }
}

/// Whether `call` asks the peer for the header information: the method of
/// that name, without arguments.
pub open spec fn asks_for_header_info(call: Call) -> bool {
    &&& call.method@ == "get_header_info"@
    &&& call.positional_args@ == Seq::<Value>::empty()
    &&& call.keyword_args.wf()
    &&& call.keyword_args@ == Map::<Seq<char>, Value>::empty()
    &&& call.keyword_args.deep_members() == Seq::<(Seq<char>, ValueView)>::empty()
}

/// The client: a connection slot for the peer's endpoint, under a retry
/// with a budget of `ATTEMPTS` attempts for each call.
pub struct LRRbot<C> {
    service: Retry<C>,
}

impl<C> LRRbot<C> {
    /// The stack of services through which the calls go.
    pub closed spec fn stack(&self) -> Retry<C> {
        self.service
    }

    /// The client for the peer that `config` names. Nothing is connected
    /// yet: the first call will connect.
    pub fn new(config: &Config) -> (bot: LRRbot<C>)
        ensures
            bot.stack().budget() == ATTEMPTS,
            bot.stack().inner().wf(),
            bot.stack().inner()@.state == ConnectionState::Disconnected,
            bot.stack().inner()@.connection is None,
            is_endpoint_of(bot.stack().inner()@.endpoint, *config),
    {
        let endpoint = match config.platform {
            Platform::Unix => Endpoint::Socket { path: config.lrrbot_socket.clone() },
            Platform::Other => Endpoint::Tcp {
                host: "localhost".to_owned(),
                port: config.lrrbot_port,
            },
        };
        let client = NewClient::new(&endpoint);
        LRRbot { service: Retry::new(Reconnect::new(client), ATTEMPTS) }
    }

    /// The stack of services through which the calls go.
    pub fn service(&self) -> (service: &Retry<C>)
        ensures
            *service == self.stack(),
    {
        &self.service
    }

    /// The stack of services through which the calls go, to drive a call
    /// through it.
    pub fn service_mut(&mut self) -> (service: &mut Retry<C>)
        ensures
            *service == old(self).stack(),
            final(self).stack() == *final(service),
    {
        &mut self.service
    }

    /// Starts the call of the method `name` with the given arguments: the
    /// call to send on each attempt, the count of its attempts, and what to
    /// do first.
    pub fn call(&self, name: String, args: Vec<Value>, kwargs: Mapping) -> (started: (
        Call,
        Attempts,
        Step,
    ))
        ensures
            started.0.method == name,
            started.0.positional_args == args,
            started.0.keyword_args == kwargs,
            started.1.wf(),
            started.1.budget() == self.stack().budget(),
            started.1.made() == if self.stack().budget() == 0 {
                0nat
            } else {
                1nat
            },
            started.2 == if self.stack().budget() == 0 {
                Step::Done(crate::retry::no_attempt())
            } else {
                Step::Attempt
            },
    {
        let (attempts, step) = self.service.begin();
        (Call::new(name, args, kwargs), attempts, step)
    }

    /// Starts the call that asks the peer for the header information.
    pub fn get_header_info(&self) -> (started: (Call, Attempts, Step))
        ensures
            asks_for_header_info(started.0),
            started.1.wf(),
            started.1.budget() == self.stack().budget(),
            started.1.made() == if self.stack().budget() == 0 {
                0nat
            } else {
                1nat
            },
            started.2 == if self.stack().budget() == 0 {
                Step::Done(crate::retry::no_attempt())
            } else {
                Step::Attempt
            },
    {
        let kwargs = Mapping::new();
        let args: Vec<Value> = Vec::new();
        assert(args@ =~= Seq::<Value>::empty());
        self.call("get_header_info".to_owned(), args, kwargs)
    }
}

} // verus!
