use eris::connection::ConnectionState;
use eris::error::RpcError;
use eris::reconnect::{Acquired, Endpoint, NewClient, Reconnect};
use eris::retry::{Retry, Step};
use eris::value::Value;

fn slot() -> Reconnect<&'static str> {
    let endpoint = Endpoint::Tcp { host: "example.org".to_string(), port: 4000 };
    Reconnect::new(NewClient::new(&endpoint))
}

fn connected(connection: &'static str) -> Reconnect<&'static str> {
    let mut slot = slot();
    assert_eq!(slot.acquire(), Acquired::Connect);
    assert_eq!(slot.connect_succeeded(connection), None);
    slot
}

#[test]
fn client_keeps_its_endpoint() {
    let endpoint = Endpoint::Socket { path: "/run/peer".to_string() };
    let client = NewClient::new(&endpoint);
    assert_eq!(client.endpoint(), &endpoint);
    assert_eq!(endpoint.clone(), endpoint);
    let slot: Reconnect<u8> = Reconnect::new(client);
    assert_eq!(slot.endpoint(), &endpoint);
}

#[test]
fn empty_slot_tells_the_first_caller_to_connect_and_the_others_to_wait() {
    let mut slot = slot();
    assert_eq!(slot.state(), ConnectionState::Disconnected);
    assert_eq!(slot.connection(), None);
    assert_eq!(slot.acquire(), Acquired::Connect);
    assert_eq!(slot.state(), ConnectionState::Connecting);
    assert_eq!(slot.acquire(), Acquired::Wait);
    assert_eq!(slot.acquire(), Acquired::Wait);
    assert_eq!(slot.connection(), None);
    assert_eq!(slot.connect_succeeded("first"), None);
    assert_eq!(slot.state(), ConnectionState::Connected);
    assert_eq!(slot.acquire(), Acquired::Ready);
    assert_eq!(slot.acquire(), Acquired::Ready);
    assert_eq!(slot.connection(), Some(&"first"));
}

#[test]
fn failed_attempt_to_connect_empties_the_slot() {
    let mut slot = slot();
    assert_eq!(slot.acquire(), Acquired::Connect);
    assert_eq!(slot.connect_failed(), RpcError::ConnectError);
    assert_eq!(slot.state(), ConnectionState::Disconnected);
    assert_eq!(slot.acquire(), Acquired::Connect);
}

#[test]
fn connection_that_was_not_asked_for_is_handed_back() {
    let mut slot = slot();
    assert_eq!(slot.connect_succeeded("uninvited"), Some("uninvited"));
    assert_eq!(slot.state(), ConnectionState::Disconnected);
    let mut slot = connected("first");
    assert_eq!(slot.connect_succeeded("second"), Some("second"));
    assert_eq!(slot.connection(), Some(&"first"));
    assert_eq!(slot.connect_failed(), RpcError::ConnectError);
    assert_eq!(slot.connection(), Some(&"first"));
}

#[test]
fn only_failures_of_the_connection_empty_the_slot() {
    let kept: Vec<Result<Value, RpcError>> = vec![
        Ok(Value::Null),
        Err(RpcError::RemoteError("no".to_string())),
        Err(RpcError::EncodeError),
        Err(RpcError::Cancelled),
        Err(RpcError::ConnectError),
    ];
    for outcome in kept {
        let mut slot = connected("first");
        assert_eq!(slot.call_finished(&outcome), None, "{:?}", outcome);
        assert_eq!(slot.acquire(), Acquired::Ready);
        assert_eq!(slot.connection(), Some(&"first"));
    }
    for outcome in [Err(RpcError::Disconnected), Err(RpcError::DecodeError)] {
        let mut slot = connected("first");
        assert_eq!(slot.call_finished(&outcome), Some("first"), "{:?}", outcome);
        assert_eq!(slot.state(), ConnectionState::Disconnected);
        assert_eq!(slot.connection(), None);
        assert_eq!(slot.call_finished(&outcome), None);
        assert_eq!(slot.acquire(), Acquired::Connect);
        assert_eq!(slot.acquire(), Acquired::Wait);
        assert_eq!(slot.call_finished(&outcome), None);
        assert_eq!(slot.connect_succeeded("second"), None);
        assert_eq!(slot.connection(), Some(&"second"));
    }
}

#[test]
fn retry_goes_on_while_the_failure_may_pass_and_the_budget_lasts() {
    let retry: Retry<u8> = Retry::new(Reconnect::new(NewClient::new(&Endpoint::Socket {
        path: "p".to_string(),
    })), 3);
    assert_eq!(retry.max_attempts(), 3);
    let (mut attempts, step) = retry.begin();
    assert_eq!(step, Step::Attempt);
    assert_eq!(attempts.attempts_made(), 1);
    assert_eq!(attempts.next(Err(RpcError::Disconnected)), Step::Attempt);
    assert_eq!(attempts.attempts_made(), 2);
    assert_eq!(attempts.next(Err(RpcError::DecodeError)), Step::Attempt);
    assert_eq!(attempts.attempts_made(), 3);
    assert_eq!(
        attempts.next(Err(RpcError::ConnectError)),
        Step::Done(Err(RpcError::ConnectError))
    );
    assert_eq!(attempts.attempts_made(), 3);
}

#[test]
fn retry_ends_at_once_on_a_value_or_a_final_failure() {
    let retry: Retry<u8> = Retry::new(Reconnect::new(NewClient::new(&Endpoint::Socket {
        path: "p".to_string(),
    })), 5);
    let outcomes: Vec<Result<Value, RpcError>> = vec![
        Ok(Value::Number(1)),
        Err(RpcError::RemoteError("bad arguments".to_string())),
        Err(RpcError::EncodeError),
        Err(RpcError::Cancelled),
    ];
    for outcome in outcomes {
        let (mut attempts, _) = retry.begin();
        assert_eq!(attempts.next(outcome.clone()), Step::Done(outcome));
        assert_eq!(attempts.attempts_made(), 1);
    }
}

#[test]
fn attempts_are_counted_for_each_call_on_its_own() {
    let retry: Retry<u8> = Retry::new(Reconnect::new(NewClient::new(&Endpoint::Socket {
        path: "p".to_string(),
    })), 2);
    let (mut first, _) = retry.begin();
    let (mut second, _) = retry.begin();
    assert_eq!(first.next(Err(RpcError::Disconnected)), Step::Attempt);
    assert_eq!(first.attempts_made(), 2);
    assert_eq!(second.attempts_made(), 1);
    assert_eq!(second.next(Err(RpcError::Disconnected)), Step::Attempt);
    assert_eq!(
        first.next(Err(RpcError::Disconnected)),
        Step::Done(Err(RpcError::Disconnected))
    );
    assert_eq!(
        second.next(Err(RpcError::Disconnected)),
        Step::Done(Err(RpcError::Disconnected))
    );
}

#[test]
fn finished_attempt_tells_the_slot_before_it_decides() {
    let mut retry: Retry<&'static str> = Retry::new(connected("first"), 2);
    let (mut attempts, _) = retry.begin();
    let (step, discarded) = retry.attempt_finished(&mut attempts, Err(RpcError::Disconnected));
    assert_eq!(step, Step::Attempt);
    assert_eq!(discarded, Some("first"));
    assert_eq!(retry.service().state(), ConnectionState::Disconnected);
    assert_eq!(retry.service_mut().acquire(), Acquired::Connect);
    assert_eq!(retry.service_mut().connect_succeeded("second"), None);
    let (step, discarded) = retry.attempt_finished(&mut attempts, Ok(Value::Bool(true)));
    assert_eq!(step, Step::Done(Ok(Value::Bool(true))));
    assert_eq!(discarded, None);
    assert_eq!(retry.service().connection(), Some(&"second"));
}
