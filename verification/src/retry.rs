//! Bounded retry: a call that fails in a way that may pass is attempted
//! again, up to a budget of attempts in all. The attempts of one call follow
//! one another, and each call counts its own.

use crate::error::RpcError;
use crate::connection::ConnectionState;
use crate::reconnect::{Acquired, Reconnect, ReconnectView};
use crate::value::Value;
use vstd::prelude::*;

verus! {

/// What is to be done next for a call.
#[derive(Debug, PartialEq, Eq)]
pub enum Step {
    /// Attempt the call on the wrapped service, and report the outcome.
    Attempt,
    /// The call is over: this is what its caller gets.
    Done(Result<Value, RpcError>),
}

/// What a call with a budget of no attempts at all ends in: nothing was
/// sent, since no connection was asked for.
pub open spec fn no_attempt() -> Result<Value, RpcError> {
    Err(RpcError::ConnectError)
}

/// Whether an attempt that ended in `outcome` failed in a way that may pass.
pub open spec fn may_pass(outcome: Result<Value, RpcError>) -> bool {
    outcome matches Err(error) && error.retryable()
}

/// Whether a call is attempted again after its attempt number `made` has
/// ended in `outcome`: the failure may pass, and the budget is not used up.
pub open spec fn tries_again(budget: nat, made: nat, outcome: Result<Value, RpcError>) -> bool {
    may_pass(outcome) && made < budget
}

/// What is to be done after attempt number `made` has ended in `outcome`.
pub open spec fn decide(budget: nat, made: nat, outcome: Result<Value, RpcError>) -> Step {
    if tries_again(budget, made, outcome) {
        Step::Attempt
    } else {
        Step::Done(outcome)
    }
}

/// The budget of one call and the attempts made on it so far.
#[derive(Debug, PartialEq, Eq)]
pub struct Attempts {
    budget: u32,
    made: u32,
}

impl Attempts {
    /// The most attempts that the call may take.
    pub closed spec fn budget(&self) -> nat {
        self.budget as nat
    }

    /// The attempts started so far.
    pub closed spec fn made(&self) -> nat {
        self.made as nat
    }

    /// The invariant of the type: a call never takes more attempts than its
    /// budget.
    pub open spec fn wf(&self) -> bool {
        self.made() <= self.budget()
    }

    /// The attempts started so far.
    pub fn attempts_made(&self) -> (made: u32)
        ensures
            made == self.made(),
    {
        self.made
    }

    /// Takes the outcome of the attempt in flight and says what comes next.
    /// A value ends the call. So does a failure that will not pass, and any
    /// failure once the budget is used up: the caller gets that failure
    /// unchanged. Otherwise the call is attempted once more.
    pub fn next(&mut self, outcome: Result<Value, RpcError>) -> (step: Step)
        requires
            old(self).wf(),
        ensures
            final(self).wf(),
            final(self).budget() == old(self).budget(),
            step == decide(old(self).budget(), old(self).made(), outcome),
            final(self).made() == if step is Attempt {
                old(self).made() + 1
            } else {
                old(self).made()
            },
    {
        let again = match &outcome {
            Ok(_) => false,
            Err(error) => error.is_retryable() && self.made < self.budget,
        };
        if again {
            self.made = self.made + 1;
            Step::Attempt
        } else {
            Step::Done(outcome)
        }
    }
}

/// A service with a budget of attempts for each call on it.
pub struct Retry<C> {
    service: Reconnect<C>,
    budget: u32,
}

impl<C> Retry<C> {
    /// The most attempts that a call may take.
    pub closed spec fn budget(&self) -> nat {
        self.budget as nat
    }

    /// The wrapped service.
    pub closed spec fn inner(&self) -> Reconnect<C> {
        self.service
    }

    /// Wraps `service`, giving each call at most `budget` attempts.
    pub fn new(service: Reconnect<C>, budget: u32) -> (retry: Retry<C>)
        ensures
            retry.inner() == service,
            retry.budget() == budget,
    {
        Retry { service, budget }
    }

    /// The wrapped service.
    pub fn service(&self) -> (service: &Reconnect<C>)
        ensures
            *service == self.inner(),
    {
        &self.service
    }

    /// The wrapped service, to ask it for the connection and to report how
    /// connecting went.
    pub fn service_mut(&mut self) -> (service: &mut Reconnect<C>)
        ensures
            *service == old(self).inner(),
            final(self).inner() == *final(service),
            final(self).budget() == old(self).budget(),
    {
        &mut self.service
    }

    /// The most attempts that a call may take.
    pub fn max_attempts(&self) -> (budget: u32)
        ensures
            budget == self.budget(),
    {
        self.budget
    }

    /// Starts a call. With a budget of at least one attempt the first
    /// attempt is to be made; with none the call is over before anything
    /// was asked of the wrapped service.
    pub fn begin(&self) -> (started: (Attempts, Step))
        ensures
            started.0.wf(),
            started.0.budget() == self.budget(),
            started.0.made() == if self.budget() == 0 {
                0nat
            } else {
                1nat
            },
            started.1 == if self.budget() == 0 {
                Step::Done(no_attempt())
            } else {
                Step::Attempt
            },
    {
        if self.budget == 0 {
            (Attempts { budget: 0, made: 0 }, Step::Done(Err(RpcError::ConnectError)))
        } else {
            (Attempts { budget: self.budget, made: 1 }, Step::Attempt)
        }
    }

    /// Takes the outcome of an attempt: the connection slot learns of it
    /// first, so that a failed connection is gone before the next attempt
    /// asks for one, and then the call's own count decides what comes next.
    /// A connection that left the slot is handed back to be closed.
    pub fn attempt_finished(
        &mut self,
        attempts: &mut Attempts,
        outcome: Result<Value, RpcError>,
    ) -> (next: (Step, Option<C>))
        requires
            old(self).inner().wf(),
            old(attempts).wf(),
        ensures
            final(self).inner().wf(),
            final(self).budget() == old(self).budget(),
            final(self).inner()@ == old(self).inner()@.call_finished(outcome),
            final(attempts).wf(),
            final(attempts).budget() == old(attempts).budget(),
            next.0 == decide(old(attempts).budget(), old(attempts).made(), outcome),
            final(attempts).made() == if next.0 is Attempt {
                old(attempts).made() + 1
            } else {
                old(attempts).made()
            },
            next.1 == old(self).inner()@.discarded(outcome),
    {
        let discarded = self.service.call_finished(&outcome);
        let step = attempts.next(outcome);
        (step, discarded)
    }
}

/// How a call goes when its attempts end, one after the other, in
/// `outcomes`: the number of attempts made, and what the caller gets. The
/// call is looked at after its attempt number `made`.
pub open spec fn run_from(budget: nat, outcomes: Seq<Result<Value, RpcError>>, made: nat) -> (
    nat,
    Result<Value, RpcError>,
)
    recommends
        1 <= made <= budget <= outcomes.len(),
    decreases budget - made,
{
    if tries_again(budget, made, outcomes[made - 1]) {
        run_from(budget, outcomes, made + 1)
    } else {
        (made, outcomes[made - 1])
    }
}

/// How a call goes when its attempts end, one after the other, in
/// `outcomes`: the number of attempts made, and what the caller gets.
pub open spec fn run(budget: nat, outcomes: Seq<Result<Value, RpcError>>) -> (
    nat,
    Result<Value, RpcError>,
)
    recommends
        budget <= outcomes.len(),
{
    if budget == 0 {
        (0, no_attempt())
    } else {
        run_from(budget, outcomes, 1)
    }
}

/// A call looked at after attempt number `made` ends after an attempt
/// between that one and the last that the budget allows; the caller gets the
/// outcome of the last attempt made; and every attempt before that one
/// failed in a way that may pass.
pub proof fn lemma_run_from(budget: nat, outcomes: Seq<Result<Value, RpcError>>, made: nat)
    requires
        1 <= made <= budget <= outcomes.len(),
    ensures
        ({
            let (attempts, result) = run_from(budget, outcomes, made);
            &&& made <= attempts <= budget
            &&& result == outcomes[attempts - 1]
            &&& !tries_again(budget, attempts, result)
            &&& forall|i: int|
                made - 1 <= i < attempts - 1 ==> may_pass(#[trigger] outcomes[i])
        }),
    decreases budget - made,
{
    if tries_again(budget, made, outcomes[made - 1]) {
        lemma_run_from(budget, outcomes, made + 1);
    }
}

/// The bound on attempts. A call never takes more attempts than its budget,
/// and with a budget of none it takes none. The caller gets the outcome of
/// the last attempt made. The call goes on exactly as long as the attempts
/// fail in a way that may pass and the budget lasts: it ends at the first
/// value, at the first failure that will not pass, or with the failure of
/// the attempt that used up the budget.
pub proof fn law_attempts_are_bounded(budget: nat, outcomes: Seq<Result<Value, RpcError>>)
    requires
        budget <= outcomes.len(),
    ensures
        ({
            let (attempts, result) = run(budget, outcomes);
            &&& attempts <= budget
            &&& budget == 0 ==> attempts == 0 && result == no_attempt()
            &&& budget > 0 ==> attempts >= 1 && result == outcomes[attempts - 1]
            &&& forall|i: int|
                0 <= i < attempts - 1 ==> may_pass(#[trigger] outcomes[i])
            &&& attempts < budget ==> !may_pass(result)
        }),
{
    if budget > 0 {
        lemma_run_from(budget, outcomes, 1);
    }
}

/// An endpoint that is never reached uses up the budget. When every attempt
/// fails because no connection could be made, the call takes exactly as many
/// attempts as its budget, none with a budget of none, and then fails with
/// that error.
pub proof fn law_unreachable_endpoint_uses_the_budget(
    budget: nat,
    outcomes: Seq<Result<Value, RpcError>>,
)
    requires
        budget <= outcomes.len(),
        forall|i: int|
            0 <= i < budget ==> #[trigger] outcomes[i] == Err::<Value, RpcError>(
                RpcError::ConnectError,
            ),
    ensures
        run(budget, outcomes) == (budget, Err::<Value, RpcError>(RpcError::ConnectError)),
{
    if budget > 0 {
        lemma_run_from(budget, outcomes, 1);
        let (attempts, result) = run_from(budget, outcomes, 1);
        assert(outcomes[attempts - 1] == Err::<Value, RpcError>(RpcError::ConnectError));
    }
}

/// How a call goes through the stack while no attempt to connect succeeds:
/// the attempts to connect that it makes, what its caller gets, and the
/// connection slot afterwards. The call is looked at when its attempt number
/// `made` asks for the connection: where the slot tells it to connect, it
/// does, the attempt to connect fails, and the attempt of the call ends
/// with that error.
pub open spec fn unreachable_from<C>(slot: ReconnectView<C>, budget: nat, made: nat) -> (
    nat,
    Result<Value, RpcError>,
    ReconnectView<C>,
)
    decreases budget - made,
{
    let connects: nat = if slot.acquired() == Acquired::Connect {
        1
    } else {
        0
    };
    let outcome = Err::<Value, RpcError>(RpcError::ConnectError);
    let after = slot.acquire().connect_failed().call_finished(outcome);
    if tries_again(budget, made, outcome) {
        let (later, result, last) = unreachable_from(after, budget, made + 1);
        (connects + later, result, last)
    } else {
        (connects, outcome, after)
    }
}

/// How a call goes through the stack while no attempt to connect succeeds:
/// the attempts to connect that it makes, what its caller gets, and the
/// connection slot afterwards.
pub open spec fn unreachable<C>(slot: ReconnectView<C>, budget: nat) -> (
    nat,
    Result<Value, RpcError>,
    ReconnectView<C>,
) {
    if budget == 0 {
        (0, no_attempt(), slot)
    } else {
        unreachable_from(slot, budget, 1)
    }
}

/// On an empty slot, a call looked at when its attempt number `made` asks
/// for the connection makes one attempt to connect for that attempt and
/// each one left in its budget.
proof fn lemma_unreachable_from<C>(slot: ReconnectView<C>, budget: nat, made: nat)
    requires
        slot.wf(),
        slot.state == ConnectionState::Disconnected,
        1 <= made <= budget,
    ensures
        unreachable_from(slot, budget, made) == (
            (budget - made + 1) as nat,
            Err::<Value, RpcError>(RpcError::ConnectError),
            slot,
        ),
    decreases budget - made,
{
    let outcome = Err::<Value, RpcError>(RpcError::ConnectError);
    assert(slot.acquire().connect_failed().call_finished(outcome) == slot);
    if made < budget {
        lemma_unreachable_from(slot, budget, made + 1);
    }
}

/// As many attempts to connect as the budget. A call to an endpoint that
/// cannot be reached, made on an empty connection slot, makes exactly as
/// many attempts to connect as its budget of attempts, none with a budget
/// of none, then fails with the error of connecting, and leaves the slot
/// empty.
pub proof fn law_unreachable_endpoint_is_tried_budget_times<C>(slot: ReconnectView<C>, budget: nat)
    requires
        slot.wf(),
        slot.state == ConnectionState::Disconnected,
    ensures
        unreachable(slot, budget) == (budget, Err::<Value, RpcError>(RpcError::ConnectError), slot),
{
    if budget > 0 {
        lemma_unreachable_from(slot, budget, 1);
    }
}

/// An error of the peer is not retried. When the first attempt is answered
/// by the peer with an error, the call ends after that one attempt, whatever
/// its budget, and the caller gets the peer's error unchanged.
pub proof fn law_remote_error_is_final(
    budget: nat,
    outcomes: Seq<Result<Value, RpcError>>,
    message: String,
)
    requires
        1 <= budget <= outcomes.len(),
        outcomes[0] == Err::<Value, RpcError>(RpcError::RemoteError(message)),
    ensures
        run(budget, outcomes) == (1nat, Err::<Value, RpcError>(RpcError::RemoteError(message))),
{
}

/// A value ends the call. The call ends with the first attempt that yields
/// a value, and the caller gets that value.
pub proof fn law_first_value_is_returned(
    budget: nat,
    outcomes: Seq<Result<Value, RpcError>>,
    first: nat,
)
    requires
        1 <= first <= budget <= outcomes.len(),
        outcomes[first - 1] is Ok,
        forall|i: int|
            0 <= i < first - 1 ==> may_pass(#[trigger] outcomes[i]),
    ensures
        run(budget, outcomes) == (first, outcomes[first - 1]),
{
    lemma_run_to(budget, outcomes, 1, first);
}

/// As long as the attempts fail in a way that may pass and the budget lasts,
/// the call goes on: looked at after attempt `made`, it goes as it does
/// looked at after a later attempt `later` that it reaches.
proof fn lemma_run_to(budget: nat, outcomes: Seq<Result<Value, RpcError>>, made: nat, later: nat)
    requires
        1 <= made <= later <= budget <= outcomes.len(),
        forall|i: int|
            made - 1 <= i < later - 1 ==> may_pass(#[trigger] outcomes[i]),
    ensures
        run_from(budget, outcomes, made) == run_from(budget, outcomes, later),
    decreases later - made,
{
    if made < later {
        assert(tries_again(budget, made, outcomes[made - 1]));
        lemma_run_to(budget, outcomes, made + 1, later);
    }
}

} // verus!
