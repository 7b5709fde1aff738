//! Retry with exponential backoff.
//!
//! A call is tried once and, while it fails, up to `retry_count` more times.
//! Before each new attempt the caller waits; the first wait is
//! `initial_wait`, and every later one is twice the one before it.

use vstd::prelude::*;

verus! {

/// The wait that follows failure number `failures + 1` when the first wait is
/// `initial`: each wait is twice the one before it.
pub open spec fn nth_wait(initial: nat, failures: nat) -> nat
    decreases failures,
{
    if failures == 0 {
        initial
    } else {
        2 * nth_wait(initial, (failures - 1) as nat)
    }
}

/// Waits never shrink.
pub proof fn lemma_nth_wait_monotonic(initial: nat, i: nat, j: nat)
    requires
        i <= j,
    ensures
        nth_wait(initial, i) <= nth_wait(initial, j),
    decreases j,
{
    if i < j {
        lemma_nth_wait_monotonic(initial, i, (j - 1) as nat);
    }
}

/// How often a failing call is tried again, and how long the first wait is.
#[derive(Clone, Copy, Debug, PartialEq, Eq)]
pub struct RetryPolicy {
    retry_count: u32,
    initial_wait: u64,
}

/// What the caller is told before it waits.
#[derive(Clone, Copy, Debug, PartialEq, Eq)]
pub struct Backoff {
    /// The number of the attempt that has just failed, counted from 1.
    pub attempt: u32,
    /// The number of attempts allowed after the first.
    pub budget: u32,
    /// How long to wait before the next attempt.
    pub wait: u64,
}

/// Where one retried call stands: the attempts that have failed so far and
/// the wait that the next failure brings.
#[derive(Clone, Copy, Debug, PartialEq, Eq)]
pub struct RetryState {
    policy: RetryPolicy,
    failures: u32,
    wait: u64,
}

/// What follows an attempt.
#[derive(Debug, PartialEq, Eq)]
pub enum Step<T, E> {
    /// The call is over, with this result.
    Done(Result<T, E>),
    /// The attempt failed and another is due once the wait is over.
    Again { backoff: Backoff, next: RetryState },
}

impl RetryPolicy {
    /// Every wait that the policy can ask for fits the machine's integers.
    #[verifier::type_invariant]
    pub closed spec fn wf(self) -> bool {
        nth_wait(self.initial_wait as nat, self.retry_count as nat) <= u64::MAX
    }

    pub closed spec fn spec_retry_count(&self) -> u32 {
        self.retry_count
    }

    pub closed spec fn spec_initial_wait(&self) -> u64 {
        self.initial_wait
    }

    /// The state before the first attempt.
    pub closed spec fn spec_start(self) -> RetryState {
        RetryState { policy: self, failures: 0, wait: self.initial_wait }
    }

    /// The notices that this policy gives rise to.
    pub open spec fn announces(self, backoff: Backoff) -> bool {
        &&& backoff.budget == self.retry_count()
        &&& 1 <= backoff.attempt <= backoff.budget
        &&& backoff.wait == nth_wait(self.initial_wait() as nat, (backoff.attempt - 1) as nat)
    }

    /// A policy of `retry_count` extra attempts whose first wait is
    /// `initial_wait`, unless a later wait would overflow.
    pub fn new(retry_count: u32, initial_wait: u64) -> (policy: Option<RetryPolicy>)
        ensures
            policy is Some <==> nth_wait(initial_wait as nat, retry_count as nat) <= u64::MAX,
            policy matches Some(p) ==> p.wf() && p.retry_count() == retry_count
                && p.initial_wait() == initial_wait,
    {
        if initial_wait != 0 {
            let mut wait: u64 = initial_wait;
            let mut doubled: u32 = 0;
            while doubled < retry_count
                invariant
                    doubled <= retry_count,
                    initial_wait != 0,
                    wait == nth_wait(initial_wait as nat, doubled as nat),
                decreases retry_count - doubled,
            {
                if wait > u64::MAX / 2 {
                    proof {
                        lemma_nth_wait_monotonic(
                            initial_wait as nat,
                            (doubled + 1) as nat,
                            retry_count as nat,
                        );
                    }
                    return None;
                }
                wait = wait * 2;
                doubled = doubled + 1;
            }
        } else {
            proof {
                lemma_nth_wait_of_zero(retry_count as nat);
            }
        }
        Some(RetryPolicy { retry_count, initial_wait })
    }

    /// The number of attempts allowed after the first.
    #[verifier::when_used_as_spec(spec_retry_count)]
    pub fn retry_count(&self) -> (count: u32)
        ensures
            count == self.retry_count(),
    {
        self.retry_count
    }

    /// The wait before the second attempt.
    #[verifier::when_used_as_spec(spec_initial_wait)]
    pub fn initial_wait(&self) -> (wait: u64)
        ensures
            wait == self.initial_wait(),
    {
        self.initial_wait
    }

    /// The state before the first attempt.
    #[verifier::when_used_as_spec(spec_start)]
    pub fn start(self) -> (state: RetryState)
        ensures
            state == self.start(),
            state.wf(),
            state.policy() == self,
            state.failures() == 0,
            state.wait() == self.initial_wait(),
    {
        proof {
            use_type_invariant(&self);
            lemma_nth_wait_monotonic(self.initial_wait as nat, 0, self.retry_count as nat);
        }
        RetryState { policy: self, failures: 0, wait: self.initial_wait }
    }
}

/// Waiting nothing, doubled, is still nothing.
pub proof fn lemma_nth_wait_of_zero(failures: nat)
    ensures
        nth_wait(0, failures) == 0,
    decreases failures,
{
    if failures > 0 {
        lemma_nth_wait_of_zero((failures - 1) as nat);
    }
}

impl Default for RetryPolicy {
    /// Five extra attempts, the first after a wait of one.
    fn default() -> (policy: RetryPolicy)
        ensures
            policy.wf(),
            policy.retry_count() == 5,
            policy.initial_wait() == 1,
    {
        proof {
            reveal_with_fuel(nth_wait, 6);
        }
        RetryPolicy { retry_count: 5, initial_wait: 1 }
    }
}

impl RetryState {
    /// No more attempts have failed than the policy allows, and the wait is
    /// the one that the policy gives for that many failures.
    #[verifier::type_invariant]
    pub closed spec fn wf(self) -> bool {
        &&& self.policy.wf()
        &&& self.failures <= self.policy.retry_count
        &&& self.wait == nth_wait(self.policy.initial_wait as nat, self.failures as nat)
    }

    pub closed spec fn spec_policy(&self) -> RetryPolicy {
        self.policy
    }

    pub closed spec fn spec_failures(&self) -> u32 {
        self.failures
    }

    pub closed spec fn spec_wait(&self) -> u64 {
        self.wait
    }

    /// The state after one more failure: the wait has doubled.
    pub closed spec fn after_failure(self) -> RetryState {
        RetryState {
            policy: self.policy,
            failures: (self.failures + 1) as u32,
            wait: (2 * self.wait) as u64,
        }
    }

    /// What follows an attempt that ended in `outcome`: a success ends the
    /// call, and so does a failure once the budget is spent; any other
    /// failure is followed by a wait and a new attempt.
    pub open spec fn spec_advance<T, E>(self, outcome: Result<T, E>) -> Step<T, E> {
        match outcome {
            Ok(value) => Step::Done(Ok(value)),
            Err(error) => if self.failures() >= self.policy().retry_count() {
                Step::Done(Err(error))
            } else {
                Step::Again {
                    backoff: Backoff {
                        attempt: (self.failures() + 1) as u32,
                        budget: self.policy().retry_count(),
                        wait: self.wait(),
                    },
                    next: self.after_failure(),
                }
            },
        }
    }

    /// The policy that the call runs under.
    #[verifier::when_used_as_spec(spec_policy)]
    pub fn policy(&self) -> (policy: RetryPolicy)
        ensures
            policy == self.policy(),
    {
        self.policy
    }

    /// The number of attempts that have failed so far.
    #[verifier::when_used_as_spec(spec_failures)]
    pub fn failures(&self) -> (failures: u32)
        ensures
            failures == self.failures(),
    {
        self.failures
    }

    /// The wait that the next failure brings.
    #[verifier::when_used_as_spec(spec_wait)]
    pub fn wait(&self) -> (wait: u64)
        ensures
            wait == self.wait(),
    {
        self.wait
    }

    /// Decides what follows an attempt that ended in `outcome`.
    #[verifier::when_used_as_spec(spec_advance)]
    pub fn advance<T, E>(self, outcome: Result<T, E>) -> (step: Step<T, E>)
        ensures
            step == self.advance(outcome),
            step matches Step::Again { backoff, next } ==> {
                &&& self.policy().announces(backoff)
                &&& next.wf()
                &&& next.policy() == self.policy()
                &&& next.failures() == self.failures() + 1
                &&& next.wait() == 2 * self.wait()
            },
    {
        proof {
            use_type_invariant(&self);
            use_type_invariant(&self.policy);
        }
        match outcome {
            Ok(value) => Step::Done(Ok(value)),
            Err(error) => {
                if self.failures >= self.policy.retry_count {
                    Step::Done(Err(error))
                } else {
                    proof {
                        lemma_nth_wait_monotonic(
                            self.policy.initial_wait as nat,
                            (self.failures + 1) as nat,
                            self.policy.retry_count as nat,
                        );
                    }
                    let backoff = Backoff {
                        attempt: self.failures + 1,
                        budget: self.policy.retry_count,
                        wait: self.wait,
                    };
                    let next = RetryState {
                        policy: self.policy,
                        failures: self.failures + 1,
                        wait: self.wait * 2,
                    };
                    Step::Again { backoff, next }
                }
            },
        }
    }
}

/// One more failure within the budget counts as one and doubles the wait.
pub proof fn lemma_after_failure(state: RetryState)
    requires
        state.wf(),
        state.failures() < state.policy().retry_count(),
    ensures
        state.after_failure().wf(),
        state.after_failure().policy() == state.policy(),
        state.after_failure().failures() == state.failures() + 1,
        state.after_failure().wait() == 2 * state.wait(),
{
    lemma_nth_wait_monotonic(
        state.policy.initial_wait as nat,
        (state.failures + 1) as nat,
        state.policy.retry_count as nat,
    );
}

/// A whole retried call, seen from outside: what it returned and how long it
/// waited before each new attempt.
pub struct Run<T, E> {
    pub result: Result<T, E>,
    pub waits: Seq<u64>,
}

/// The call that begins in `state` when attempt after attempt ends as
/// `script` says, one entry per attempt. `None` where the script ends before
/// the call does.
pub open spec fn run<T, E>(state: RetryState, script: Seq<Result<T, E>>) -> Option<Run<T, E>>
    decreases script.len(),
{
    if script.len() == 0 {
        None
    } else {
        match state.advance(script[0]) {
            Step::Done(result) => Some(Run { result, waits: Seq::empty() }),
            Step::Again { backoff, next } => match run(next, script.skip(1)) {
                Some(rest) => Some(
                    Run { result: rest.result, waits: seq![backoff.wait] + rest.waits },
                ),
                None => None,
            },
        }
    }
}

/// The first `count` waits of a call that begins in `state`.
pub open spec fn waits_from(state: RetryState, count: nat) -> Seq<u64> {
    Seq::new(
        count,
        |i: int| nth_wait(state.policy().initial_wait() as nat, (state.failures() + i) as nat) as u64,
    )
}

/// A call ends with attempt `last + 1` of those that are left, and returns
/// what that attempt gave, when every attempt before it fails and it either
/// succeeds or spends the budget. It has then waited once before each attempt
/// but the first, each time twice as long as before.
pub proof fn lemma_run_ends<T, E>(state: RetryState, script: Seq<Result<T, E>>, last: nat)
    requires
        state.wf(),
        last < script.len(),
        state.failures() + last <= state.policy().retry_count(),
        forall|i: int| 0 <= i < last ==> script[i] is Err,
        script[last as int] is Ok || state.failures() + last == state.policy().retry_count(),
    ensures
        run(state, script) == Some(
            Run { result: script[last as int], waits: waits_from(state, last) },
        ),
    decreases last,
{
    if last == 0 {
        assert(waits_from(state, 0) =~= Seq::empty());
    } else {
        let next = state.after_failure();
        let rest = script.skip(1);
        lemma_after_failure(state);
        assert(script[0] is Err);
        assert forall|i: int| 0 <= i < last - 1 implies rest[i] is Err by {
            assert(rest[i] == script[i + 1]);
        }
        lemma_run_ends(next, rest, (last - 1) as nat);
        assert(waits_from(state, last) =~= seq![state.wait] + waits_from(next, (last - 1) as nat));
    }
}

/// The first success ends the call: where attempts `1` to `failed` fail and
/// the next one succeeds within the budget, the call returns that success and
/// has waited `failed` times, first `initial_wait` and then twice as long
/// each time.
pub proof fn law_first_success_is_returned<T, E>(
    policy: RetryPolicy,
    script: Seq<Result<T, E>>,
    failed: nat,
)
    requires
        policy.wf(),
        failed < script.len(),
        failed <= policy.retry_count(),
        forall|i: int| 0 <= i < failed ==> script[i] is Err,
        script[failed as int] is Ok,
    ensures
        run(policy.start(), script) == Some(
            Run { result: script[failed as int], waits: waits_from(policy.start(), failed) },
        ),
        forall|i: int|
            0 <= i < failed ==> waits_from(policy.start(), failed)[i] == nth_wait(
                policy.initial_wait() as nat,
                i as nat,
            ),
{
    lemma_nth_wait_monotonic(policy.initial_wait as nat, 0, policy.retry_count as nat);
    lemma_run_ends(policy.start(), script, failed);
    assert forall|i: int| 0 <= i < failed implies waits_from(policy.start(), failed)[i]
        == nth_wait(policy.initial_wait() as nat, i as nat) by {
        lemma_nth_wait_monotonic(policy.initial_wait as nat, i as nat, policy.retry_count as nat);
    }
}

/// A call whose every attempt fails makes `retry_count + 1` attempts, returns
/// the error of the last one, and has waited `retry_count` times, first
/// `initial_wait` and then twice as long each time.
pub proof fn law_exhaustion_returns_last_error<T, E>(
    policy: RetryPolicy,
    script: Seq<Result<T, E>>,
)
    requires
        policy.wf(),
        policy.retry_count() < script.len(),
        forall|i: int| 0 <= i <= policy.retry_count() ==> script[i] is Err,
    ensures
        run(policy.start(), script) == Some(
            Run {
                result: script[policy.retry_count() as int],
                waits: waits_from(policy.start(), policy.retry_count() as nat),
            },
        ),
        forall|i: int|
            0 <= i < policy.retry_count() ==> waits_from(
                policy.start(),
                policy.retry_count() as nat,
            )[i] == nth_wait(policy.initial_wait() as nat, i as nat),
{
    lemma_nth_wait_monotonic(policy.initial_wait as nat, 0, policy.retry_count as nat);
    lemma_run_ends(policy.start(), script, policy.retry_count as nat);
    assert forall|i: int| 0 <= i < policy.retry_count() implies waits_from(
        policy.start(),
        policy.retry_count() as nat,
    )[i] == nth_wait(policy.initial_wait() as nat, i as nat) by {
        lemma_nth_wait_monotonic(policy.initial_wait as nat, i as nat, policy.retry_count as nat);
    }
}

/// Whatever the attempts give, a call that ends returns what its last attempt
/// gave: nothing is made up and nothing but earlier failures is dropped. It
/// never makes more than `retry_count + 1` attempts, and it returns an error
/// only when it has made them all.
pub proof fn law_run_returns_last_outcome<T, E>(state: RetryState, script: Seq<Result<T, E>>)
    requires
        state.wf(),
    ensures
        run(state, script) matches Some(done) ==> {
            let last = done.waits.len() as int;
            &&& last < script.len()
            &&& state.failures() + last <= state.policy().retry_count()
            &&& done.result == script[last]
            &&& done.waits == waits_from(state, last as nat)
            &&& forall|i: int| 0 <= i < last ==> script[i] is Err
            &&& done.result is Err ==> state.failures() + last == state.policy().retry_count()
        },
    decreases script.len(),
{
    if script.len() > 0 {
        match state.advance(script[0]) {
            Step::Done(result) => {
                assert(waits_from(state, 0) =~= Seq::empty());
            },
            Step::Again { backoff, next } => {
                let rest = script.skip(1);
                lemma_after_failure(state);
                law_run_returns_last_outcome(next, rest);
                if let Some(tail) = run(next, rest) {
                    let last = tail.waits.len() as int;
                    assert(waits_from(state, (last + 1) as nat) =~= seq![state.wait] + waits_from(
                        next,
                        last as nat,
                    ));
                    assert forall|i: int| 0 <= i < last + 1 implies script[i] is Err by {
                        if i > 0 {
                            assert(rest[i - 1] == script[i]);
                        }
                    }
                }
            },
        }
    }
}

/// Under the default policy a call whose first six attempts fail waits
/// 1, 2, 4, 8 and 16 and returns the sixth error.
pub proof fn law_default_backoff<T, E>(policy: RetryPolicy, script: Seq<Result<T, E>>)
    requires
        policy.wf(),
        policy.retry_count() == 5,
        policy.initial_wait() == 1,
        script.len() >= 6,
        forall|i: int| 0 <= i < 6 ==> script[i] is Err,
    ensures
        run(policy.start(), script) == Some(
            Run { result: script[5], waits: seq![1u64, 2u64, 4u64, 8u64, 16u64] },
        ),
{
    law_exhaustion_returns_last_error(policy, script);
    reveal_with_fuel(nth_wait, 6);
    assert(waits_from(policy.start(), 5) =~= seq![1u64, 2u64, 4u64, 8u64, 16u64]);
}

/// Calls `operation` until it succeeds or `policy` allows no further attempt,
/// and calls `pause` before each new attempt with the notice of the wait.
///
/// The result is one that `operation` returned. Which attempt that was, and
/// what `pause` was told, is what [`RetryState::advance`] decides from each
/// outcome in turn, as [`run`] describes.
pub fn retry_with<T, E, F, P>(policy: RetryPolicy, operation: F, pause: P) -> (result: Result<
    T,
    E,
>) where F: Fn() -> Result<T, E>, P: Fn(Backoff)
    requires
        call_requires(operation, ()),
        forall|backoff: Backoff| policy.announces(backoff) ==> call_requires(pause, (backoff,)),
    ensures
        call_ensures(operation, (), result),
{
    let mut state = policy.start();
    loop
        invariant
            state.wf(),
            state.policy() == policy,
            call_requires(operation, ()),
            forall|backoff: Backoff| policy.announces(backoff) ==> call_requires(pause, (backoff,)),
        decreases policy.retry_count() - state.failures(),
    {
        let outcome = operation();
        match state.advance(outcome) {
            Step::Done(result) => {
                return result;
            },
            Step::Again { backoff, next } => {
                pause(backoff);
                state = next;
            },
        }
    }
}

/// The notices that the default policy gives rise to: one after each of the
/// first five failures, for waits of 1, 2, 4, 8 and 16.
pub open spec fn default_announces(backoff: Backoff) -> bool {
    &&& backoff.budget == 5
    &&& 1 <= backoff.attempt <= 5
    &&& backoff.wait == nth_wait(1, (backoff.attempt - 1) as nat)
}

/// Calls `operation` up to six times under the default policy; see
/// [`retry_with`].
pub fn retry<T, E, F, P>(operation: F, pause: P) -> (result: Result<T, E>) where
    F: Fn() -> Result<T, E>,
    P: Fn(Backoff),

    requires
        call_requires(operation, ()),
        forall|backoff: Backoff| default_announces(backoff) ==> call_requires(pause, (backoff,)),
    ensures
        call_ensures(operation, (), result),
{
    let policy = RetryPolicy::default();
    assert forall|backoff: Backoff| policy.announces(backoff) implies call_requires(
        pause,
        (backoff,),
    ) by {
        assert(default_announces(backoff));
    }
    retry_with(policy, operation, pause)
}

} // verus!
