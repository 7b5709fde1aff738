use std::cell::{Cell, RefCell};

use repo_support::retry::{retry, retry_with, Backoff, RetryPolicy, Step};

#[test]
fn retry_returns_third_attempt_after_two_waits() {
    let attempts = Cell::new(0u32);
    let waits: RefCell<Vec<u64>> = RefCell::new(Vec::new());
    let result: Result<&str, String> = retry(
        || {
            attempts.set(attempts.get() + 1);
            if attempts.get() < 3 {
                Err(format!("failure {}", attempts.get()))
            } else {
                Ok("done")
            }
        },
        |backoff: Backoff| waits.borrow_mut().push(backoff.wait),
    );
    assert_eq!(result, Ok("done"));
    assert_eq!(attempts.get(), 3);
    assert_eq!(*waits.borrow(), vec![1, 2]);
}

#[test]
fn retry_gives_up_after_six_attempts() {
    let attempts = Cell::new(0u32);
    let waits: RefCell<Vec<u64>> = RefCell::new(Vec::new());
    let result: Result<(), String> = retry(
        || {
            attempts.set(attempts.get() + 1);
            Err(format!("failure {}", attempts.get()))
        },
        |backoff: Backoff| waits.borrow_mut().push(backoff.wait),
    );
    assert_eq!(result, Err("failure 6".to_string()));
    assert_eq!(attempts.get(), 6);
    assert_eq!(*waits.borrow(), vec![1, 2, 4, 8, 16]);
}

#[test]
fn retry_success_at_once_never_waits() {
    let attempts = Cell::new(0u32);
    let pauses = Cell::new(0u32);
    let result: Result<u8, u8> = retry(
        || {
            attempts.set(attempts.get() + 1);
            Ok(9)
        },
        |_backoff: Backoff| pauses.set(pauses.get() + 1),
    );
    assert_eq!(result, Ok(9));
    assert_eq!(attempts.get(), 1);
    assert_eq!(pauses.get(), 0);
}

#[test]
fn retry_success_on_the_last_attempt_is_returned() {
    let attempts = Cell::new(0u32);
    let waits: RefCell<Vec<u64>> = RefCell::new(Vec::new());
    let result: Result<u32, u32> = retry(
        || {
            attempts.set(attempts.get() + 1);
            if attempts.get() == 6 {
                Ok(attempts.get())
            } else {
                Err(attempts.get())
            }
        },
        |backoff: Backoff| waits.borrow_mut().push(backoff.wait),
    );
    assert_eq!(result, Ok(6));
    assert_eq!(*waits.borrow(), vec![1, 2, 4, 8, 16]);
}

#[test]
fn retry_announces_attempt_and_budget() {
    let notices: RefCell<Vec<Backoff>> = RefCell::new(Vec::new());
    let result: Result<(), ()> = retry(|| Err(()), |backoff: Backoff| notices.borrow_mut().push(backoff));
    assert_eq!(result, Err(()));
    let expected: Vec<Backoff> = (1u32..=5)
        .map(|attempt| Backoff { attempt, budget: 5, wait: 1u64 << (attempt - 1) })
        .collect();
    assert_eq!(*notices.borrow(), expected);
}

#[test]
fn retry_starts_afresh_on_every_call() {
    for _ in 0..2 {
        let attempts = Cell::new(0u32);
        let waits: RefCell<Vec<u64>> = RefCell::new(Vec::new());
        let result: Result<(), u32> = retry(
            || {
                attempts.set(attempts.get() + 1);
                Err(attempts.get())
            },
            |backoff: Backoff| waits.borrow_mut().push(backoff.wait),
        );
        assert_eq!(result, Err(6));
        assert_eq!(*waits.borrow(), vec![1, 2, 4, 8, 16]);
    }
}

#[test]
fn retry_with_follows_the_policy() {
    let policy = RetryPolicy::new(3, 10).unwrap();
    let attempts = Cell::new(0u32);
    let waits: RefCell<Vec<u64>> = RefCell::new(Vec::new());
    let result: Result<(), u32> = retry_with(
        policy,
        || {
            attempts.set(attempts.get() + 1);
            Err(attempts.get())
        },
        |backoff: Backoff| waits.borrow_mut().push(backoff.wait),
    );
    assert_eq!(result, Err(4));
    assert_eq!(attempts.get(), 4);
    assert_eq!(*waits.borrow(), vec![10, 20, 40]);
}

#[test]
fn retry_with_no_budget_tries_once() {
    let policy = RetryPolicy::new(0, 1).unwrap();
    let attempts = Cell::new(0u32);
    let pauses = Cell::new(0u32);
    let result: Result<(), &str> = retry_with(
        policy,
        || {
            attempts.set(attempts.get() + 1);
            Err("no")
        },
        |_backoff: Backoff| pauses.set(pauses.get() + 1),
    );
    assert_eq!(result, Err("no"));
    assert_eq!(attempts.get(), 1);
    assert_eq!(pauses.get(), 0);
}

#[test]
fn default_policy_is_five_retries_from_one() {
    let policy = RetryPolicy::default();
    assert_eq!(policy.retry_count(), 5);
    assert_eq!(policy.initial_wait(), 1);
    assert_eq!(Some(policy), RetryPolicy::new(5, 1));
}

#[test]
fn policy_is_refused_when_a_wait_overflows() {
    assert!(RetryPolicy::new(63, 1).is_some());
    assert!(RetryPolicy::new(64, 1).is_none());
    assert!(RetryPolicy::new(1, u64::MAX / 2).is_some());
    assert!(RetryPolicy::new(1, u64::MAX / 2 + 1).is_none());
    assert!(RetryPolicy::new(0, u64::MAX).is_some());
    assert!(RetryPolicy::new(u32::MAX, 1).is_none());
    assert!(RetryPolicy::new(u32::MAX, 0).is_some());
}

#[test]
fn start_has_no_failure_and_the_first_wait() {
    let state = RetryPolicy::new(2, 7).unwrap().start();
    assert_eq!(state.failures(), 0);
    assert_eq!(state.wait(), 7);
    assert_eq!(state.policy(), RetryPolicy::new(2, 7).unwrap());
}

#[test]
fn advance_ends_on_success() {
    let state = RetryPolicy::default().start();
    let step: Step<u8, u8> = state.advance(Ok(3));
    assert_eq!(step, Step::Done(Ok(3)));
}

#[test]
fn advance_doubles_the_wait_after_a_failure() {
    let state = RetryPolicy::default().start();
    let step: Step<u8, &str> = state.advance(Err("first"));
    let next = match step {
        Step::Again { backoff, next } => {
            assert_eq!(backoff, Backoff { attempt: 1, budget: 5, wait: 1 });
            next
        },
        Step::Done(_) => panic!("the budget is not spent"),
    };
    assert_eq!(next.failures(), 1);
    assert_eq!(next.wait(), 2);
    let step: Step<u8, &str> = next.advance(Err("second"));
    match step {
        Step::Again { backoff, next } => {
            assert_eq!(backoff, Backoff { attempt: 2, budget: 5, wait: 2 });
            assert_eq!(next.failures(), 2);
            assert_eq!(next.wait(), 4);
        },
        Step::Done(_) => panic!("the budget is not spent"),
    }
}

#[test]
fn advance_ends_on_failure_when_the_budget_is_spent() {
    let mut state = RetryPolicy::new(2, 3).unwrap().start();
    for _ in 0..2 {
        state = match state.advance::<(), u8>(Err(0)) {
            Step::Again { next, .. } => next,
            Step::Done(_) => panic!("the budget is not spent"),
        };
    }
    assert_eq!(state.failures(), 2);
    assert_eq!(state.wait(), 12);
    assert_eq!(state.advance::<(), u8>(Err(7)), Step::Done(Err(7)));
    assert_eq!(state.advance::<u8, u8>(Ok(1)), Step::Done(Ok(1)));
}
