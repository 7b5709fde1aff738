//! A guard for one repository transaction.
//!
//! A transaction that was prepared must end in exactly one of two ways: it is
//! committed, or it is aborted. The guard stands for the open transaction and
//! decides which of the two is due. Its owner makes the calls: it prepares
//! and hands the outcome to [`Transaction::new`]; to commit, it calls the
//! repository and hands the outcome to [`Transaction::commit`]; and when it
//! lets go of a guard in any other way it calls [`Transaction::release`].
//! Each of the last two consumes the guard and answers with the [`Cleanup`]
//! that is still owed to the repository.
//!
//! The guard borrows the repository for as long as it lives and never looks
//! into it: any type can stand for the repository.

use vstd::prelude::*;

verus! {

/// A primitive of the repository.
#[derive(Clone, Copy, Debug, PartialEq, Eq)]
pub enum RepoCall {
    Prepare,
    Commit,
    Abort,
}

/// What is owed to a repository when a guard goes.
#[derive(Debug, PartialEq, Eq)]
pub enum Cleanup<'a, R> {
    /// The transaction was committed; nothing is left to do.
    Nothing,
    /// The transaction is still open and has to be aborted in this
    /// repository.
    Abort(&'a R),
}

/// How an abort ended.
#[derive(Debug, PartialEq, Eq)]
pub enum AbortOutcome<E> {
    /// The transaction is gone.
    Done,
    /// The abort failed and the repository is in an unknown state. Nothing
    /// can mend that: the owner must not go on.
    Fatal(E),
}

/// How the owner of a guard lets go of it.
pub enum Exit {
    /// Without a commit: the guard is released.
    Released,
    /// By a commit that the repository accepts.
    CommitSucceeded,
    /// By a commit that the repository refuses.
    CommitFailed,
}

/// An open transaction in the repository `repo`. `finished` is set by a
/// commit that succeeded and is read once, when the guard goes.
#[derive(Debug)]
pub struct Transaction<'a, R> {
    repo: &'a R,
    finished: bool,
}

impl<'a, R> Transaction<'a, R> {
    /// The repository that the transaction is open in.
    pub closed spec fn spec_repo(&self) -> &'a R {
        self.repo
    }

    /// Whether the transaction was committed.
    pub closed spec fn is_finished(&self) -> bool {
        self.finished
    }

    /// The guard of a transaction that has just been prepared in `repo`.
    pub closed spec fn fresh(repo: &'a R) -> Transaction<'a, R> {
        Transaction { repo, finished: false }
    }

    /// The guard after a commit: it is finished if the commit succeeded, and
    /// stays as it was if not.
    pub closed spec fn marked(self, succeeded: bool) -> Transaction<'a, R> {
        Transaction { repo: self.repo, finished: self.finished || succeeded }
    }

    /// The guard for a transaction in `repo` whose preparation ended in
    /// `prepared`: where that failed there is no transaction and no guard,
    /// and the error is handed on.
    pub open spec fn spec_new<P, E>(repo: &'a R, prepared: Result<P, E>) -> Result<
        Transaction<'a, R>,
        E,
    > {
        match prepared {
            Ok(_) => Ok(Transaction::fresh(repo)),
            Err(error) => Err(error),
        }
    }

    /// What is owed when the guard goes: an abort in its repository, unless
    /// the transaction was committed.
    pub open spec fn spec_release(self) -> Cleanup<'a, R> {
        if self.is_finished() {
            Cleanup::Nothing
        } else {
            Cleanup::Abort(self.repo())
        }
    }

    /// What a commit that ended in `committed` returns, and what is owed
    /// when the guard, which the commit consumes, goes with it.
    pub open spec fn spec_commit<S, E>(self, committed: Result<S, E>) -> (
        Result<(), E>,
        Cleanup<'a, R>,
    ) {
        (
            match committed {
                Ok(_) => Ok(()),
                Err(error) => Err(error),
            },
            self.marked(committed is Ok).spec_release(),
        )
    }

    /// Makes the guard for a transaction in `repo` whose preparation ended
    /// in `prepared`.
    #[verifier::when_used_as_spec(spec_new)]
    pub fn new<P, E>(repo: &'a R, prepared: Result<P, E>) -> (guard: Result<Transaction<'a, R>, E>)
        ensures
            guard == Transaction::new(repo, prepared),
            guard matches Ok(open) ==> open.repo() == repo && !open.is_finished(),
    {
        match prepared {
            Ok(_) => Ok(Transaction { repo, finished: false }),
            Err(error) => Err(error),
        }
    }

    /// The repository that the transaction is open in.
    #[verifier::when_used_as_spec(spec_repo)]
    pub fn repo(&self) -> (repo: &'a R)
        ensures
            repo == self.repo(),
    {
        self.repo
    }

    /// Ends the guard after the repository was asked to commit and answered
    /// `committed`. The answer is returned, without what a success carried;
    /// with it comes what is owed now that the guard is gone: nothing after a
    /// success, an abort after a failure.
    #[verifier::when_used_as_spec(spec_commit)]
    pub fn commit<S, E>(self, committed: Result<S, E>) -> (outcome: (Result<(), E>, Cleanup<'a, R>))
        ensures
            outcome == self.commit(committed),
            !self.is_finished() ==> outcome.1 == (if committed is Ok {
                Cleanup::Nothing
            } else {
                Cleanup::Abort(self.repo())
            }),
    {
        let mut guard = self;
        let result = match committed {
            Ok(_) => {
                guard.finished = true;
                Ok(())
            },
            Err(error) => Err(error),
        };
        (result, guard.release())
    }

    /// Ends the guard and says what is owed: an abort, unless the
    /// transaction was committed.
    #[verifier::when_used_as_spec(spec_release)]
    pub fn release(self) -> (cleanup: Cleanup<'a, R>)
        ensures
            cleanup == self.release(),
    {
        if self.finished {
            Cleanup::Nothing
        } else {
            Cleanup::Abort(self.repo)
        }
    }
}

/// Judges the outcome of an abort: a failure is fatal.
pub fn after_abort<A, E>(aborted: Result<A, E>) -> (outcome: AbortOutcome<E>)
    ensures
        outcome == (match aborted {
            Ok(_) => AbortOutcome::Done,
            Err(error) => AbortOutcome::Fatal(error),
        }),
{
    match aborted {
        Ok(_) => AbortOutcome::Done,
        Err(error) => AbortOutcome::Fatal(error),
    }
}

/// The calls that a cleanup stands for.
pub open spec fn cleanup_calls<R>(cleanup: Cleanup<R>) -> Seq<RepoCall> {
    match cleanup {
        Cleanup::Nothing => Seq::empty(),
        Cleanup::Abort(_) => seq![RepoCall::Abort],
    }
}

/// The calls that the repository sees for one transaction, from the prepare
/// that succeeded to the end of `guard`.
pub open spec fn lifetime_calls<R>(guard: Transaction<R>, exit: Exit) -> Seq<RepoCall> {
    match exit {
        Exit::Released => seq![RepoCall::Prepare] + cleanup_calls(guard.release()),
        Exit::CommitSucceeded => seq![RepoCall::Prepare, RepoCall::Commit] + cleanup_calls(
            guard.marked(true).release(),
        ),
        Exit::CommitFailed => seq![RepoCall::Prepare, RepoCall::Commit] + cleanup_calls(
            guard.marked(false).release(),
        ),
    }
}

/// How the owner lets go of a guard when it commits and the repository
/// answers `committed`.
pub open spec fn exit_by_commit<S, E>(committed: Result<S, E>) -> Exit {
    if committed is Ok {
        Exit::CommitSucceeded
    } else {
        Exit::CommitFailed
    }
}

/// How often `call` occurs in `calls`.
pub open spec fn occurrences(calls: Seq<RepoCall>, call: RepoCall) -> nat
    decreases calls.len(),
{
    if calls.len() == 0 {
        0
    } else {
        occurrences(calls.drop_last(), call) + if calls.last() == call {
            1nat
        } else {
            0nat
        }
    }
}

/// How often the transaction behind `calls` came to an end: by a commit that
/// succeeded, or by an abort.
pub open spec fn endings(calls: Seq<RepoCall>, exit: Exit) -> nat {
    occurrences(calls, RepoCall::Abort) + if exit is CommitSucceeded {
        1nat
    } else {
        0nat
    }
}

proof fn lemma_occurrences_push(calls: Seq<RepoCall>, last: RepoCall, call: RepoCall)
    ensures
        occurrences(calls.push(last), call) == occurrences(calls, call) + if last == call {
            1nat
        } else {
            0nat
        },
{
    assert(calls.push(last).drop_last() =~= calls);
}

proof fn lemma_occurrences_of_two(first: RepoCall, second: RepoCall, call: RepoCall)
    ensures
        occurrences(seq![first, second], call) == (if first == call {
            1nat
        } else {
            0nat
        }) + (if second == call {
            1nat
        } else {
            0nat
        }),
{
    assert(seq![first, second] =~= Seq::<RepoCall>::empty().push(first).push(second));
    lemma_occurrences_push(Seq::<RepoCall>::empty().push(first), second, call);
    lemma_occurrences_push(Seq::<RepoCall>::empty(), first, call);
}

proof fn lemma_occurrences_of_three(
    first: RepoCall,
    second: RepoCall,
    third: RepoCall,
    call: RepoCall,
)
    ensures
        occurrences(seq![first, second, third], call) == occurrences(seq![first, second], call)
            + (if third == call {
            1nat
        } else {
            0nat
        }),
{
    assert(seq![first, second, third] =~= seq![first, second].push(third));
    lemma_occurrences_push(seq![first, second], third, call);
}

/// The flag of a guard is set by a commit that succeeded and by nothing
/// else.
pub proof fn law_finished_by_successful_commit_only<R>(
    repo: &R,
    guard: Transaction<R>,
    succeeded: bool,
)
    ensures
        !Transaction::fresh(repo).is_finished(),
        guard.marked(succeeded).is_finished() == (guard.is_finished() || succeeded),
        guard.marked(succeeded).repo() == guard.repo(),
{
}

/// A guard is made exactly when the preparation succeeded. Let go without a
/// commit, it has its repository abort exactly once and commit never.
pub proof fn law_release_aborts_once<R, P, E>(repo: &R, prepared: Result<P, E>)
    ensures
        match Transaction::new(repo, prepared) {
            Ok(guard) => {
                let calls = lifetime_calls(guard, Exit::Released);
                &&& prepared is Ok
                &&& guard.release() == Cleanup::Abort(repo)
                &&& calls == seq![RepoCall::Prepare, RepoCall::Abort]
                &&& occurrences(calls, RepoCall::Abort) == 1
                &&& occurrences(calls, RepoCall::Commit) == 0
            },
            Err(error) => prepared == Err::<P, E>(error),
        },
{
    if prepared is Ok {
        let calls = lifetime_calls(Transaction::fresh(repo), Exit::Released);
        assert(calls =~= seq![RepoCall::Prepare, RepoCall::Abort]);
        lemma_occurrences_of_two(RepoCall::Prepare, RepoCall::Abort, RepoCall::Abort);
        lemma_occurrences_of_two(RepoCall::Prepare, RepoCall::Abort, RepoCall::Commit);
    }
}

/// A commit that succeeds leaves nothing to abort: neither the commit nor
/// the end of the guard, which goes with it, asks for one.
pub proof fn law_commit_success_never_aborts<R, S, E>(
    guard: Transaction<R>,
    committed: Result<S, E>,
)
    requires
        !guard.is_finished(),
        committed is Ok,
    ensures
        guard.commit(committed) == (Ok::<(), E>(()), Cleanup::<R>::Nothing),
        lifetime_calls(guard, exit_by_commit(committed)) == seq![
            RepoCall::Prepare,
            RepoCall::Commit,
        ],
        occurrences(lifetime_calls(guard, exit_by_commit(committed)), RepoCall::Abort) == 0,
{
    let calls = lifetime_calls(guard, exit_by_commit(committed));
    assert(calls =~= seq![RepoCall::Prepare, RepoCall::Commit]);
    lemma_occurrences_of_two(RepoCall::Prepare, RepoCall::Commit, RepoCall::Abort);
}

/// A commit that fails hands its error on, and the guard, which goes with
/// it, still has the transaction aborted, exactly once.
pub proof fn law_commit_failure_aborts_once<R, S, E>(
    guard: Transaction<R>,
    committed: Result<S, E>,
)
    requires
        !guard.is_finished(),
        committed is Err,
    ensures
        guard.commit(committed) == (Err::<(), E>(committed->Err_0), Cleanup::Abort(guard.repo())),
        lifetime_calls(guard, exit_by_commit(committed)) == seq![
            RepoCall::Prepare,
            RepoCall::Commit,
            RepoCall::Abort,
        ],
        occurrences(lifetime_calls(guard, exit_by_commit(committed)), RepoCall::Abort) == 1,
        occurrences(lifetime_calls(guard, exit_by_commit(committed)), RepoCall::Commit) == 1,
{
    let calls = lifetime_calls(guard, exit_by_commit(committed));
    assert(calls =~= seq![RepoCall::Prepare, RepoCall::Commit, RepoCall::Abort]);
    lemma_occurrences_of_two(RepoCall::Prepare, RepoCall::Commit, RepoCall::Abort);
    lemma_occurrences_of_two(RepoCall::Prepare, RepoCall::Commit, RepoCall::Commit);
    lemma_occurrences_of_three(
        RepoCall::Prepare,
        RepoCall::Commit,
        RepoCall::Abort,
        RepoCall::Abort,
    );
    lemma_occurrences_of_three(
        RepoCall::Prepare,
        RepoCall::Commit,
        RepoCall::Abort,
        RepoCall::Commit,
    );
}

/// Whichever way a guard goes, its transaction was prepared once and ends
/// exactly once: by the commit that succeeded, or else by one abort.
pub proof fn law_every_transaction_ends_once<R>(guard: Transaction<R>, exit: Exit)
    requires
        !guard.is_finished(),
    ensures
        endings(lifetime_calls(guard, exit), exit) == 1,
        occurrences(lifetime_calls(guard, exit), RepoCall::Prepare) == 1,
{
    let calls = lifetime_calls(guard, exit);
    match exit {
        Exit::Released => {
            assert(calls =~= seq![RepoCall::Prepare, RepoCall::Abort]);
            lemma_occurrences_of_two(RepoCall::Prepare, RepoCall::Abort, RepoCall::Abort);
            lemma_occurrences_of_two(RepoCall::Prepare, RepoCall::Abort, RepoCall::Prepare);
        },
        Exit::CommitSucceeded => {
            assert(calls =~= seq![RepoCall::Prepare, RepoCall::Commit]);
            lemma_occurrences_of_two(RepoCall::Prepare, RepoCall::Commit, RepoCall::Abort);
            lemma_occurrences_of_two(RepoCall::Prepare, RepoCall::Commit, RepoCall::Prepare);
        },
        Exit::CommitFailed => {
            assert(calls =~= seq![RepoCall::Prepare, RepoCall::Commit, RepoCall::Abort]);
            lemma_occurrences_of_two(RepoCall::Prepare, RepoCall::Commit, RepoCall::Abort);
            lemma_occurrences_of_two(RepoCall::Prepare, RepoCall::Commit, RepoCall::Prepare);
            lemma_occurrences_of_three(
                RepoCall::Prepare,
                RepoCall::Commit,
                RepoCall::Abort,
                RepoCall::Abort,
            );
            lemma_occurrences_of_three(
                RepoCall::Prepare,
                RepoCall::Commit,
                RepoCall::Abort,
                RepoCall::Prepare,
            );
        },
    }
}

} // verus!
