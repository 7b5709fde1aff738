use std::cell::RefCell;

use repo_support::transaction::{after_abort, AbortOutcome, Cleanup, RepoCall, Transaction};

/// A repository that records what it is asked, and a scope guard over it
/// that asks the library what to do.
#[derive(Debug, PartialEq, Eq)]
struct Repo {
    calls: RefCell<Vec<RepoCall>>,
    prepare_fails: bool,
    commit_fails: bool,
}

impl Repo {
    fn new(prepare_fails: bool, commit_fails: bool) -> Repo {
        Repo { calls: RefCell::new(Vec::new()), prepare_fails, commit_fails }
    }

    fn call(&self, call: RepoCall, fails: bool) -> Result<(), String> {
        self.calls.borrow_mut().push(call);
        if fails {
            Err(format!("{:?} failed", call))
        } else {
            Ok(())
        }
    }
}

struct Scoped<'a> {
    guard: Option<Transaction<'a, Repo>>,
}

fn perform(cleanup: Cleanup<Repo>) {
    if let Cleanup::Abort(repo) = cleanup {
        assert_eq!(after_abort(repo.call(RepoCall::Abort, false)), AbortOutcome::Done);
    }
}

impl<'a> Scoped<'a> {
    fn new(repo: &'a Repo) -> Result<Scoped<'a>, String> {
        let guard = Transaction::new(repo, repo.call(RepoCall::Prepare, repo.prepare_fails))?;
        Ok(Scoped { guard: Some(guard) })
    }

    fn commit(mut self) -> Result<(), String> {
        let guard = self.guard.take().unwrap();
        let repo = guard.repo();
        let (result, cleanup) = guard.commit(repo.call(RepoCall::Commit, repo.commit_fails));
        perform(cleanup);
        result
    }
}

impl Drop for Scoped<'_> {
    fn drop(&mut self) {
        if let Some(guard) = self.guard.take() {
            perform(guard.release());
        }
    }
}

fn leave_early(repo: &Repo, fail: bool) -> Result<u8, String> {
    let scoped = Scoped::new(repo)?;
    if fail {
        return Err("no".to_string());
    }
    scoped.commit()?;
    Ok(1)
}

#[test]
fn new_hands_on_the_error_of_prepare() {
    let guard = Transaction::new::<(), &str>(&"repo", Err("locked"));
    assert_eq!(guard.err(), Some("locked"));
}

#[test]
fn new_ignores_what_prepare_carried() {
    assert!(Transaction::new::<bool, &str>(&"repo", Ok(true)).is_ok());
    assert!(Transaction::new::<bool, &str>(&"repo", Ok(false)).is_ok());
}

#[test]
fn new_binds_the_guard_to_its_repository() {
    let one = 1u8;
    let other = 2u8;
    let guard = Transaction::new::<(), &str>(&one, Ok(())).unwrap();
    assert!(std::ptr::eq(guard.repo(), &one));
    assert!(!std::ptr::eq(guard.repo(), &other));
    assert_eq!(guard.release(), Cleanup::Abort(&one));
}

#[test]
fn released_guard_asks_for_abort() {
    let guard = Transaction::new::<(), &str>(&"repo", Ok(())).unwrap();
    assert_eq!(guard.release(), Cleanup::Abort(&"repo"));
}

#[test]
fn commit_success_leaves_nothing_to_do() {
    let guard = Transaction::new::<(), &str>(&"repo", Ok(())).unwrap();
    assert_eq!(guard.commit::<u32, &str>(Ok(17)), (Ok(()), Cleanup::Nothing));
}

#[test]
fn commit_failure_hands_on_the_error_and_asks_for_abort() {
    let guard = Transaction::new::<(), &str>(&"repo", Ok(())).unwrap();
    assert_eq!(
        guard.commit::<(), &str>(Err("disk full")),
        (Err("disk full"), Cleanup::Abort(&"repo"))
    );
}

#[test]
fn abort_failure_is_fatal() {
    assert_eq!(after_abort::<(), &str>(Ok(())), AbortOutcome::Done);
    assert_eq!(after_abort::<(), &str>(Err("gone")), AbortOutcome::Fatal("gone"));
}

#[test]
fn dropped_scope_aborts_once_and_never_commits() {
    let repo = Repo::new(false, false);
    {
        let _scoped = Scoped::new(&repo).unwrap();
    }
    assert_eq!(*repo.calls.borrow(), vec![RepoCall::Prepare, RepoCall::Abort]);
}

#[test]
fn early_return_aborts_once() {
    let repo = Repo::new(false, false);
    assert_eq!(leave_early(&repo, true), Err("no".to_string()));
    assert_eq!(*repo.calls.borrow(), vec![RepoCall::Prepare, RepoCall::Abort]);
}

#[test]
fn committed_scope_never_aborts() {
    let repo = Repo::new(false, false);
    assert_eq!(leave_early(&repo, false), Ok(1));
    assert_eq!(*repo.calls.borrow(), vec![RepoCall::Prepare, RepoCall::Commit]);
}

#[test]
fn failed_commit_still_aborts_once() {
    let repo = Repo::new(false, true);
    assert_eq!(leave_early(&repo, false), Err("Commit failed".to_string()));
    assert_eq!(
        *repo.calls.borrow(),
        vec![RepoCall::Prepare, RepoCall::Commit, RepoCall::Abort]
    );
}

#[test]
fn failed_prepare_leaves_no_guard_and_no_cleanup() {
    let repo = Repo::new(true, false);
    assert_eq!(leave_early(&repo, false), Err("Prepare failed".to_string()));
    assert_eq!(*repo.calls.borrow(), vec![RepoCall::Prepare]);
}
