//! Lookup of a path in a tree of named children.
//!
//! The tree itself stays with the caller, who hands over the one thing that is
//! asked of it: a function that looks a name up in a tree and returns the
//! file and the subtree of that name, as far as there are any.

use vstd::prelude::*;
use vstd::slice::slice_subrange;

verus! {

/// What a tree holds under one name: the file of that name and the subtree
/// of that name, as far as there are any.
pub type Entry<V, T> = (Option<V>, Option<T>);

/// Why a lookup found nothing.
#[derive(Debug, PartialEq, Eq)]
pub enum LookupError<E> {
    /// The path has no segment.
    NoPath,
    /// A segment before the last names no subtree.
    SubdirectoryNotFound,
    /// The last segment names no file.
    FileNotFound,
    /// The tree itself refused a lookup.
    Tree(E),
}

/// What the lookup of one segment leads to.
#[derive(Debug, PartialEq, Eq)]
pub enum Descent<T, V, E> {
    /// The walk goes on in this subtree.
    Into(T),
    /// The walk is over, with this result.
    End(Result<Entry<V, T>, LookupError<E>>),
}

/// What follows when a segment was looked up and the tree answered `found`:
/// the last segment's answer is the result, and any segment before it must
/// name a subtree to go on in.
pub open spec fn spec_descend<T, V, E>(
    found: Result<Entry<V, T>, E>,
    last: bool,
) -> Descent<T, V, E> {
    match found {
        Err(error) => Descent::End(Err(LookupError::Tree(error))),
        Ok(entry) => if last {
            Descent::End(Ok(entry))
        } else {
            match entry.1 {
                Some(subtree) => Descent::Into(subtree),
                None => Descent::End(Err(LookupError::SubdirectoryNotFound)),
            }
        },
    }
}

/// Decides what follows the lookup of one segment.
#[verifier::when_used_as_spec(spec_descend)]
pub fn descend<T, V, E>(found: Result<Entry<V, T>, E>, last: bool) -> (descent: Descent<T, V, E>)
    ensures
        descent == descend(found, last),
{
    match found {
        Err(error) => Descent::End(Err(LookupError::Tree(error))),
        Ok(entry) => {
            if last {
                Descent::End(Ok(entry))
            } else {
                match entry.1 {
                    Some(subtree) => Descent::Into(subtree),
                    None => Descent::End(Err(LookupError::SubdirectoryNotFound)),
                }
            }
        },
    }
}

/// `result` is an answer to the lookup of `path` in `tree`: the outcome of
/// walking down from `tree`, one segment after the other, where
/// `answers(tree, name, found)` says that the tree may answer `found` when
/// `name` is looked up in `tree`.
pub open spec fn lookup_gives<T, V, E>(
    answers: spec_fn(T, &str, Result<Entry<V, T>, E>) -> bool,
    tree: T,
    path: Seq<&str>,
    result: Result<Entry<V, T>, LookupError<E>>,
) -> bool
    decreases path.len(),
{
    if path.len() == 0 {
        result == Err::<Entry<V, T>, LookupError<E>>(LookupError::NoPath)
    } else {
        let last = path.len() == 1;
        exists|found: Result<Entry<V, T>, E>|
            answers(tree, path[0], found) && match #[trigger] spec_descend(found, last) {
                Descent::End(end) => result == end,
                Descent::Into(subtree) => lookup_gives(answers, subtree, path.skip(1), result),
            }
    }
}

/// The errors of a lookup tell its failures apart: that no path was given
/// is said of an empty path and of no other; that a subdirectory was not
/// found is said only of a path of two segments or more; and that a file was
/// not found is never said of a lookup that was not for a file.
pub proof fn law_lookup_errors_are_distinct<T, V, E>(
    answers: spec_fn(T, &str, Result<Entry<V, T>, E>) -> bool,
    tree: T,
    path: Seq<&str>,
    result: Result<Entry<V, T>, LookupError<E>>,
)
    requires
        lookup_gives(answers, tree, path, result),
    ensures
        result == Err::<Entry<V, T>, LookupError<E>>(LookupError::NoPath) <==> path.len() == 0,
        result == Err::<Entry<V, T>, LookupError<E>>(LookupError::SubdirectoryNotFound)
            ==> path.len() >= 2,
        result != Err::<Entry<V, T>, LookupError<E>>(LookupError::FileNotFound),
    decreases path.len(),
{
    if path.len() > 0 {
        let last = path.len() == 1;
        let found = choose|found: Result<Entry<V, T>, E>|
            answers(tree, path[0], found) && match #[trigger] spec_descend(found, last) {
                Descent::End(end) => result == end,
                Descent::Into(subtree) => lookup_gives(answers, subtree, path.skip(1), result),
            };
        match spec_descend(found, last) {
            Descent::End(end) => {},
            Descent::Into(subtree) => {
                law_lookup_errors_are_distinct(answers, subtree, path.skip(1), result);
            },
        }
    }
}

/// Looks `path` up in `mtree`, segment by segment.
///
/// An empty path is an error. Every segment but the last must name a subtree,
/// in which the walk goes on; the answer of the tree for the last segment is
/// returned as it is. An error of the tree ends the walk and is handed on.
pub fn mtree_lookup<T, V, E, F>(mtree: &T, path: &[&str], lookup: &F) -> (result: Result<
    Entry<V, T>,
    LookupError<E>,
>) where F: Fn(&T, &str) -> Result<Entry<V, T>, E>,

    requires
        forall|tree: &T, i: int| 0 <= i < path.len() ==> call_requires(*lookup, (tree, path[i])),
    ensures
        lookup_gives(
            |tree: T, name: &str, found: Result<Entry<V, T>, E>|
                call_ensures(*lookup, (&tree, name), found),
            *mtree,
            path@,
            result,
        ),
    decreases path.len(),
{
    if path.len() == 0 {
        return Err(LookupError::NoPath);
    }
    let found = lookup(mtree, path[0]);
    match descend(found, path.len() == 1) {
        Descent::End(end) => end,
        Descent::Into(subtree) => {
            let rest = slice_subrange(path, 1, path.len());
            let result = mtree_lookup(&subtree, rest, lookup);
            assert(rest@ == path@.skip(1));
            result
        },
    }
}

/// The file of an answer: the file that was found, or the error that none
/// was.
pub open spec fn spec_file_of<T, V, E>(whole: Result<Entry<V, T>, LookupError<E>>) -> Result<
    V,
    LookupError<E>,
> {
    match whole {
        Err(error) => Err(error),
        Ok(entry) => match entry.0 {
            Some(file) => Ok(file),
            None => Err(LookupError::FileNotFound),
        },
    }
}

/// Picks the file out of an answer; that there is none is an error.
#[verifier::when_used_as_spec(spec_file_of)]
pub fn file_of<T, V, E>(whole: Result<Entry<V, T>, LookupError<E>>) -> (file: Result<
    V,
    LookupError<E>,
>)
    ensures
        file == file_of(whole),
{
    match whole {
        Err(error) => Err(error),
        Ok(entry) => match entry.0 {
            Some(file) => Ok(file),
            None => Err(LookupError::FileNotFound),
        },
    }
}

/// Looks `path` up in `mtree` as [`mtree_lookup`] does and returns the file
/// that the last segment names. That it names none is an error.
pub fn mtree_lookup_file<T, V, E, F>(mtree: &T, path: &[&str], lookup: &F) -> (file: Result<
    V,
    LookupError<E>,
>) where F: Fn(&T, &str) -> Result<Entry<V, T>, E>,

    requires
        forall|tree: &T, i: int| 0 <= i < path.len() ==> call_requires(*lookup, (tree, path[i])),
    ensures
        exists|whole: Result<Entry<V, T>, LookupError<E>>|
            lookup_gives(
                |tree: T, name: &str, found: Result<Entry<V, T>, E>|
                    call_ensures(*lookup, (&tree, name), found),
                *mtree,
                path@,
                whole,
            ) && file == #[trigger] spec_file_of(whole),
{
    let whole = mtree_lookup(mtree, path, lookup);
    let ghost found = whole;
    let file = file_of(whole);
    assert(file == spec_file_of(found));
    file
}

impl<E> LookupError<E> {
    /// The words for this error, where the walk itself gave it. An error of
    /// the tree brings its own.
    pub fn message(&self) -> (text: Option<&'static str>)
        ensures
            match *self {
                LookupError::NoPath => text matches Some(t) && t@ == "no path given"@,
                LookupError::SubdirectoryNotFound => text matches Some(t) && t@
                    == "subdirectory not found"@,
                LookupError::FileNotFound => text matches Some(t) && t@ == "file not found"@,
                LookupError::Tree(_) => text is None,
            },
    {
        match self {
            LookupError::NoPath => Some("no path given"),
            LookupError::SubdirectoryNotFound => Some("subdirectory not found"),
            LookupError::FileNotFound => Some("file not found"),
            LookupError::Tree(_) => None,
        }
    }
}

} // verus!
