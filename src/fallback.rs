//! Retrying a failed operation on a relative path with the path read from
//! the root. Some stores take only paths relative to their own root while
//! guest programs use either form; this makes both work.

use vstd::prelude::*;
use crate::path::{is_absolute, is_absolute_path, rooted, rooted_path};

verus! {

/// The form a path is retried in: a relative path is read from the root,
/// an absolute one stays as it is.
pub open spec fn absolute_form(p: Seq<char>) -> Seq<char> {
    if is_absolute(p) {
        p
    } else {
        rooted(p)
    }
}

/// What `execute` promises of its result `r` for `operation` on `path`:
/// either the first attempt's outcome, kept because it succeeded or the
/// path was absolute; or, after a failed first attempt on a relative path,
/// the outcome of the attempt on the rooted path.
pub open spec fn fallback_result<T, E, F: Fn(&str) -> Result<T, E>>(
    operation: F,
    path: &str,
    r: Result<T, E>,
) -> bool {
    ||| operation.ensures((path,), r) && (r is Ok || is_absolute(path@))
    ||| !is_absolute(path@) && (exists|e: Result<T, E>|
        #[trigger] operation.ensures((path,), e) && e is Err) && (exists|q: &str|
        q@ == rooted(path@) && #[trigger] operation.ensures((q,), r))
}

/// Runs `operation` on `path`; if that fails and `path` is relative, runs
/// it once more on "/" followed by `path` and returns that outcome.
pub fn execute<T, E, F: Fn(&str) -> Result<T, E>>(path: &str, operation: &F) -> (r: Result<T, E>)
    requires
        forall|p: &str| operation.requires((p,)),
    ensures
        fallback_result(*operation, path, r),
{
    let first = operation(path);
    if first.is_err() && !is_absolute_path(path) {
        let retry = rooted_path(path);
        let second = operation(retry.as_str());
        assert(operation.ensures((path,), first));
        second
    } else {
        first
    }
}

/// The pair of paths a rename is retried with after it failed: each
/// relative one read from the root; none when both are absolute already.
pub fn retry_pair(from: &str, to: &str) -> (r: Option<(String, String)>)
    ensures
        r is None <==> is_absolute(from@) && is_absolute(to@),
        r matches Some((f, t)) ==> f@ == absolute_form(from@) && t@ == absolute_form(to@),
{
    let from_abs = is_absolute_path(from);
    let to_abs = is_absolute_path(to);
    if from_abs && to_abs {
        None
    } else {
        let f = if from_abs {
            String::from_str(from)
        } else {
            rooted_path(from)
        };
        let t = if to_abs {
            String::from_str(to)
        } else {
            rooted_path(to)
        };
        Some((f, t))
    }
}

/// An operation that fails on a relative path and gives `v` on its rooted
/// form gives `v` through the fallback.
pub proof fn lemma_fallback_uses_rooted<T, E, F: Fn(&str) -> Result<T, E>>(
    operation: F,
    path: &str,
    v: Result<T, E>,
    r: Result<T, E>,
)
    requires
        !is_absolute(path@),
        v is Ok,
        forall|e: Result<T, E>| operation.ensures((path,), e) ==> e is Err,
        forall|q: &str, e: Result<T, E>| q@ == rooted(path@) && operation.ensures((q,), e) ==> e == v,
        fallback_result(operation, path, r),
    ensures
        r == v,
{
}

/// An operation that succeeds with `w` on the path as given gives `w`
/// through the fallback: the result of the direct call, never a retried one.
pub proof fn lemma_fallback_keeps_success<T, E, F: Fn(&str) -> Result<T, E>>(
    operation: F,
    path: &str,
    w: Result<T, E>,
    r: Result<T, E>,
)
    requires
        w is Ok,
        forall|e: Result<T, E>| operation.ensures((path,), e) ==> e == w,
        fallback_result(operation, path, r),
    ensures
        r == w,
{
}

} // verus!
