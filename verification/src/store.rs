//! What the services and stores of a server have in common: what was asked of one, and answers to
//! what one refuses.

use vstd::prelude::*;

use crate::body::{fail_v, invalid_v, Fail, FailV};
use crate::command::RepoError;

verus! {

/// What was asked of a service through a handle so far, each with its answer, where the service
/// does not say what it keeps: some record of the handle. It fixes nothing, being a choice among
/// all records; a contract that speaks of it says only how two records of one handle differ. A
/// service with a contract of its own says what it keeps instead.
pub closed spec fn record<C: ?Sized, Q, A>(handle: &C) -> Seq<(Q, A)> {
    choose|dealings: Seq<(Q, A)>| #[trigger] belongs(handle, dealings)
}

spec fn belongs<C: ?Sized, Q, A>(handle: &C, dealings: Seq<(Q, A)>) -> bool {
    true
}

/// One more dealing with a service: this was asked and so answered, and nothing else was asked.
pub open spec fn dealt<Q, A>(
    before: Seq<(Q, A)>,
    after: Seq<(Q, A)>,
    asked: Q,
    answer: A,
) -> bool {
    after == before.push((asked, answer))
}

/// What a store's error is answered with: `what` names the store, `not_found` the row.
pub open spec fn store_fail_of(e: RepoError, what: Seq<char>, not_found: Seq<char>) -> FailV {
    match e {
        RepoError::NotFound => fail_v(404, "not_found"@, not_found),
        RepoError::Invalid(m) => invalid_v(m@),
        RepoError::Other(m) => fail_v(500, "failed"@, what + ": "@ + m@),
    }
}

/// [`store_fail_of`].
pub fn store_fail(e: RepoError, what: &str, not_found: &str) -> (r: Fail)
    ensures
        r@ == store_fail_of(e, what@, not_found@),
{
    match e {
        RepoError::NotFound => Fail::of(404, "not_found", not_found),
        RepoError::Invalid(m) => Fail::new(400, "invalid", m),
        RepoError::Other(m) => {
            let m = String::from_str(what).concat(": ").concat(m.as_str());
            Fail::new(500, "failed", m)
        },
    }
}

/// What a read of a store gives, its error answered.
pub open spec fn stored<T>(r: Result<T, RepoError>, what: Seq<char>, not_found: Seq<char>) -> Result<
    T,
    FailV,
> {
    match r {
        Ok(x) => Ok(x),
        Err(e) => Err(store_fail_of(e, what, not_found)),
    }
}

/// A store that must be there.
pub open spec fn open_of(present: bool, missing: Seq<char>) -> Result<(), FailV> {
    if present {
        Ok(())
    } else {
        Err(fail_v(503, "unavailable"@, missing))
    }
}

/// [`open_of`].
pub fn open_store(present: bool, missing: &str) -> (r: Result<(), Fail>)
    ensures
        crate::body::outcome(r) == open_of(present, missing@),
{
    if present {
        Ok(())
    } else {
        Err(Fail::of(503, "unavailable", missing))
    }
}

/// A store that is not there is unavailable; what it refuses is not found, invalid or failed, as it
/// says, and what it answers is passed on.
pub proof fn a_store_answers_for_itself<T>(
    x: T,
    e: RepoError,
    what: Seq<char>,
    not_found: Seq<char>,
    present: bool,
)
    ensures
        stored(Ok(x), what, not_found) == Ok::<T, FailV>(x),
        stored::<T>(Err(e), what, not_found) matches Err(f) && {
            &&& e is NotFound ==> f.status == 404 && f.message == not_found
            &&& e matches RepoError::Invalid(m) ==> f.status == 400 && f.message == m@
            &&& e matches RepoError::Other(m) ==> f.status == 500 && f.message == what + ": "@ + m@
        },
        open_of(present, what) is Ok == present,
        open_of(present, what) matches Err(f) ==> f.status == 503 && f.message == what,
{
}

} // verus!
