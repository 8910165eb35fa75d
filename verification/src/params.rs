//! Query parameters that several routes read the same way.

use vstd::prelude::*;

use crate::request::pairs;
use crate::text::{one_of, opt_text, same, texts};

verus! {

/// The first parameter that is not among `allowed`.
pub open spec fn stray(q: Seq<(Seq<char>, Seq<char>)>, allowed: Seq<Seq<char>>) -> Option<
    Seq<char>,
>
    decreases q.len(),
{
    if q.len() == 0 {
        None
    } else if !allowed.contains(q[0].0) {
        Some(q[0].0)
    } else {
        stray(q.skip(1), allowed)
    }
}

/// [`stray`].
pub fn find_stray<'a>(q: &'a Vec<(String, String)>, allowed: &[&str]) -> (r: Option<&'a str>)
    ensures
        opt_text(r) == stray(pairs(q@), texts(allowed@)),
{
    let ghost f = pairs(q@);
    let ghost a = texts(allowed@);
    assert(f.skip(0) =~= f);
    let mut i: usize = 0;
    while i < q.len()
        invariant
            f == pairs(q@),
            a == texts(allowed@),
            i <= q@.len(),
            stray(f, a) == stray(f.skip(i as int), a),
        decreases q@.len() - i,
    {
        let ghost rest = f.skip(i as int);
        assert(rest[0] == f[i as int]);
        assert(rest.skip(1) =~= f.skip(i + 1));
        let k = q[i].0.as_str();
        if !one_of(k, allowed) {
            return Some(k);
        }
        i += 1;
    }
    None
}

/// The first parameter that is neither allowed nor the token, which any read may carry.
pub fn find_other<'a>(q: &'a Vec<(String, String)>, allowed: &[&str]) -> (r: Option<&'a str>)
    ensures
        opt_text(r) == stray(pairs(q@), texts(allowed@).push("token"@)),
{
    let ghost f = pairs(q@);
    let ghost a = texts(allowed@).push("token"@);
    assert(f.skip(0) =~= f);
    let mut i: usize = 0;
    while i < q.len()
        invariant
            f == pairs(q@),
            a == texts(allowed@).push("token"@),
            i <= q@.len(),
            stray(f, a) == stray(f.skip(i as int), a),
        decreases q@.len() - i,
    {
        let ghost rest = f.skip(i as int);
        let k = q[i].0.as_str();
        proof {
            assert(rest[0] == f[i as int]);
            assert(rest.skip(1) =~= f.skip(i + 1));
            assert(a.contains(k@) <==> (k@ == "token"@ || texts(allowed@).contains(k@))) by {
                let t = texts(allowed@);
                assert(a[t.len() as int] == "token"@);
                if t.contains(k@) {
                    let j = choose|j: int| 0 <= j < t.len() && t[j] == k@;
                    assert(a[j] == k@);
                }
                if a.contains(k@) {
                    let j = choose|j: int| 0 <= j < a.len() && a[j] == k@;
                    if j < t.len() {
                        assert(t[j] == k@);
                    }
                }
            }
        }
        if !same(k, "token") && !one_of(k, allowed) {
            return Some(k);
        }
        i += 1;
    }
    None
}

/// No parameter is stray where each one is allowed.
pub proof fn allowed_parameters_are_not_stray(
    q: Seq<(Seq<char>, Seq<char>)>,
    allowed: Seq<Seq<char>>,
)
    ensures
        stray(q, allowed) is None <==> forall|i: int|
            0 <= i < q.len() ==> allowed.contains((#[trigger] q[i]).0),
    decreases q.len(),
{
    if q.len() > 0 {
        let rest = q.skip(1);
        allowed_parameters_are_not_stray(rest, allowed);
        assert forall|i: int| 0 <= i < rest.len() implies #[trigger] rest[i] == q[i + 1] by {}
        if allowed.contains(q[0].0) {
            if stray(q, allowed) is None {
                assert forall|i: int| 0 <= i < q.len() implies allowed.contains(
                    (#[trigger] q[i]).0,
                ) by {
                    if i > 0 {
                        assert(allowed.contains(rest[i - 1].0));
                    }
                }
            } else {
                let i = choose|i: int|
                    0 <= i < rest.len() && !allowed.contains((#[trigger] rest[i]).0);
                assert(!allowed.contains(q[i + 1].0));
            }
        }
    }
}

/// The parameter that is named is the first that is not allowed.
pub proof fn the_first_stray_is_named(
    q: Seq<(Seq<char>, Seq<char>)>,
    allowed: Seq<Seq<char>>,
    i: int,
)
    requires
        0 <= i < q.len(),
        !allowed.contains(q[i].0),
        forall|j: int| 0 <= j < i ==> allowed.contains((#[trigger] q[j]).0),
    ensures
        stray(q, allowed) == Some(q[i].0),
    decreases i,
{
    if i > 0 {
        let t = q.skip(1);
        assert(allowed.contains(q[0].0));
        assert(t[i - 1] == q[i]);
        assert forall|j: int| 0 <= j < i - 1 implies allowed.contains((#[trigger] t[j]).0) by {
            assert(t[j] == q[j + 1]);
        }
        the_first_stray_is_named(t, allowed, i - 1);
    }
}

} // verus!
