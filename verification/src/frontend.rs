//! Front-end events over a time window: energy of the front end itself, never a signal's.

use vstd::prelude::*;

use crate::body::{invalid_v, outcome, read_result, Fail, FailV};
use crate::double::{parse_real, text_real, Real, ZERO};
use crate::json::{
    as_text, at, items_view, items_view_each, member_is_the_first, no_fields, real_v, uint_v,
    Fields, Items, Json, JsonV,
};
use crate::params::{find_stray, stray};
use crate::request::{find_value, pairs, value_of};
use crate::store::{open_of, open_store};
use crate::text::{
    decimal, numbers_are_read_as_they_are_written, opt_text, parse_unsigned, same, texts, unsigned,
};

verus! {

/// The size of an answer that names none.
pub const DEFAULT_LIMIT: usize = 256;

/// The largest size of an answer.
pub const MAX_LIMIT: usize = 1024;

/// What a method and a path are: `None` where the path is another's; else the method that is
/// allowed, where this one is not.
pub open spec fn resolved(method: Seq<char>, path: Seq<char>) -> Option<Result<(), Seq<char>>> {
    if path != "/api/frontend/events"@ {
        None
    } else if method == "GET"@ {
        Some(Ok(()))
    } else {
        Some(Err("GET"@))
    }
}

/// [`resolved`].
pub fn resolve(method: &str, path: &str) -> (r: Option<Result<(), &'static str>>)
    ensures
        match r {
            None => resolved(method@, path@) is None,
            Some(Ok(_)) => resolved(method@, path@) == Some(Ok::<(), Seq<char>>(())),
            Some(Err(allow)) => resolved(method@, path@) == Some(Err::<(), Seq<char>>(allow@)),
        },
{
    if !same(path, "/api/frontend/events") {
        return None;
    }
    Some(
        if same(method, "GET") {
            Ok(())
        } else {
            Err("GET")
        },
    )
}

/// The first value of a parameter.
pub fn param<'a>(q: &'a Vec<(String, String)>, key: &str) -> (r: Option<&'a str>)
    ensures
        opt_text(r) == value_of(pairs(q@), key@),
{
    find_value(q.as_slice(), key)
}

/// A time among the parameters, which must be there.
pub open spec fn time_of(q: Seq<(Seq<char>, Seq<char>)>, key: Seq<char>) -> Result<Real, FailV> {
    match value_of(q, key) {
        None => Err(invalid_v(key + " is required (Unix s)"@)),
        Some(v) => match text_real(v) {
            Some(x) => if (Real { bits: ZERO }).at_most(x) {
                Ok(x)
            } else {
                Err(invalid_v(key + " must be a non-negative number (Unix s)"@))
            },
            None => Err(invalid_v(key + " must be a non-negative number (Unix s)"@)),
        },
    }
}

fn time(q: &Vec<(String, String)>, key: &str) -> (r: Result<Real, Fail>)
    ensures
        outcome(r) == time_of(pairs(q@), key@),
{
    let zero = Real { bits: ZERO };
    match param(q, key) {
        None => {
            let m = String::from_str(key).concat(" is required (Unix s)");
            Err(Fail::new(400, "invalid", m))
        },
        Some(v) => {
            if let Some(x) = parse_real(v) {
                if zero.le(x) {
                    return Ok(x);
                }
            }
            let m = String::from_str(key).concat(" must be a non-negative number (Unix s)");
            Err(Fail::new(400, "invalid", m))
        },
    }
}

/// The size of the answer.
pub open spec fn limit_of(q: Seq<(Seq<char>, Seq<char>)>) -> Result<usize, FailV> {
    match value_of(q, "limit"@) {
        None => Ok(DEFAULT_LIMIT),
        Some(v) => match unsigned(v, u64::MAX as nat) {
            Some(n) => if 1 <= n <= MAX_LIMIT {
                Ok(n as usize)
            } else {
                Err(invalid_v("limit must be 1..=1024"@))
            },
            None => Err(invalid_v("limit must be 1..=1024"@)),
        },
    }
}

fn read_limit(q: &Vec<(String, String)>) -> (r: Result<usize, Fail>)
    ensures
        outcome(r) == limit_of(pairs(q@)),
{
    match param(q, "limit") {
        None => Ok(DEFAULT_LIMIT),
        Some(v) => match parse_unsigned(v, u64::MAX) {
            Some(n) => if n >= 1 && n <= MAX_LIMIT as u64 {
                Ok(n as usize)
            } else {
                Err(Fail::invalid("limit must be 1..=1024"))
            },
            None => Err(Fail::invalid("limit must be 1..=1024")),
        },
    }
}

/// The parameters that are known.
pub open spec fn known() -> Seq<Seq<char>> {
    seq!["t0"@, "t1"@, "device"@, "limit"@, "token"@]
}

/// What is asked for.
#[derive(Clone, Copy, Debug, PartialEq, Eq, Structural)]
pub struct FrontEndQuery {
    /// From this time, s.
    pub t0: Real,
    /// Up to this time, s.
    pub t1: Real,
    /// How many events.
    pub limit: usize,
}

/// What a request asks for: `present` says that there is a log.
pub open spec fn query_of(q: Seq<(Seq<char>, Seq<char>)>, present: bool) -> Result<
    FrontEndQuery,
    FailV,
> {
    match stray(q, known()) {
        Some(_) => Err(invalid_v("unknown query parameter"@)),
        None => match time_of(q, "t0"@) {
            Err(f) => Err(f),
            Ok(t0) => match time_of(q, "t1"@) {
                Err(f) => Err(f),
                Ok(t1) => if t1.at_most(t0) {
                    Err(invalid_v("t1 must be after t0"@))
                } else {
                    match limit_of(q) {
                        Err(f) => Err(f),
                        Ok(limit) => match open_of(
                            present,
                            "no front-end event log on this server"@,
                        ) {
                            Err(f) => Err(f),
                            Ok(_) => Ok(FrontEndQuery { t0, t1, limit }),
                        },
                    }
                },
            },
        },
    }
}

/// [`query_of`].
pub fn plan_read(q: &Vec<(String, String)>, present: bool) -> (r: Result<FrontEndQuery, Fail>)
    ensures
        outcome(r) == query_of(pairs(q@), present),
{
    let allowed = ["t0", "t1", "device", "limit", "token"];
    assert(texts(allowed@) =~= known());
    if find_stray(q, &allowed).is_some() {
        return Err(Fail::invalid("unknown query parameter"));
    }
    let t0 = match time(q, "t0") {
        Ok(x) => x,
        Err(f) => return Err(f),
    };
    let t1 = match time(q, "t1") {
        Ok(x) => x,
        Err(f) => return Err(f),
    };
    if t1.le(t0) {
        return Err(Fail::invalid("t1 must be after t0"));
    }
    let limit = match read_limit(q) {
        Ok(n) => n,
        Err(f) => return Err(f),
    };
    match open_store(present, "no front-end event log on this server") {
        Ok(_) => Ok(FrontEndQuery { t0, t1, limit }),
        Err(f) => Err(f),
    }
}

/// An event is of a front end.
pub open spec fn of_device(event: JsonV, device: Seq<char>) -> bool {
    match at(event, "device_id"@) {
        Some(v) => as_text(v) == Some(device),
        None => false,
    }
}

/// The events of a front end, or all.
pub open spec fn selected(v: Seq<JsonV>, device: Option<Seq<char>>) -> Seq<JsonV>
    decreases v.len(),
{
    match device {
        None => v,
        Some(d) => if v.len() == 0 {
            v
        } else if of_device(v.last(), d) {
            selected(v.drop_last(), device).push(v.last())
        } else {
            selected(v.drop_last(), device)
        },
    }
}

/// The last of them.
pub open spec fn newest(v: Seq<JsonV>, limit: usize) -> Seq<JsonV> {
    if v.len() <= limit {
        v
    } else {
        v.skip(v.len() - limit)
    }
}

fn select(v: &Vec<Json>, device: Option<&str>) -> (r: Items)
    ensures
        r@ == selected(items_view(v@), opt_text(device)),
{
    let ghost all = items_view(v@);
    let ghost d = opt_text(device);
    proof {
        items_view_each(v@);
        assert(all.take(0) =~= Seq::empty());
    }
    let mut out = Items::new();
    let mut i: usize = 0;
    while i < v.len()
        invariant
            d == opt_text(device),
            all == items_view(v@),
            all.len() == v@.len(),
            forall|k: int| 0 <= k < v@.len() ==> all[k] == (#[trigger] v@[k]).view(),
            i <= v@.len(),
            out@ == selected(all.take(i as int), d),
        decreases v@.len() - i,
    {
        proof {
            assert(all.take(i + 1).drop_last() =~= all.take(i as int));
            assert(all.take(i + 1).last() == v@[i as int].view());
            assert(all.take(i + 1) =~= all.take(i as int).push(v@[i as int].view()));
        }
        let keep = match device {
            None => true,
            Some(d) => match v[i].get("device_id") {
                Some(x) => match x.string() {
                    Some(s) => same(s, d),
                    None => false,
                },
                None => false,
            },
        };
        if keep {
            out.push(v[i].copy());
        }
        i += 1;
    }
    assert(all.take(v@.len() as int) =~= all);
    out
}

/// The answer: the newest events of the window.
pub open spec fn answer_of(
    q: FrontEndQuery,
    device: Option<Seq<char>>,
    events: Seq<JsonV>,
    log: JsonV,
) -> JsonV {
    let chosen = selected(events, device);
    JsonV::Object(
        no_fields().push(
            (
                "window"@,
                JsonV::Object(
                    no_fields().push(("t0"@, real_v(q.t0))).push(("t1"@, real_v(q.t1))),
                ),
            ),
        ).push(("events"@, JsonV::Array(newest(chosen, q.limit)))).push(
            ("total"@, uint_v(chosen.len() as int)),
        ).push(("limit"@, uint_v(q.limit as int))).push(
            ("truncated"@, JsonV::Bool(chosen.len() > q.limit)),
        ).push(("log"@, log)),
    )
}

/// [`answer_of`].
pub fn answer(q: &FrontEndQuery, device: Option<&str>, events: &Vec<Json>, log: Json) -> (r: Json)
    ensures
        r.view() == answer_of(*q, opt_text(device), items_view(events@), log.view()),
{
    let chosen = select(events, device);
    let all = chosen.list;
    let ghost v = items_view(all@);
    proof {
        items_view_each(all@);
    }
    let total = all.len();
    let from: usize = if total <= q.limit {
        0
    } else {
        total - q.limit
    };
    let ghost want = newest(v, q.limit);
    assert(want =~= v.skip(from as int));
    let mut out = Items::new();
    let mut i: usize = from;
    assert(want.take(0) =~= Seq::empty());
    while i < total
        invariant
            total == all@.len(),
            v.len() == total,
            forall|k: int| 0 <= k < all@.len() ==> v[k] == (#[trigger] all@[k]).view(),
            want == v.skip(from as int),
            from <= i <= total,
            out@ == want.take(i - from),
        decreases total - i,
    {
        let x = all[i].copy();
        assert(want.take(i + 1 - from) =~= want.take(i - from).push(x.view()));
        out.push(x);
        i += 1;
    }
    assert(want.take(total - from) =~= want);
    let mut window = Fields::new();
    window.put("t0", Json::double(q.t0));
    window.put("t1", Json::double(q.t1));
    let mut f = Fields::new();
    f.put("window", window.object());
    f.put("events", out.array());
    f.put("total", Json::uint(total as u64));
    f.put("limit", Json::uint(q.limit as u64));
    f.put("truncated", Json::Bool(total > q.limit));
    f.put("log", log);
    f.object()
}

/// What is left out is the oldest: the answer ends as the selection does, and holds as much of it
/// as its size lets it.
pub proof fn the_newest_are_kept(v: Seq<JsonV>, limit: usize)
    ensures
        newest(v, limit).len() == (if v.len() <= limit {
            v.len()
        } else {
            limit as nat
        }),
        forall|k: int|
            1 <= k <= newest(v, limit).len() ==> newest(v, limit)[newest(v, limit).len() - k]
                == #[trigger] v[v.len() - k],
{
}

/// An event of another front end is never shown.
pub proof fn devices_stay_apart(v: Seq<JsonV>, device: Seq<char>)
    ensures
        forall|k: int|
            0 <= k < selected(v, Some(device)).len() ==> of_device(
                #[trigger] selected(v, Some(device))[k],
                device,
            ),
    decreases v.len(),
{
    if v.len() > 0 {
        let b = selected(v.drop_last(), Some(device));
        let w = selected(v, Some(device));
        devices_stay_apart(v.drop_last(), device);
        assert forall|k: int| 0 <= k < w.len() implies of_device(#[trigger] w[k], device) by {
            if k < b.len() {
                assert(w[k] == b[k]);
            }
        }
    }
}

// ---------------------------------------------------------------------------------------------
// The log
// ---------------------------------------------------------------------------------------------

/// The run's log of front-end events, as the API sees it.
pub trait FrontEndControl {
    /// The events that overlap the window from `t0_s` up to `t1_s`, oldest first.
    fn events(&self, t0_s: Real, t1_s: Real) -> (r: Vec<Json>);

    /// What the log holds, and the rule in force.
    fn log(&self) -> (r: Json);
}

/// What a read of the log may be answered with.
pub open spec fn answered_by<C: FrontEndControl + ?Sized>(
    c: &C,
    q: FrontEndQuery,
    device: Option<Seq<char>>,
    r: JsonV,
) -> bool {
    exists|events: Vec<Json>, log: Json|
        #![trigger call_ensures(C::events, (c, q.t0, q.t1), events), call_ensures(C::log, (c,), log)]
        call_ensures(C::events, (c, q.t0, q.t1), events) && call_ensures(C::log, (c,), log) && r
            == answer_of(q, device, items_view(events@), log.view())
}

/// The events that a query asks for: the log is read for its window, and for nothing else.
pub fn read<C: FrontEndControl + ?Sized>(control: Option<&C>, q: &Vec<(String, String)>) -> (r:
    Result<Json, Fail>)
    ensures
        match query_of(pairs(q@), control is Some) {
            Err(f) => read_result(r) == Err::<JsonV, FailV>(f),
            Ok(asked) => control matches Some(c) && read_result(r) matches Ok(v) && answered_by(
                c,
                asked,
                value_of(pairs(q@), "device"@),
                v,
            ),
        },
{
    let asked = match plan_read(q, control.is_some()) {
        Ok(asked) => asked,
        Err(f) => return Err(f),
    };
    match control {
        None => Err(Fail::of(503, "unavailable", "no front-end event log on this server")),
        Some(c) => {
            let events = c.events(asked.t0, asked.t1);
            let log = c.log();
            Ok(answer(&asked, param(q, "device"), &events, log))
        },
    }
}

/// What is asked of the log is of the times that were asked for, neither before the epoch and the
/// second after the first, and at most as many events as were asked for; two hundred and fifty-six
/// where no number was.
pub proof fn events_are_asked_for_as_written(q: Seq<(Seq<char>, Seq<char>)>, n: nat)
    ensures
        query_of(q, true) matches Ok(a) ==> {
            &&& value_of(q, "t0"@) matches Some(v) && text_real(v) == Some(a.t0)
            &&& value_of(q, "t1"@) matches Some(v) && text_real(v) == Some(a.t1)
            &&& (Real { bits: 0 }).at_most(a.t0)
            &&& !a.t1.at_most(a.t0)
            &&& 1 <= a.limit <= 1024
            &&& value_of(q, "limit"@) is None ==> a.limit == 256
            &&& value_of(q, "limit"@) == Some(decimal(n)) ==> a.limit == n
        },
        value_of(q, "limit"@) == Some(decimal(n)) && (n == 0 || n > 1024) ==> query_of(q, true) is Err,
        value_of(q, "t0"@) is None || value_of(q, "t1"@) is None ==> query_of(q, true) is Err,
        query_of(q, true) matches Err(f) ==> f.status == 400,
        query_of(q, false) is Err,
        resolved("GET"@, "/api/frontend/events"@) == Some(Ok::<(), Seq<char>>(())),
{
    numbers_are_read_as_they_are_written(n, Seq::empty(), u64::MAX as nat);
}

/// The events of a front end are all those that name it, in their order; without a name they are all.
pub proof fn events_are_chosen_by_their_front_end(v: Seq<JsonV>, e: JsonV, device: Seq<char>)
    ensures
        selected(v, None) == v,
        selected(Seq::empty(), Some(device)) == Seq::<JsonV>::empty(),
        at(e, "device_id"@) == Some(JsonV::Text(device)) ==> selected(v.push(e), Some(device))
            == selected(v, Some(device)).push(e),
        at(e, "device_id"@) != Some(JsonV::Text(device)) ==> selected(v.push(e), Some(device))
            == selected(v, Some(device)),
{
    assert(v.push(e).drop_last() =~= v);
    assert(v.push(e).last() == e);
}

/// An answer is of its window, holds the newest of what was chosen, and says how much that was and
/// whether any of it is left out.
pub proof fn an_answer_says_what_is_left_out(
    q: FrontEndQuery,
    device: Option<Seq<char>>,
    events: Seq<JsonV>,
    log: JsonV,
)
    ensures
        ({
            let a = answer_of(q, device, events, log);
            let chosen = selected(events, device);
            &&& at(a, "window"@) matches Some(w) && at(w, "t0"@) == Some(real_v(q.t0)) && at(
                w,
                "t1"@,
            ) == Some(real_v(q.t1))
            &&& at(a, "events"@) == Some(JsonV::Array(newest(chosen, q.limit)))
            &&& at(a, "total"@) == Some(uint_v(chosen.len() as int))
            &&& at(a, "limit"@) == Some(uint_v(q.limit as int))
            &&& at(a, "truncated"@) == Some(JsonV::Bool(q.limit < chosen.len()))
            &&& at(a, "log"@) == Some(log)
        }),
{
    let f = answer_of(q, device, events, log)->Object_0;
    member_is_the_first(f, "window"@, 0);
    assert("window"@ != "events"@) by {
        reveal_strlit("window");
        reveal_strlit("events");
        assert("window"@[0] != "events"@[0]);
    }
    member_is_the_first(f, "events"@, 1);
    assert("window"@ != "total"@) by {
        reveal_strlit("window");
        reveal_strlit("total");
        assert("window"@.len() != "total"@.len());
    }
    assert("events"@ != "total"@) by {
        reveal_strlit("events");
        reveal_strlit("total");
        assert("events"@.len() != "total"@.len());
    }
    member_is_the_first(f, "total"@, 2);
    assert("window"@ != "limit"@) by {
        reveal_strlit("window");
        reveal_strlit("limit");
        assert("window"@.len() != "limit"@.len());
    }
    assert("events"@ != "limit"@) by {
        reveal_strlit("events");
        reveal_strlit("limit");
        assert("events"@.len() != "limit"@.len());
    }
    assert("total"@ != "limit"@) by {
        reveal_strlit("total");
        reveal_strlit("limit");
        assert("total"@[0] != "limit"@[0]);
    }
    member_is_the_first(f, "limit"@, 3);
    assert("window"@ != "truncated"@) by {
        reveal_strlit("window");
        reveal_strlit("truncated");
        assert("window"@.len() != "truncated"@.len());
    }
    assert("events"@ != "truncated"@) by {
        reveal_strlit("events");
        reveal_strlit("truncated");
        assert("events"@.len() != "truncated"@.len());
    }
    assert("total"@ != "truncated"@) by {
        reveal_strlit("total");
        reveal_strlit("truncated");
        assert("total"@.len() != "truncated"@.len());
    }
    assert("limit"@ != "truncated"@) by {
        reveal_strlit("limit");
        reveal_strlit("truncated");
        assert("limit"@.len() != "truncated"@.len());
    }
    member_is_the_first(f, "truncated"@, 4);
    assert("window"@ != "log"@) by {
        reveal_strlit("window");
        reveal_strlit("log");
        assert("window"@.len() != "log"@.len());
    }
    assert("events"@ != "log"@) by {
        reveal_strlit("events");
        reveal_strlit("log");
        assert("events"@.len() != "log"@.len());
    }
    assert("total"@ != "log"@) by {
        reveal_strlit("total");
        reveal_strlit("log");
        assert("total"@.len() != "log"@.len());
    }
    assert("limit"@ != "log"@) by {
        reveal_strlit("limit");
        reveal_strlit("log");
        assert("limit"@.len() != "log"@.len());
    }
    assert("truncated"@ != "log"@) by {
        reveal_strlit("truncated");
        reveal_strlit("log");
        assert("truncated"@.len() != "log"@.len());
    }
    member_is_the_first(f, "log"@, 5);
    let w = f[0].1;
    let g = w->Object_0;
    member_is_the_first(g, "t0"@, 0);
    assert("t0"@ != "t1"@) by {
        reveal_strlit("t0");
        reveal_strlit("t1");
        assert("t0"@[1] != "t1"@[1]);
    }
    member_is_the_first(g, "t1"@, 1);
}

} // verus!
