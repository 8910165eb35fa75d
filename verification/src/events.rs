//! The catalogue of events: every presence interval recorded in a region over a time range.
//!
//! The unit is the interval, so that a short burst is a row of its own. What was not observed is
//! never called quiet: the coverage of the region says which it was.

use vstd::prelude::*;
use vstd::set_lib::{lemma_int_range, lemma_set_disjoint_lens, set_int_range};

use crate::authored::{next_cursor, next_start};
use crate::double::Real;
use crate::http::{api_outcome, ApiError, ApiErrorV};
use crate::json::{
    at, member_is_the_first, no_fields, opt_real_v, opt_text_v, real_v, seconds_v, text_v, uint_v,
    Fields, Items, Json, JsonV, Num,
};
use crate::request::{find_value, pairs, value_of};
use crate::text::{decimal, number, parse_unsigned, signed_decimal, signed_number, unsigned};

verus! {

/// The events of a page that names no size.
pub const DEFAULT_EVENTS_LIMIT: usize = 200;

/// The most events of a page.
pub const MAX_EVENTS_LIMIT: usize = 2_000;

/// The largest offset that a cursor may name.
pub const MAX_EVENTS_CURSOR: u64 = 1_000_000;

/// The most emitters that one answer looks at.
pub const MAX_EVENT_EMITTERS: u32 = 500;

// ---------------------------------------------------------------------------------------------
// The question
// ---------------------------------------------------------------------------------------------

/// A box in time and frequency.
#[derive(Clone, Copy, Debug, PartialEq, Eq, Structural)]
pub struct Region {
    /// Its lower edge, Hz.
    pub f_lo: Real,
    /// Its upper edge, Hz.
    pub f_hi: Real,
    /// Its start, ns.
    pub t0_ns: i64,
    /// Its end, ns.
    pub t1_ns: i64,
}

/// What is asked for.
#[derive(Clone, Copy, Debug, PartialEq, Eq, Structural)]
pub struct EventsQuery {
    /// The box.
    pub region: Region,
    /// How many events.
    pub limit: usize,
    /// From this one on.
    pub offset: usize,
}

/// The offset that a cursor writes: none, or an empty one, is the beginning.
pub open spec fn offset_of(q: Seq<(Seq<char>, Seq<char>)>) -> Result<usize, ApiErrorV> {
    match value_of(q, "cursor"@) {
        None => Ok(0),
        Some(c) => if c.len() == 0 {
            Ok(0)
        } else {
            match unsigned(c, u64::MAX as nat) {
                Some(n) => if n <= MAX_EVENTS_CURSOR {
                    Ok(n as usize)
                } else {
                    Err(ApiErrorV { status: 400, message: "invalid cursor"@ })
                },
                None => Err(ApiErrorV { status: 400, message: "invalid cursor"@ }),
            }
        },
    }
}

fn read_offset(q: &Vec<(String, String)>) -> (r: Result<usize, ApiError>)
    ensures
        api_outcome(r) == offset_of(pairs(q@)),
{
    match find_value(q.as_slice(), "cursor") {
        None => Ok(0),
        Some(c) => if c.unicode_len() == 0 {
            Ok(0)
        } else {
            match parse_unsigned(c, u64::MAX) {
                Some(n) => if n <= MAX_EVENTS_CURSOR {
                    Ok(n as usize)
                } else {
                    Err(ApiError::new(400, "invalid cursor"))
                },
                None => Err(ApiError::new(400, "invalid cursor")),
            }
        },
    }
}

/// What a request asks for: the box and the size of the page are read first, then the cursor,
/// then which emitters are looked at.
pub open spec fn query_of(
    region: Result<Region, ApiErrorV>,
    limit: Result<usize, ApiErrorV>,
    q: Seq<(Seq<char>, Seq<char>)>,
    filters: Result<(), ApiErrorV>,
) -> Result<EventsQuery, ApiErrorV> {
    match region {
        Err(e) => Err(e),
        Ok(region) => match limit {
            Err(e) => Err(e),
            Ok(limit) => match offset_of(q) {
                Err(e) => Err(e),
                Ok(offset) => match filters {
                    Err(e) => Err(e),
                    Ok(_) => Ok(EventsQuery { region, limit, offset }),
                },
            },
        },
    }
}

/// [`query_of`].
pub fn plan_events(
    region: Result<Region, ApiError>,
    limit: Result<usize, ApiError>,
    q: &Vec<(String, String)>,
    filters: Result<(), ApiError>,
) -> (r: Result<EventsQuery, ApiError>)
    ensures
        api_outcome(r) == query_of(
            api_outcome(region),
            api_outcome(limit),
            pairs(q@),
            api_outcome(filters),
        ),
{
    let region = match region {
        Ok(r) => r,
        Err(e) => return Err(e),
    };
    let limit = match limit {
        Ok(n) => n,
        Err(e) => return Err(e),
    };
    let offset = match read_offset(q) {
        Ok(n) => n,
        Err(e) => return Err(e),
    };
    match filters {
        Ok(_) => Ok(EventsQuery { region, limit, offset }),
        Err(e) => Err(e),
    }
}

// ---------------------------------------------------------------------------------------------
// Intervals
// ---------------------------------------------------------------------------------------------

/// A stretch of silence inside an interval, which is not air.
#[derive(Clone, Copy, Debug, PartialEq, Eq, Structural)]
pub struct Gap {
    /// Its start, ns.
    pub start: i64,
    /// Its end, ns.
    pub end: i64,
}

/// A presence interval.
#[derive(Debug)]
pub struct Interval {
    /// Its start, ns.
    pub start: i64,
    /// Its end, ns.
    pub end: i64,
    /// The silence that was joined into it.
    pub revoked: Vec<Gap>,
    /// How long it was on air, s.
    pub duration_s: Real,
    /// How much of it is silence, s.
    pub revoked_s: Real,
    /// It was still running at the end of the window.
    pub open: bool,
    /// The observations in it.
    pub count: u64,
    /// Where they come from, as that is written.
    pub sources: Json,
    /// Its centre, Hz.
    pub f_center_hz: Option<Real>,
}

/// The larger of two.
pub open spec fn larger(a: int, b: int) -> int {
    if a >= b {
        a
    } else {
        b
    }
}

/// The smaller of two.
pub open spec fn smaller(a: int, b: int) -> int {
    if a <= b {
        a
    } else {
        b
    }
}

/// How much of one stretch lies in another, ns.
pub open spec fn shared(start: int, end: int, lo: int, hi: int) -> int {
    larger(smaller(end, hi) - larger(start, lo), 0)
}

/// An interval and the window have a moment in common.
pub open spec fn overlaps(i: Interval, r: Region) -> bool {
    i.start <= r.t1_ns && r.t0_ns <= i.end
}

/// How much of an interval lies in the window, ns.
pub open spec fn inside(i: Interval, r: Region) -> int {
    shared(i.start as int, i.end as int, r.t0_ns as int, r.t1_ns as int)
}

/// How much silence of an interval lies in the window, ns.
pub open spec fn silence(gaps: Seq<Gap>, lo: int, hi: int) -> int
    decreases gaps.len(),
{
    if gaps.len() == 0 {
        0
    } else {
        silence(gaps.drop_last(), lo, hi) + shared(
            gaps.last().start as int,
            gaps.last().end as int,
            lo,
            hi,
        )
    }
}

/// How long an interval was on air in the window, ns: its silence comes off.
pub open spec fn in_window(i: Interval, r: Region) -> int {
    larger(
        inside(i, r) - silence(
            i.revoked@,
            larger(i.start as int, r.t0_ns as int),
            smaller(i.end as int, r.t1_ns as int),
        ),
        0,
    )
}

fn shared_ns(start: i64, end: i64, lo: i64, hi: i64) -> (r: i128)
    ensures
        r == shared(start as int, end as int, lo as int, hi as int),
        0 <= r <= 2 * (i64::MAX as int) + 1,
{
    let a = if start >= lo {
        start
    } else {
        lo
    };
    let b = if end <= hi {
        end
    } else {
        hi
    };
    if b > a {
        b as i128 - a as i128
    } else {
        0
    }
}

fn in_window_ns(i: &Interval, r: &Region) -> (out: i64)
    requires
        r.t1_ns - r.t0_ns <= i64::MAX,
    ensures
        out == in_window(*i, *r),
{
    let lo = if i.start >= r.t0_ns {
        i.start
    } else {
        r.t0_ns
    };
    let hi = if i.end <= r.t1_ns {
        i.end
    } else {
        r.t1_ns
    };
    let total = shared_ns(i.start, i.end, r.t0_ns, r.t1_ns);
    let mut off: i128 = 0;
    let mut k: usize = 0;
    assert(i.revoked@.take(0) =~= Seq::empty());
    while k < i.revoked.len()
        invariant
            k <= i.revoked@.len(),
            0 <= off <= total <= i64::MAX,
            off == smaller(total as int, silence(i.revoked@.take(k as int), lo as int, hi as int)),
        decreases i.revoked@.len() - k,
    {
        let g = i.revoked[k];
        assert(i.revoked@.take(k + 1).drop_last() =~= i.revoked@.take(k as int));
        let more = off + shared_ns(g.start, g.end, lo, hi);
        off = if more <= total {
            more
        } else {
            total
        };
        k += 1;
    }
    assert(i.revoked@.take(i.revoked@.len() as int) =~= i.revoked@);
    (total - off) as i64
}

/// Silence inside an interval never adds to what was on air.
pub proof fn silence_is_not_air(i: Interval, r: Region)
    ensures
        0 <= in_window(i, r) <= inside(i, r),
        i.revoked@.len() == 0 ==> in_window(i, r) == inside(i, r),
{
    silence_is_not_negative(
        i.revoked@,
        larger(i.start as int, r.t0_ns as int),
        smaller(i.end as int, r.t1_ns as int),
    );
}

proof fn silence_is_not_negative(gaps: Seq<Gap>, lo: int, hi: int)
    ensures
        silence(gaps, lo, hi) >= 0,
    decreases gaps.len(),
{
    if gaps.len() > 0 {
        silence_is_not_negative(gaps.drop_last(), lo, hi);
    }
}

/// How many intervals have a moment in the window.
pub open spec fn hits(v: Seq<Interval>, r: Region) -> nat
    decreases v.len(),
{
    if v.len() == 0 {
        0
    } else if overlaps(v.last(), r) {
        hits(v.drop_last(), r) + 1
    } else {
        hits(v.drop_last(), r)
    }
}

/// How much of the intervals lies in the window, ns.
pub open spec fn on_air(v: Seq<Interval>, r: Region) -> int
    decreases v.len(),
{
    if v.len() == 0 {
        0
    } else if overlaps(v.last(), r) {
        on_air(v.drop_last(), r) + inside(v.last(), r)
    } else {
        on_air(v.drop_last(), r)
    }
}

/// The instants from one up to another, ns.
pub open spec fn instants(from: int, to: int) -> Set<int> {
    set_int_range(from, to)
}

proof fn instants_are_counted(from: int, to: int)
    ensures
        instants(from, to).finite(),
        instants(from, to).len() == (if from <= to {
            to - from
        } else {
            0
        }),
{
    if from <= to {
        lemma_int_range(from, to);
    } else {
        assert(instants(from, to) =~= Set::empty());
    }
}

/// The time that two stretches share is the number of instants that lie in both.
pub proof fn shared_time_is_in_both(start: int, end: int, lo: int, hi: int)
    ensures
        instants(start, end).intersect(instants(lo, hi)).finite(),
        shared(start, end, lo, hi) == instants(start, end).intersect(instants(lo, hi)).len(),
{
    let from = if start >= lo {
        start
    } else {
        lo
    };
    let to = if end <= hi {
        end
    } else {
        hi
    };
    instants_are_counted(from, to);
    assert(instants(start, end).intersect(instants(lo, hi)) =~= instants(from, to));
}

/// What an interval that runs past the window, begins before it, holds it or lies in it shares with
/// it.
pub proof fn intervals_are_cut_at_the_window(i: Interval, r: Region)
    ensures
        r.t0_ns <= i.start <= r.t1_ns <= i.end ==> inside(i, r) == r.t1_ns - i.start,
        i.start <= r.t0_ns <= i.end <= r.t1_ns ==> inside(i, r) == i.end - r.t0_ns,
        i.start <= r.t0_ns <= r.t1_ns <= i.end ==> inside(i, r) == r.t1_ns - r.t0_ns,
        r.t0_ns <= i.start <= i.end <= r.t1_ns ==> inside(i, r) == i.end - i.start,
        i.end <= r.t0_ns || r.t1_ns <= i.start ==> inside(i, r) == 0,
        inside(i, r) == instants(i.start as int, i.end as int).intersect(
            instants(r.t0_ns as int, r.t1_ns as int),
        ).len(),
{
    shared_time_is_in_both(i.start as int, i.end as int, r.t0_ns as int, r.t1_ns as int);
}

/// An instant lies in a gap.
pub open spec fn silent(gaps: Seq<Gap>, t: int) -> bool {
    exists|k: int| 0 <= k < gaps.len() && (#[trigger] gaps[k]).start <= t < gaps[k].end
}

/// No instant lies in two gaps.
pub open spec fn apart(gaps: Seq<Gap>) -> bool {
    forall|j: int, k: int|
        0 <= j < k < gaps.len() ==> (#[trigger] gaps[j]).end <= (#[trigger] gaps[k]).start
            || gaps[k].end <= gaps[j].start || gaps[j].end <= gaps[j].start || gaps[k].end
            <= gaps[k].start
}

/// The silent instants from one up to another.
pub open spec fn silent_instants(gaps: Seq<Gap>, lo: int, hi: int) -> Set<int> {
    Set::new(|t: int| lo <= t < hi && silent(gaps, t))
}

proof fn silence_is_counted(gaps: Seq<Gap>, lo: int, hi: int)
    requires
        apart(gaps),
    ensures
        silent_instants(gaps, lo, hi).finite(),
        silence(gaps, lo, hi) == silent_instants(gaps, lo, hi).len(),
    decreases gaps.len(),
{
    let all = silent_instants(gaps, lo, hi);
    if gaps.len() == 0 {
        assert(all =~= Set::empty());
    } else {
        let rest = gaps.drop_last();
        let g = gaps.last();
        let before = silent_instants(rest, lo, hi);
        let here = instants(g.start as int, g.end as int).intersect(instants(lo, hi));
        assert forall|j: int, k: int| 0 <= j < k < rest.len() implies (#[trigger] rest[j]).end <= (
        #[trigger] rest[k]).start || rest[k].end <= rest[j].start || rest[j].end <= rest[j].start
            || rest[k].end <= rest[k].start by {
            assert(rest[j] == gaps[j] && rest[k] == gaps[k]);
        }
        silence_is_counted(rest, lo, hi);
        shared_time_is_in_both(g.start as int, g.end as int, lo, hi);
        assert(gaps[gaps.len() - 1] == g);
        assert forall|t: int| silent(gaps, t) <==> silent(rest, t) || g.start <= t < g.end by {
            if silent(rest, t) {
                let k = choose|k: int|
                    0 <= k < rest.len() && (#[trigger] rest[k]).start <= t < rest[k].end;
                assert(gaps[k].start <= t < gaps[k].end);
            }
            if silent(gaps, t) && !(g.start <= t < g.end) {
                let k = choose|k: int|
                    0 <= k < gaps.len() && (#[trigger] gaps[k]).start <= t < gaps[k].end;
                assert(rest[k].start <= t < rest[k].end);
            }
        }
        assert(all =~= before + here);
        assert(before.disjoint(here)) by {
            assert forall|t: int| !(before.contains(t) && here.contains(t)) by {
                if before.contains(t) && here.contains(t) {
                    let k = choose|k: int|
                        0 <= k < rest.len() && (#[trigger] rest[k]).start <= t < rest[k].end;
                    assert(gaps[k] == rest[k]);
                    assert(gaps[k].end <= gaps[gaps.len() - 1].start || g.end <= gaps[k].start);
                }
            }
        }
        lemma_set_disjoint_lens(before, here);
    }
}

/// The time on air in the window is the number of instants of the interval that lie in the window
/// and in none of its gaps.
pub proof fn air_is_what_is_not_silent(i: Interval, r: Region)
    requires
        apart(i.revoked@),
    ensures
        in_window(i, r) == Set::new(
            |t: int|
                i.start <= t < i.end && r.t0_ns <= t < r.t1_ns && !silent(i.revoked@, t),
        ).len(),
{
    let lo = if i.start >= r.t0_ns {
        i.start as int
    } else {
        r.t0_ns as int
    };
    let hi = if i.end <= r.t1_ns {
        i.end as int
    } else {
        r.t1_ns as int
    };
    let whole = instants(lo, hi);
    let off = silent_instants(i.revoked@, lo, hi);
    let air = Set::new(
        |t: int| i.start <= t < i.end && r.t0_ns <= t < r.t1_ns && !silent(i.revoked@, t),
    );
    instants_are_counted(lo, hi);
    silence_is_counted(i.revoked@, lo, hi);
    assert(air =~= whole.difference(off));
    assert(whole =~= air + off);
    vstd::set_lib::lemma_len_difference(whole, off);
    lemma_set_disjoint_lens(air, off);
}

/// One interval more adds what it shares with the window, and counts where it has a moment with it
/// in common: its ends are moments of it.
pub proof fn intervals_add_up(v: Seq<Interval>, i: Interval, r: Region)
    ensures
        on_air(v.push(i), r) == on_air(v, r) + instants(i.start as int, i.end as int).intersect(
            instants(r.t0_ns as int, r.t1_ns as int),
        ).len(),
        hits(v.push(i), r) == hits(v, r) + (if i.start <= r.t1_ns && r.t0_ns <= i.end {
            1nat
        } else {
            0nat
        }),
        on_air(Seq::empty(), r) == 0,
        hits(Seq::empty(), r) == 0,
{
    assert(v.push(i).drop_last() =~= v);
    shared_time_is_in_both(i.start as int, i.end as int, r.t0_ns as int, r.t1_ns as int);
}

// ---------------------------------------------------------------------------------------------
// Emitters
// ---------------------------------------------------------------------------------------------

/// What may be seen of an emitter's identity.
#[derive(Debug)]
pub enum Identity {
    /// It has none.
    Absent,
    /// All of it.
    Clear {
        /// The scheme.
        scheme: String,
        /// The value.
        value: String,
        /// The class, as it is written.
        class: Json,
    },
    /// Only that there is one.
    Withheld {
        /// The scheme.
        scheme: String,
        /// The class, as it is written, or `null`.
        class: Json,
    },
}

impl Identity {
    /// The scheme.
    pub open spec fn scheme_of(self) -> Option<Seq<char>> {
        match self {
            Identity::Absent => None,
            Identity::Clear { scheme, .. } => Some(scheme@),
            Identity::Withheld { scheme, .. } => Some(scheme@),
        }
    }

    /// The class.
    pub open spec fn class_of(self) -> JsonV {
        match self {
            Identity::Absent => JsonV::Null,
            Identity::Clear { class, .. } => class.view(),
            Identity::Withheld { class, .. } => class.view(),
        }
    }
}

/// An emitter, as far as its events show it.
#[derive(Debug)]
pub struct Emitter {
    /// Its identity in the inventory.
    pub id: String,
    /// Its lifecycle, as it is written.
    pub state: Json,
    /// Its centre, Hz.
    pub f_center_hz: Real,
    /// Its bandwidth, Hz.
    pub bandwidth_hz: Option<Real>,
    /// Its lower edge, Hz.
    pub f_lo_hz: Real,
    /// Its upper edge, Hz.
    pub f_hi_hz: Real,
    /// Whether it is known, as that is written.
    pub known_status: Json,
    /// Its family, as it is written.
    pub family: Json,
    /// Its decoded identity.
    pub identity: Identity,
    /// Its lifetime count.
    pub count: u64,
}

/// The intervals of an emitter, and the explanations of it; `None` where the store failed.
#[derive(Debug)]
pub struct Entry {
    /// The emitter.
    pub emitter: Emitter,
    /// Its intervals.
    pub intervals: Option<Vec<Interval>>,
    /// What it may be.
    pub explanations: Option<Json>,
}

/// A time in seconds.
pub open spec fn wide_seconds_v(ns: int) -> JsonV {
    JsonV::Number(Num::Seconds(ns as i128))
}

/// What is served of every emitter.
pub open spec fn emitter_fields(
    e: Emitter,
    explanations: JsonV,
    events: nat,
    on_air_ns: int,
) -> Seq<(Seq<char>, JsonV)> {
    no_fields().push(("id"@, text_v(e.id@))).push(("state"@, e.state.view())).push(
        ("f_center_hz"@, real_v(e.f_center_hz)),
    ).push(("bandwidth_hz"@, opt_real_v(e.bandwidth_hz))).push(
        ("f_lo_hz"@, real_v(e.f_lo_hz)),
    ).push(("f_hi_hz"@, real_v(e.f_hi_hz))).push(
        ("known_status"@, e.known_status.view()),
    ).push(("family"@, e.family.view())).push(("explanations"@, explanations)).push(
        ("identity_scheme"@, opt_text_v(e.identity.scheme_of())),
    ).push(("identity_class"@, e.identity.class_of())).push(
        ("withheld"@, JsonV::Bool(e.identity is Withheld)),
    ).push(("events"@, uint_v(events as int))).push(
        ("on_air_s"@, wide_seconds_v(on_air_ns)),
    ).push(("count"@, uint_v(e.count as int)))
}

/// An emitter as it is served: its value only where it may be seen.
pub open spec fn emitter_v(e: Emitter, explanations: JsonV, events: nat, on_air_ns: int) -> JsonV {
    let f = emitter_fields(e, explanations, events, on_air_ns);
    JsonV::Object(
        match e.identity {
            Identity::Clear { value, .. } => f.push(("identity_value"@, text_v(value@))),
            _ => f,
        },
    )
}

/// [`emitter_v`].
pub fn emitter_json(e: &Emitter, explanations: Json, events: u64, on_air_ns: i128) -> (r: Json)
    ensures
        r.view() == emitter_v(*e, explanations.view(), events as nat, on_air_ns as int),
{
    let (scheme, class, withheld) = match &e.identity {
        Identity::Absent => (None, Json::Null, false),
        Identity::Clear { scheme, class, .. } => (Some(scheme.clone()), class.copy(), false),
        Identity::Withheld { scheme, class } => (Some(scheme.clone()), class.copy(), true),
    };
    let mut f = Fields::new();
    f.put("id", Json::text(e.id.as_str()));
    f.put("state", e.state.copy());
    f.put("f_center_hz", Json::double(e.f_center_hz));
    f.put("bandwidth_hz", Json::opt_double(e.bandwidth_hz));
    f.put("f_lo_hz", Json::double(e.f_lo_hz));
    f.put("f_hi_hz", Json::double(e.f_hi_hz));
    f.put("known_status", e.known_status.copy());
    f.put("family", e.family.copy());
    f.put("explanations", explanations);
    f.put("identity_scheme", Json::opt_text(&scheme));
    f.put("identity_class", class);
    f.put("withheld", Json::Bool(withheld));
    f.put("events", Json::uint(events));
    f.put("on_air_s", Json::Number(Num::Seconds(on_air_ns)));
    f.put("count", Json::uint(e.count));
    if let Identity::Clear { value, .. } = &e.identity {
        f.put("identity_value", Json::text(value.as_str()));
    }
    f.object()
}

/// What is served of an emitter does not depend on an identity value that is withheld: there is
/// no member that would carry it.
pub proof fn withheld_values_are_not_served(e: Emitter, explanations: JsonV, n: nat, ns: int)
    requires
        !(e.identity is Clear),
    ensures
        at(emitter_v(e, explanations, n, ns), "identity_value"@) is None,
{
    reveal_strlit("id");
    reveal_strlit("state");
    reveal_strlit("f_center_hz");
    reveal_strlit("bandwidth_hz");
    reveal_strlit("f_lo_hz");
    reveal_strlit("f_hi_hz");
    reveal_strlit("known_status");
    reveal_strlit("family");
    reveal_strlit("explanations");
    reveal_strlit("identity_scheme");
    reveal_strlit("identity_class");
    reveal_strlit("withheld");
    reveal_strlit("events");
    reveal_strlit("on_air_s");
    reveal_strlit("count");
    reveal_strlit("identity_value");
    assert("identity_class"@[9] != "identity_value"@[9]);
    let f = emitter_fields(e, explanations, n, ns);
    assert(emitter_v(e, explanations, n, ns) == JsonV::Object(f));
    assert(f[0].0 == "id"@);
    assert(f[1].0 == "state"@);
    assert(f[2].0 == "f_center_hz"@);
    assert(f[3].0 == "bandwidth_hz"@);
    assert(f[4].0 == "f_lo_hz"@);
    assert(f[5].0 == "f_hi_hz"@);
    assert(f[6].0 == "known_status"@);
    assert(f[7].0 == "family"@);
    assert(f[8].0 == "explanations"@);
    assert(f[9].0 == "identity_scheme"@);
    assert(f[10].0 == "identity_class"@);
    assert(f[11].0 == "withheld"@);
    assert(f[12].0 == "events"@);
    assert(f[13].0 == "on_air_s"@);
    assert(f[14].0 == "count"@);
    member_is_the_first(f, "identity_value"@, 15);
}

// ---------------------------------------------------------------------------------------------
// Events
// ---------------------------------------------------------------------------------------------

/// An event: an interval of an entry.
#[derive(Clone, Copy, Debug, PartialEq, Eq, Structural)]
pub struct Event {
    /// The interval's end, ns.
    pub end: i64,
    /// The interval's start, ns.
    pub start: i64,
    /// The entry.
    pub entry: usize,
    /// The interval among the entry's.
    pub interval: usize,
}

/// The events of one entry.
pub open spec fn entry_events(v: Seq<Interval>, entry: usize, r: Region) -> Seq<Event>
    decreases v.len(),
{
    if v.len() == 0 {
        Seq::empty()
    } else {
        let b = entry_events(v.drop_last(), entry, r);
        if overlaps(v.last(), r) {
            b.push(
                Event {
                    end: v.last().end,
                    start: v.last().start,
                    entry,
                    interval: (v.len() - 1) as usize,
                },
            )
        } else {
            b
        }
    }
}

/// The intervals of an entry; none where the store failed.
pub open spec fn intervals_of(e: Entry) -> Seq<Interval> {
    match e.intervals {
        Some(v) => v@,
        None => Seq::empty(),
    }
}

/// The events of all entries, in their order.
pub open spec fn events_of(entries: Seq<Entry>, r: Region) -> Seq<Event>
    decreases entries.len(),
{
    if entries.len() == 0 {
        Seq::empty()
    } else {
        events_of(entries.drop_last(), r) + entry_events(
            intervals_of(entries.last()),
            (entries.len() - 1) as usize,
            r,
        )
    }
}

/// One event is newer than another.
pub open spec fn newer(a: Event, b: Event) -> bool {
    a.end > b.end || (a.end == b.end && a.start > b.start)
}

/// Where an event is listed: behind all that are not older.
pub open spec fn slot(v: Seq<Event>, e: Event) -> int
    decreases v.len(),
{
    if v.len() == 0 {
        0
    } else if newer(e, v[0]) {
        0
    } else {
        1 + slot(v.skip(1), e)
    }
}

/// The events newest first; those of the same time stay as they stood.
pub open spec fn newest_first(v: Seq<Event>) -> Seq<Event>
    decreases v.len(),
{
    if v.len() == 0 {
        Seq::empty()
    } else {
        let b = newest_first(v.drop_last());
        b.insert(slot(b, v.last()), v.last())
    }
}

/// The entry and the interval of one event come before another's.
pub open spec fn stood_before(a: Event, b: Event) -> bool {
    a.entry < b.entry || (a.entry == b.entry && a.interval < b.interval)
}

/// One event is listed before another.
pub open spec fn listed_before(a: Event, b: Event) -> bool {
    newer(a, b) || (!newer(b, a) && stood_before(a, b))
}

proof fn slot_splits(v: Seq<Event>, e: Event)
    ensures
        0 <= slot(v, e) <= v.len(),
        forall|k: int| 0 <= k < slot(v, e) ==> !newer(e, #[trigger] v[k]),
        slot(v, e) < v.len() ==> newer(e, v[slot(v, e)]),
    decreases v.len(),
{
    if v.len() > 0 && !newer(e, v[0]) {
        let t = v.skip(1);
        slot_splits(t, e);
        assert forall|k: int| 0 <= k < slot(v, e) implies !newer(e, #[trigger] v[k]) by {
            if k > 0 {
                assert(t[k - 1] == v[k]);
            }
        }
    }
}

proof fn slot_is_first(v: Seq<Event>, e: Event, i: int)
    requires
        0 <= i <= v.len(),
        forall|k: int| 0 <= k < i ==> !newer(e, #[trigger] v[k]),
        i < v.len() ==> newer(e, v[i]),
    ensures
        slot(v, e) == i,
{
    slot_splits(v, e);
    let s = slot(v, e);
    if s < i {
        assert(!newer(e, v[s]));
    } else if s > i {
        assert(!newer(e, v[i]));
    }
}

proof fn sorted_by_age(v: Seq<Event>)
    requires
        forall|i: int, j: int|
            0 <= i < j < v.len() ==> stood_before(#[trigger] v[i], #[trigger] v[j]),
    ensures
        newest_first(v).to_multiset() == v.to_multiset(),
        forall|i: int, j: int|
            0 <= i < j < newest_first(v).len() ==> listed_before(
                #[trigger] newest_first(v)[i],
                #[trigger] newest_first(v)[j],
            ),
    decreases v.len(),
{
    broadcast use vstd::seq_lib::group_to_multiset_ensures;

    if v.len() > 0 {
        let u = v.drop_last();
        let e = v.last();
        assert forall|i: int, j: int| 0 <= i < j < u.len() implies stood_before(
            #[trigger] u[i],
            #[trigger] u[j],
        ) by {
            assert(stood_before(v[i], v[j]));
        }
        sorted_by_age(u);
        let b = newest_first(u);
        slot_splits(b, e);
        let s = slot(b, e);
        let w = newest_first(v);
        assert(v =~= u.push(e));
        assert(w =~= b.insert(s, e));
        b.to_multiset_ensures();
        u.to_multiset_ensures();
        assert(b.insert(s, e).to_multiset() =~= b.to_multiset().insert(e));
        assert(w.to_multiset() =~= v.to_multiset());
        assert forall|k: int| 0 <= k < b.len() implies stood_before(#[trigger] b[k], e) by {
            assert(b.to_multiset().count(b[k]) > 0);
            assert(u.contains(b[k]));
            let q = choose|q: int| 0 <= q < u.len() && u[q] == b[k];
            assert(stood_before(v[q], v[v.len() - 1]));
        }
        assert forall|i: int, j: int| 0 <= i < j < w.len() implies listed_before(
            #[trigger] w[i],
            #[trigger] w[j],
        ) by {
            if j < s {
                assert(listed_before(b[i], b[j]));
            } else if i < s && j == s {
                assert(w[i] == b[i]);
            } else if i < s && j > s {
                assert(listed_before(b[i], b[j - 1]));
            } else if i == s {
                if j - 1 > s {
                    assert(listed_before(b[s], b[j - 1]));
                }
            } else {
                assert(listed_before(b[i - 1], b[j - 1]));
            }
        }
    } else {
        assert(newest_first(v) =~= v);
    }
}

proof fn entry_events_stand(v: Seq<Interval>, entry: usize, r: Region)
    requires
        v.len() <= usize::MAX,
    ensures
        forall|i: int|
            0 <= i < entry_events(v, entry, r).len() ==> (#[trigger] entry_events(
                v,
                entry,
                r,
            )[i]).entry == entry && entry_events(v, entry, r)[i].interval < v.len(),
        forall|i: int, j: int|
            0 <= i < j < entry_events(v, entry, r).len() ==> stood_before(
                #[trigger] entry_events(v, entry, r)[i],
                #[trigger] entry_events(v, entry, r)[j],
            ),
    decreases v.len(),
{
    if v.len() > 0 {
        let b = entry_events(v.drop_last(), entry, r);
        let w = entry_events(v, entry, r);
        entry_events_stand(v.drop_last(), entry, r);
        assert forall|i: int, j: int| 0 <= i < j < w.len() implies stood_before(
            #[trigger] w[i],
            #[trigger] w[j],
        ) by {
            assert(w[i] == b[i]);
            if j < b.len() {
                assert(stood_before(b[i], b[j]));
            }
        }
    }
}

proof fn events_stand(entries: Seq<Entry>, r: Region)
    requires
        entries.len() <= usize::MAX,
    ensures
        forall|i: int|
            0 <= i < events_of(entries, r).len() ==> (#[trigger] events_of(entries, r)[i]).entry
                < entries.len(),
        forall|i: int, j: int|
            0 <= i < j < events_of(entries, r).len() ==> stood_before(
                #[trigger] events_of(entries, r)[i],
                #[trigger] events_of(entries, r)[j],
            ),
    decreases entries.len(),
{
    if entries.len() > 0 {
        let a = events_of(entries.drop_last(), r);
        let n = (entries.len() - 1) as usize;
        let last = intervals_of(entries.last());
        if let Some(v) = entries.last().intervals {
            assert(v.len() == last.len());
        }
        let b = entry_events(last, n, r);
        let w = events_of(entries, r);
        events_stand(entries.drop_last(), r);
        entry_events_stand(last, n, r);
        assert forall|i: int, j: int| 0 <= i < j < w.len() implies stood_before(
            #[trigger] w[i],
            #[trigger] w[j],
        ) by {
            if j < a.len() {
                assert(stood_before(a[i], a[j]));
            } else if i < a.len() {
                assert(w[i] == a[i] && w[j] == b[j - a.len()]);
            } else {
                assert(stood_before(b[i - a.len()], b[j - a.len()]));
            }
        }
        assert forall|i: int| 0 <= i < w.len() implies (#[trigger] w[i]).entry
            < entries.len() by {
            if i < a.len() {
                assert(w[i] == a[i]);
            } else {
                assert(w[i] == b[i - a.len()]);
            }
        }
    }
}

/// The catalogue lists each event of the box once, newest first; of two of the same time the one
/// whose emitter was found first.
pub proof fn events_come_newest_first(entries: Seq<Entry>, r: Region)
    requires
        entries.len() <= usize::MAX,
    ensures
        newest_first(events_of(entries, r)).to_multiset() == events_of(entries, r).to_multiset(),
        forall|i: int, j: int|
            0 <= i < j < newest_first(events_of(entries, r)).len() ==> listed_before(
                #[trigger] newest_first(events_of(entries, r))[i],
                #[trigger] newest_first(events_of(entries, r))[j],
            ),
{
    events_stand(entries, r);
    sorted_by_age(events_of(entries, r));
}

/// Which events there are: one for each interval that has a moment in the window, its ends being
/// moments of it, with the interval's own times; and no other.
pub proof fn events_are_the_intervals_in_the_window(v: Seq<Interval>, entry: usize, r: Region, k: int)
    requires
        0 <= k < v.len() <= usize::MAX,
    ensures
        v[k].start <= r.t1_ns && r.t0_ns <= v[k].end <==> entry_events(v, entry, r).contains(
            Event { end: v[k].end, start: v[k].start, entry, interval: k as usize },
        ),
        forall|j: int|
            0 <= j < entry_events(v, entry, r).len() ==> (#[trigger] entry_events(
                v,
                entry,
                r,
            )[j]).entry == entry && entry_events(v, entry, r)[j].interval < v.len()
                && entry_events(v, entry, r)[j].start == v[entry_events(
                v,
                entry,
                r,
            )[j].interval as int].start && entry_events(v, entry, r)[j].end == v[entry_events(
                v,
                entry,
                r,
            )[j].interval as int].end,
        entry_events(v, entry, r).len() == hits(v, r),
    decreases v.len(),
{
    let t = v.drop_last();
    let w = entry_events(v, entry, r);
    let b = entry_events(t, entry, r);
    let e = Event { end: v[k].end, start: v[k].start, entry, interval: k as usize };
    if t.len() > 0 {
        let q = if k < t.len() {
            k
        } else {
            0
        };
        events_are_the_intervals_in_the_window(t, entry, r, q);
        assert(t[q] == v[q]);
    } else {
        assert(b =~= Seq::empty());
        assert(hits(t, r) == 0);
    }
    assert forall|j: int| 0 <= j < w.len() implies (#[trigger] w[j]).entry == entry
        && w[j].interval < v.len() && w[j].start == v[w[j].interval as int].start && w[j].end
        == v[w[j].interval as int].end by {
        if j < b.len() {
            assert(w[j] == b[j]);
            assert(t[b[j].interval as int] == v[b[j].interval as int]);
        }
    }
    if k < t.len() {
        if b.contains(e) {
            let j = choose|j: int| 0 <= j < b.len() && b[j] == e;
            assert(w[j] == e);
        }
        if w.contains(e) {
            let j = choose|j: int| 0 <= j < w.len() && w[j] == e;
            assert(b[j] == e);
        }
    } else {
        if overlaps(v.last(), r) {
            assert(w[w.len() - 1] == e);
        }
        if w.contains(e) && !overlaps(v.last(), r) {
            let j = choose|j: int| 0 <= j < w.len() && w[j] == e;
            assert(b[j].interval < t.len());
        }
    }
}

/// The order of the catalogue: what ended later comes first, of what ended together what began
/// later, and of what did both together the earlier emitter and then the earlier interval.
pub proof fn later_events_come_first(entries: Seq<Entry>, r: Region, i: int, j: int)
    requires
        entries.len() <= usize::MAX,
        0 <= i < j < newest_first(events_of(entries, r)).len(),
    ensures
        ({
            let a = newest_first(events_of(entries, r))[i];
            let b = newest_first(events_of(entries, r))[j];
            &&& a.end >= b.end
            &&& a.end == b.end ==> a.start >= b.start
            &&& a.end == b.end && a.start == b.start ==> a.entry < b.entry || (a.entry == b.entry
                && a.interval < b.interval)
        }),
{
    events_come_newest_first(entries, r);
    assert(listed_before(
        newest_first(events_of(entries, r))[i],
        newest_first(events_of(entries, r))[j],
    ));
}

/// An event as it is served.
pub open spec fn event_v(emitter_id: Seq<char>, i: Interval, r: Region) -> JsonV {
    JsonV::Object(
        no_fields().push(("emitter_id"@, text_v(emitter_id))).push(
            ("t_start_s"@, seconds_v(i.start)),
        ).push(("t_end_s"@, seconds_v(i.end))).push(("duration_s"@, real_v(i.duration_s))).push(
            ("in_window_s"@, seconds_v(in_window(i, r) as i64)),
        ).push(("open"@, JsonV::Bool(i.open))).push(("revoked_s"@, real_v(i.revoked_s))).push(
            ("count"@, uint_v(i.count as int)),
        ).push(("sources"@, i.sources.view())).push(
            ("f_center_hz"@, opt_real_v(i.f_center_hz)),
        ),
    )
}

/// [`event_v`].
pub fn event_json(emitter_id: &str, i: &Interval, r: &Region) -> (out: Json)
    requires
        r.t1_ns - r.t0_ns <= i64::MAX,
    ensures
        out.view() == event_v(emitter_id@, *i, *r),
{
    let mut f = Fields::new();
    f.put("emitter_id", Json::text(emitter_id));
    f.put("t_start_s", Json::seconds(i.start));
    f.put("t_end_s", Json::seconds(i.end));
    f.put("duration_s", Json::double(i.duration_s));
    f.put("in_window_s", Json::seconds(in_window_ns(i, r)));
    f.put("open", Json::Bool(i.open));
    f.put("revoked_s", Json::double(i.revoked_s));
    f.put("count", Json::uint(i.count));
    f.put("sources", i.sources.copy());
    f.put("f_center_hz", Json::opt_double(i.f_center_hz));
    f.object()
}

/// An event of the entries as it is served.
pub open spec fn event_at(entries: Seq<Entry>, e: Event, r: Region) -> JsonV {
    event_v(
        entries[e.entry as int].emitter.id@,
        intervals_of(entries[e.entry as int])[e.interval as int],
        r,
    )
}

/// Events are events of the entries.
pub open spec fn events_ok(entries: Seq<Entry>, v: Seq<Event>) -> bool {
    forall|k: int|
        0 <= k < v.len() ==> (#[trigger] v[k]).entry < entries.len() && v[k].interval
            < intervals_of(entries[v[k].entry as int]).len()
}

// ---------------------------------------------------------------------------------------------
// The walk over the entries
// ---------------------------------------------------------------------------------------------

/// What the store's failure is answered with.
pub open spec fn failed_v() -> ApiErrorV {
    ApiErrorV { status: 500, message: "event query failed"@ }
}

/// What the store's failure is answered with.
pub fn failed() -> (r: ApiError)
    ensures
        r@ == failed_v(),
{
    ApiError::new(500, "event query failed")
}

/// The emitters that have an event, as they are served; `None` where the store failed.
pub open spec fn emitters_of(entries: Seq<Entry>, r: Region) -> Option<Seq<JsonV>>
    decreases entries.len(),
{
    if entries.len() == 0 {
        Some(Seq::empty())
    } else {
        let e = entries.last();
        match emitters_of(entries.drop_last(), r) {
            None => None,
            Some(b) => match e.intervals {
                None => None,
                Some(v) => if hits(v@, r) == 0 {
                    Some(b)
                } else {
                    match e.explanations {
                        None => None,
                        Some(x) => Some(
                            b.push(emitter_v(e.emitter, x.view(), hits(v@, r), on_air(v@, r))),
                        ),
                    }
                },
            },
        }
    }
}

/// The entries that have no interval at all.
pub open spec fn without_interval(entries: Seq<Entry>) -> nat
    decreases entries.len(),
{
    if entries.len() == 0 {
        0
    } else {
        without_interval(entries.drop_last()) + (if intervals_of(entries.last()).len() == 0 {
            1
        } else {
            0nat
        })
    }
}

proof fn emitters_of_fails(entries: Seq<Entry>, r: Region, n: int)
    requires
        0 <= n <= entries.len(),
        emitters_of(entries.take(n), r) is None,
    ensures
        emitters_of(entries, r) is None,
    decreases entries.len(),
{
    if n < entries.len() {
        assert(entries.drop_last().take(n) =~= entries.take(n));
        emitters_of_fails(entries.drop_last(), r, n);
    } else {
        assert(entries.take(n) =~= entries);
    }
}

fn put_event(v: &mut Vec<Event>, e: Event)
    ensures
        final(v)@ == old(v)@.insert(slot(old(v)@, e), e),
        final(v)@.len() == old(v)@.len() + 1,
        forall|k: int|
            0 <= k < final(v)@.len() ==> #[trigger] final(v)@[k] == e || old(v)@.contains(
                final(v)@[k],
            ),
{
    let mut i: usize = 0;
    while i < v.len() && !(e.end > v[i].end || (e.end == v[i].end && e.start > v[i].start))
        invariant
            i <= v@.len(),
            forall|k: int| 0 <= k < i ==> !newer(e, #[trigger] v@[k]),
        decreases v@.len() - i,
    {
        i += 1;
    }
    proof {
        slot_is_first(v@, e, i as int);
    }
    let ghost before = v@;
    v.insert(i, e);
    assert forall|k: int| 0 <= k < v@.len() implies #[trigger] v@[k] == e || before.contains(
        v@[k],
    ) by {
        if k < i {
            assert(before[k] == v@[k]);
        } else if k > i {
            assert(before[k - 1] == v@[k]);
        }
    }
}

/// What one entry has in the window: how many events, and how much of them lies in it.
fn walk_entry(out: &mut Vec<Event>, all: Ghost<Seq<Event>>, v: &Vec<Interval>, entry: usize, r: &Region) -> (found: (
    u64,
    i128,
))
    requires
        old(out)@ == newest_first(all@),
        r.t1_ns - r.t0_ns <= i64::MAX,
    ensures
        final(out)@ == newest_first(all@ + entry_events(v@, entry, *r)),
        found.0 == hits(v@, *r),
        found.1 == on_air(v@, *r),
        forall|k: int|
            0 <= k < final(out)@.len() ==> old(out)@.contains(#[trigger] final(out)@[k]) || (
            final(out)@[k].entry == entry && final(out)@[k].interval < v@.len()),
{
    let mut n: u64 = 0;
    let mut ns: i128 = 0;
    let mut i: usize = 0;
    let ghost start = out@;
    proof {
        assert(v@.take(0) =~= Seq::empty());
        assert(all@ + entry_events(v@.take(0), entry, *r) =~= all@);
        assert forall|k: int| 0 <= k < out@.len() implies start.contains(#[trigger] out@[k]) by {
            assert(start[k] == out@[k]);
        }
    }
    while i < v.len()
        invariant
            i <= v@.len(),
            r.t1_ns - r.t0_ns <= i64::MAX,
            out@ == newest_first(all@ + entry_events(v@.take(i as int), entry, *r)),
            n == hits(v@.take(i as int), *r),
            n <= i,
            ns == on_air(v@.take(i as int), *r),
            0 <= ns <= i * (i64::MAX as int),
            forall|k: int|
                0 <= k < out@.len() ==> start.contains(#[trigger] out@[k]) || (out@[k].entry
                    == entry && out@[k].interval < v@.len()),
        decreases v@.len() - i,
    {
        let x = &v[i];
        let ghost seen = entry_events(v@.take(i as int), entry, *r);
        let ghost was = out@;
        proof {
            assert(v@.take(i + 1).drop_last() =~= v@.take(i as int));
            assert(v@.take(i + 1).last() == v@[i as int]);
        }
        if x.start <= r.t1_ns && r.t0_ns <= x.end {
            let e = Event { end: x.end, start: x.start, entry, interval: i };
            proof {
                let grown = all@ + entry_events(v@.take(i + 1), entry, *r);
                assert(grown.drop_last() =~= all@ + seen);
                assert(grown.last() == e);
                assert((i + 1) * (i64::MAX as int) == i * (i64::MAX as int) + (i64::MAX as int))
                    by (nonlinear_arith);
                assert(i * (i64::MAX as int) <= u64::MAX * (i64::MAX as int)) by (nonlinear_arith)
                    requires
                        i <= u64::MAX,
                ;
            }
            put_event(out, e);
            proof {
                assert forall|k: int| 0 <= k < out@.len() implies start.contains(
                    #[trigger] out@[k],
                ) || (out@[k].entry == entry && out@[k].interval < v@.len()) by {
                    if out@[k] != e {
                        assert(was.contains(out@[k]));
                        let q = choose|q: int| 0 <= q < was.len() && was[q] == out@[k];
                        assert(start.contains(was[q]) || (was[q].entry == entry && was[q].interval
                            < v@.len()));
                    }
                }
            }
            ns = ns + shared_ns(x.start, x.end, r.t0_ns, r.t1_ns);
            n = n + 1;
        } else {
            proof {
                assert(i * (i64::MAX as int) <= (i + 1) * (i64::MAX as int)) by (nonlinear_arith);
            }
        }
        i += 1;
    }
    assert(v@.take(v@.len() as int) =~= v@);
    (n, ns)
}

/// What the walk over the entries found.
#[derive(Debug)]
pub struct Walked {
    /// The events, newest first.
    pub events: Vec<Event>,
    /// The emitters that have one.
    pub emitters: Json,
    /// The entries that have no interval.
    pub no_interval: u64,
}

/// Walks over the entries.
pub fn walk(entries: &Vec<Entry>, r: &Region) -> (out: Option<Walked>)
    requires
        r.t1_ns - r.t0_ns <= i64::MAX,
    ensures
        match out {
            None => emitters_of(entries@, *r) is None,
            Some(w) => {
                &&& emitters_of(entries@, *r) is Some
                &&& w.emitters.view() == JsonV::Array(emitters_of(entries@, *r)->0)
                &&& w.events@ == newest_first(events_of(entries@, *r))
                &&& w.no_interval == without_interval(entries@)
                &&& events_ok(entries@, w.events@)
            },
        },
{
    let mut events: Vec<Event> = Vec::new();
    let mut emitters = Items::new();
    let mut no_interval: u64 = 0;
    let mut i: usize = 0;
    assert(entries@.take(0) =~= Seq::empty());
    assert(events@ =~= newest_first(events_of(entries@.take(0), *r)));
    while i < entries.len()
        invariant
            i <= entries@.len(),
            r.t1_ns - r.t0_ns <= i64::MAX,
            events@ == newest_first(events_of(entries@.take(i as int), *r)),
            events_ok(entries@, events@),
            emitters_of(entries@.take(i as int), *r) == Some(emitters@),
            no_interval == without_interval(entries@.take(i as int)),
            no_interval <= i,
        decreases entries@.len() - i,
    {
        let e = &entries[i];
        let ghost t = entries@.take(i + 1);
        let ghost was = events@;
        proof {
            assert(t.drop_last() =~= entries@.take(i as int));
            assert(t.last() == entries@[i as int]);
            if e.intervals is None || (hits(intervals_of(*e), *r) > 0 && e.explanations is None) {
                assert(emitters_of(t, *r) is None);
                emitters_of_fails(entries@, *r, i + 1);
            }
        }
        let v = match &e.intervals {
            Some(v) => v,
            None => return None,
        };
        let (n, ns) = walk_entry(
            &mut events,
            Ghost(events_of(entries@.take(i as int), *r)),
            v,
            i,
            r,
        );
        proof {
            assert forall|k: int| 0 <= k < events@.len() implies (#[trigger] events@[k]).entry
                < entries@.len() && events@[k].interval < intervals_of(
                entries@[events@[k].entry as int],
            ).len() by {
                if was.contains(events@[k]) {
                    let q = choose|q: int| 0 <= q < was.len() && was[q] == events@[k];
                    assert(was[q].entry < entries@.len());
                }
            }
        }
        if v.len() == 0 {
            no_interval = no_interval + 1;
        }
        if n > 0 {
            match &e.explanations {
                Some(x) => {
                    emitters.push(emitter_json(&e.emitter, x.copy(), n, ns));
                },
                None => return None,
            }
        }
        i += 1;
    }
    assert(entries@.take(entries@.len() as int) =~= entries@);
    Some(Walked { events, emitters: emitters.array(), no_interval })
}

// ---------------------------------------------------------------------------------------------
// Coverage
// ---------------------------------------------------------------------------------------------

/// What was observed of a box.
#[derive(Debug)]
pub struct Observed {
    /// The observed share of it.
    pub observed_fraction: Real,
    /// The same in whole percent.
    pub percent: i64,
    /// Its cells.
    pub cells: u64,
    /// Those that were observed.
    pub observed_cells: u64,
    /// The unobserved stretches.
    pub gaps: Vec<Gap>,
    /// There are more of them.
    pub gaps_truncated: bool,
}

/// What is known of the coverage of a box.
#[derive(Debug)]
pub enum Coverage {
    /// The server keeps no spectrum history.
    NoHistory,
    /// It could not be read.
    Unreadable,
    /// What was observed.
    Read(Observed),
}

/// What an empty catalogue means.
#[derive(Clone, Copy, Debug, PartialEq, Eq, Structural)]
pub enum Meaning {
    /// Nothing: coverage is not known.
    Unknown,
    /// There is no data.
    NoData,
    /// Nothing was on the air.
    Quiet,
    /// Some of it is no data.
    Partial,
}

/// What an empty catalogue means.
pub open spec fn meaning_of(c: Coverage) -> Meaning {
    match c {
        Coverage::NoHistory => Meaning::Unknown,
        Coverage::Unreadable => Meaning::Unknown,
        Coverage::Read(o) => if o.observed_cells == 0 {
            Meaning::NoData
        } else if o.gaps@.len() == 0 {
            Meaning::Quiet
        } else {
            Meaning::Partial
        },
    }
}

/// The sentence that says so.
pub open spec fn statement_of(c: Coverage) -> Seq<char> {
    match c {
        Coverage::NoHistory =>
            "Coverage is unknown: this server keeps no spectrum history, so an empty catalogue here is not evidence of a quiet band."@,
        Coverage::Unreadable =>
            "Coverage could not be read for this region and period, so an empty catalogue here is not evidence of a quiet band."@,
        Coverage::Read(o) => match meaning_of(c) {
            Meaning::NoData =>
                "Nothing here was observed in this period: no data for this period, not a quiet band."@,
            Meaning::Quiet => "This region was observed throughout this period ("@
                + signed_decimal(o.percent as int)
                + " % cell coverage), so an empty catalogue means nothing was on the air here."@,
            _ => signed_decimal(o.percent as int) + " % of this region was observed; "@ + decimal(
                o.gaps@.len(),
            ) + " unobserved stretch"@ + (if o.gaps@.len() == 1 {
                Seq::empty()
            } else {
                "es"@
            }) + " in this period are no data, never a quiet band."@,
        },
    }
}

/// [`meaning_of`].
pub fn meaning(c: &Coverage) -> (r: Meaning)
    ensures
        r == meaning_of(*c),
{
    match c {
        Coverage::NoHistory => Meaning::Unknown,
        Coverage::Unreadable => Meaning::Unknown,
        Coverage::Read(o) => if o.observed_cells == 0 {
            Meaning::NoData
        } else if o.gaps.len() == 0 {
            Meaning::Quiet
        } else {
            Meaning::Partial
        },
    }
}

/// [`statement_of`].
pub fn statement(c: &Coverage) -> (r: String)
    ensures
        r@ == statement_of(*c),
{
    match c {
        Coverage::NoHistory =>
            "Coverage is unknown: this server keeps no spectrum history, so an empty catalogue here is not evidence of a quiet band.".to_owned(),
        Coverage::Unreadable =>
            "Coverage could not be read for this region and period, so an empty catalogue here is not evidence of a quiet band.".to_owned(),
        Coverage::Read(o) => {
            let pct = signed_number(o.percent);
            match meaning(c) {
                Meaning::NoData =>
                    "Nothing here was observed in this period: no data for this period, not a quiet band.".to_owned(),
                Meaning::Quiet => String::from_str(
                    "This region was observed throughout this period (",
                ).concat(pct.as_str()).concat(
                    " % cell coverage), so an empty catalogue means nothing was on the air here.",
                ),
                _ => {
                    let n = number(o.gaps.len() as u64);
                    let none = String::new();
                    assert(none@ =~= Seq::empty());
                    let es = if o.gaps.len() == 1 {
                        none
                    } else {
                        "es".to_owned()
                    };
                    pct.concat(" % of this region was observed; ").concat(n.as_str()).concat(
                        " unobserved stretch",
                    ).concat(es.as_str()).concat(" in this period are no data, never a quiet band.")
                },
            }
        },
    }
}

/// An empty catalogue is called quiet only where the whole box was observed.
pub proof fn only_the_observed_is_quiet(c: Coverage)
    ensures
        meaning_of(c) is Quiet <==> (match c {
            Coverage::Read(o) => o.observed_cells > 0 && o.gaps@.len() == 0,
            _ => false,
        }),
        meaning_of(c) is Unknown <==> !(c is Read),
        meaning_of(c) is NoData <==> (c matches Coverage::Read(o) && o.observed_cells == 0),
        meaning_of(c) is Partial <==> (c matches Coverage::Read(o) && o.observed_cells > 0
            && o.gaps@.len() > 0),
{
}

/// The unobserved stretches as they are served.
pub open spec fn gaps_v(v: Seq<Gap>) -> Seq<JsonV> {
    v.map_values(
        |g: Gap|
            JsonV::Object(
                no_fields().push(("t0_s"@, seconds_v(g.start))).push(("t1_s"@, seconds_v(g.end))),
            ),
    )
}

fn gaps_json(v: &Vec<Gap>) -> (r: Json)
    ensures
        r.view() == JsonV::Array(gaps_v(v@)),
{
    let ghost want = gaps_v(v@);
    let mut out = Items::new();
    let mut i: usize = 0;
    assert(want.take(0) =~= Seq::empty());
    while i < v.len()
        invariant
            want == gaps_v(v@),
            i <= v@.len(),
            out@ == want.take(i as int),
        decreases v@.len() - i,
    {
        let mut f = Fields::new();
        f.put("t0_s", Json::seconds(v[i].start));
        f.put("t1_s", Json::seconds(v[i].end));
        let x = f.object();
        assert(want.take(i + 1) =~= want.take(i as int).push(x.view()));
        out.push(x);
        i += 1;
    }
    assert(want.take(v@.len() as int) =~= want);
    out.array()
}

/// The coverage of the box as it is served.
pub open spec fn coverage_v(c: Coverage) -> JsonV {
    let (source, fraction, cells, observed, gaps, truncated) = match c {
        Coverage::NoHistory => (
            JsonV::Null,
            JsonV::Null,
            JsonV::Null,
            JsonV::Null,
            JsonV::Null,
            JsonV::Null,
        ),
        Coverage::Unreadable => (
            text_v("spectrum-history"@),
            JsonV::Null,
            JsonV::Null,
            JsonV::Null,
            JsonV::Null,
            JsonV::Null,
        ),
        Coverage::Read(o) => (
            text_v("spectrum-history"@),
            real_v(o.observed_fraction),
            uint_v(o.cells as int),
            uint_v(o.observed_cells as int),
            JsonV::Array(gaps_v(o.gaps@)),
            JsonV::Bool(o.gaps_truncated),
        ),
    };
    JsonV::Object(
        no_fields().push(("source"@, source)).push(("observed_fraction"@, fraction)).push(
            ("cells"@, cells),
        ).push(("observed_cells"@, observed)).push(("gaps"@, gaps)).push(
            ("gaps_truncated"@, truncated),
        ).push(("statement"@, text_v(statement_of(c)))),
    )
}

/// [`coverage_v`].
pub fn coverage_json(c: &Coverage) -> (r: Json)
    ensures
        r.view() == coverage_v(*c),
{
    let mut f = Fields::new();
    match c {
        Coverage::Read(o) => {
            f.put("source", Json::text("spectrum-history"));
            f.put("observed_fraction", Json::double(o.observed_fraction));
            f.put("cells", Json::uint(o.cells));
            f.put("observed_cells", Json::uint(o.observed_cells));
            f.put("gaps", gaps_json(&o.gaps));
            f.put("gaps_truncated", Json::Bool(o.gaps_truncated));
        },
        Coverage::Unreadable => {
            f.put("source", Json::text("spectrum-history"));
            f.put("observed_fraction", Json::Null);
            f.put("cells", Json::Null);
            f.put("observed_cells", Json::Null);
            f.put("gaps", Json::Null);
            f.put("gaps_truncated", Json::Null);
        },
        Coverage::NoHistory => {
            f.put("source", Json::Null);
            f.put("observed_fraction", Json::Null);
            f.put("cells", Json::Null);
            f.put("observed_cells", Json::Null);
            f.put("gaps", Json::Null);
            f.put("gaps_truncated", Json::Null);
        },
    }
    f.put("statement", Json::Text(statement(c)));
    f.object()
}

// ---------------------------------------------------------------------------------------------
// The answer
// ---------------------------------------------------------------------------------------------

/// The page of a list.
pub open spec fn page_of(v: Seq<Event>, offset: usize, limit: usize) -> Seq<Event> {
    let from = smaller(offset as int, v.len() as int);
    let to = smaller(from + limit, v.len() as int);
    v.subrange(from, to)
}

/// A page as it is served.
pub open spec fn page_v(entries: Seq<Entry>, page: Seq<Event>, r: Region) -> Seq<JsonV> {
    page.map_values(|e: Event| event_at(entries, e, r))
}

fn page_json(entries: &Vec<Entry>, v: &Vec<Event>, q: &EventsQuery) -> (out: (Json, usize))
    requires
        q.region.t1_ns - q.region.t0_ns <= i64::MAX,
        events_ok(entries@, v@),
    ensures
        out.0.view() == JsonV::Array(page_v(entries@, page_of(v@, q.offset, q.limit), q.region)),
        out.1 == page_of(v@, q.offset, q.limit).len(),
{
    let from: usize = if q.offset <= v.len() {
        q.offset
    } else {
        v.len()
    };
    let to: usize = if q.limit <= v.len() - from {
        from + q.limit
    } else {
        v.len()
    };
    let ghost page = page_of(v@, q.offset, q.limit);
    let ghost want = page_v(entries@, page, q.region);
    assert(page =~= v@.subrange(from as int, to as int));
    let mut out = Items::new();
    let mut i: usize = from;
    assert(want.take(0) =~= Seq::empty());
    while i < to
        invariant
            q.region.t1_ns - q.region.t0_ns <= i64::MAX,
            events_ok(entries@, v@),
            from <= i <= to <= v@.len(),
            page == v@.subrange(from as int, to as int),
            want == page_v(entries@, page, q.region),
            out@ == want.take(i - from),
        decreases to - i,
    {
        let e = v[i];
        let entry = &entries[e.entry];
        if let Some(intervals) = &entry.intervals {
            let x = event_json(entry.emitter.id.as_str(), &intervals[e.interval], &q.region);
            proof {
                assert(page[i - from] == e);
                assert(want.take(i + 1 - from) =~= want.take(i - from).push(x.view()));
            }
            out.push(x);
        }
        i += 1;
    }
    assert(want.take(to - from) =~= want);
    (out.array(), to - from)
}

/// Consecutive pages have each event once: together they are the page of both sizes.
pub proof fn pages_follow_one_another(v: Seq<Event>, offset: usize, limit: usize, more: usize)
    requires
        offset + limit <= usize::MAX,
        limit + more <= usize::MAX,
    ensures
        page_of(v, offset, limit) + page_of(v, (offset + limit) as usize, more) == page_of(
            v,
            offset,
            (limit + more) as usize,
        ),
{
    assert(page_of(v, offset, limit) + page_of(v, (offset + limit) as usize, more) =~= page_of(
        v,
        offset,
        (limit + more) as usize,
    ));
}

/// A page is the list from the offset on, as much of it as the limit takes.
pub proof fn a_page_starts_at_its_offset(v: Seq<Event>, offset: usize, limit: usize)
    ensures
        page_of(v, offset, limit).len() <= limit,
        offset + page_of(v, offset, limit).len() < v.len() ==> page_of(v, offset, limit).len()
            == limit,
        offset >= v.len() ==> page_of(v, offset, limit).len() == 0,
        offset < v.len() ==> offset + page_of(v, offset, limit).len() <= v.len(),
        offset < v.len() && limit > 0 ==> page_of(v, offset, limit).len() > 0,
        forall|k: int|
            0 <= k < page_of(v, offset, limit).len() ==> #[trigger] page_of(v, offset, limit)[k]
                == v[offset + k],
{
}

/// What a reader finds of an event: whose it is, from when to when it was, and how much of it was on
/// air in the window.
pub proof fn an_event_says_when_it_was(emitter_id: Seq<char>, i: Interval, r: Region)
    ensures
        at(event_v(emitter_id, i, r), "emitter_id"@) == Some(text_v(emitter_id)),
        at(event_v(emitter_id, i, r), "t_start_s"@) == Some(seconds_v(i.start)),
        at(event_v(emitter_id, i, r), "t_end_s"@) == Some(seconds_v(i.end)),
        at(event_v(emitter_id, i, r), "in_window_s"@) == Some(seconds_v(in_window(i, r) as i64)),
        at(event_v(emitter_id, i, r), "open"@) == Some(JsonV::Bool(i.open)),
        at(event_v(emitter_id, i, r), "count"@) == Some(uint_v(i.count as int)),
{
    let f = event_v(emitter_id, i, r)->Object_0;
    member_is_the_first(f, "emitter_id"@, 0);
    assert("emitter_id"@ != "t_start_s"@) by {
        reveal_strlit("emitter_id");
        reveal_strlit("t_start_s");
        assert("emitter_id"@.len() != "t_start_s"@.len());
    }
    member_is_the_first(f, "t_start_s"@, 1);
    assert("emitter_id"@ != "t_end_s"@) by {
        reveal_strlit("emitter_id");
        reveal_strlit("t_end_s");
        assert("emitter_id"@.len() != "t_end_s"@.len());
    }
    assert("t_start_s"@ != "t_end_s"@) by {
        reveal_strlit("t_start_s");
        reveal_strlit("t_end_s");
        assert("t_start_s"@.len() != "t_end_s"@.len());
    }
    member_is_the_first(f, "t_end_s"@, 2);
    assert("emitter_id"@ != "in_window_s"@) by {
        reveal_strlit("emitter_id");
        reveal_strlit("in_window_s");
        assert("emitter_id"@.len() != "in_window_s"@.len());
    }
    assert("t_start_s"@ != "in_window_s"@) by {
        reveal_strlit("t_start_s");
        reveal_strlit("in_window_s");
        assert("t_start_s"@.len() != "in_window_s"@.len());
    }
    assert("t_end_s"@ != "in_window_s"@) by {
        reveal_strlit("t_end_s");
        reveal_strlit("in_window_s");
        assert("t_end_s"@.len() != "in_window_s"@.len());
    }
    assert("duration_s"@ != "in_window_s"@) by {
        reveal_strlit("duration_s");
        reveal_strlit("in_window_s");
        assert("duration_s"@.len() != "in_window_s"@.len());
    }
    member_is_the_first(f, "in_window_s"@, 4);
    assert("emitter_id"@ != "open"@) by {
        reveal_strlit("emitter_id");
        reveal_strlit("open");
        assert("emitter_id"@.len() != "open"@.len());
    }
    assert("t_start_s"@ != "open"@) by {
        reveal_strlit("t_start_s");
        reveal_strlit("open");
        assert("t_start_s"@.len() != "open"@.len());
    }
    assert("t_end_s"@ != "open"@) by {
        reveal_strlit("t_end_s");
        reveal_strlit("open");
        assert("t_end_s"@.len() != "open"@.len());
    }
    assert("duration_s"@ != "open"@) by {
        reveal_strlit("duration_s");
        reveal_strlit("open");
        assert("duration_s"@.len() != "open"@.len());
    }
    assert("in_window_s"@ != "open"@) by {
        reveal_strlit("in_window_s");
        reveal_strlit("open");
        assert("in_window_s"@.len() != "open"@.len());
    }
    member_is_the_first(f, "open"@, 5);
    assert("emitter_id"@ != "count"@) by {
        reveal_strlit("emitter_id");
        reveal_strlit("count");
        assert("emitter_id"@.len() != "count"@.len());
    }
    assert("t_start_s"@ != "count"@) by {
        reveal_strlit("t_start_s");
        reveal_strlit("count");
        assert("t_start_s"@.len() != "count"@.len());
    }
    assert("t_end_s"@ != "count"@) by {
        reveal_strlit("t_end_s");
        reveal_strlit("count");
        assert("t_end_s"@.len() != "count"@.len());
    }
    assert("duration_s"@ != "count"@) by {
        reveal_strlit("duration_s");
        reveal_strlit("count");
        assert("duration_s"@.len() != "count"@.len());
    }
    assert("in_window_s"@ != "count"@) by {
        reveal_strlit("in_window_s");
        reveal_strlit("count");
        assert("in_window_s"@.len() != "count"@.len());
    }
    assert("open"@ != "count"@) by {
        reveal_strlit("open");
        reveal_strlit("count");
        assert("open"@.len() != "count"@.len());
    }
    assert("revoked_s"@ != "count"@) by {
        reveal_strlit("revoked_s");
        reveal_strlit("count");
        assert("revoked_s"@.len() != "count"@.len());
    }
    member_is_the_first(f, "count"@, 7);
}

/// What one entry more does to the emitters that are served: the store's failure is everyone's; an
/// emitter without an event in the window is not served; every other is, behind the earlier ones,
/// with the number of its events and its time on air.
pub proof fn emitters_are_served_with_their_events(entries: Seq<Entry>, e: Entry, r: Region)
    ensures
        emitters_of(Seq::empty(), r) == Some(Seq::<JsonV>::empty()),
        emitters_of(entries, r) is None ==> emitters_of(entries.push(e), r) is None,
        e.intervals is None ==> emitters_of(entries.push(e), r) is None,
        emitters_of(entries, r) matches Some(b) ==> (e.intervals matches Some(v) ==> {
            &&& hits(v@, r) == 0 ==> emitters_of(entries.push(e), r) == Some(b)
            &&& hits(v@, r) > 0 && e.explanations is None ==> emitters_of(
                entries.push(e),
                r,
            ) is None
            &&& hits(v@, r) > 0 ==> (e.explanations matches Some(x) ==> emitters_of(
                entries.push(e),
                r,
            ) == Some(b.push(emitter_v(e.emitter, x.view(), hits(v@, r), on_air(v@, r)))))
        }),
        without_interval(entries.push(e)) == without_interval(entries) + (if e.intervals is Some
            && e.intervals->0@.len() > 0 {
            0nat
        } else {
            1nat
        }),
        without_interval(Seq::empty()) == 0,
{
    assert(entries.push(e).drop_last() =~= entries);
}

/// The entries of a box, and whether there are more.
#[derive(Debug)]
pub struct Page {
    /// The entries.
    pub entries: Vec<Entry>,
    /// There are more.
    pub truncated: bool,
}

/// The box as it is served.
pub open spec fn region_v(r: Region) -> JsonV {
    JsonV::Object(
        no_fields().push(("f_lo_hz"@, real_v(r.f_lo))).push(("f_hi_hz"@, real_v(r.f_hi))).push(
            ("t0_s"@, seconds_v(r.t0_ns)),
        ).push(("t1_s"@, seconds_v(r.t1_ns))),
    )
}

fn region_json(r: &Region) -> (out: Json)
    ensures
        out.view() == region_v(*r),
{
    let mut f = Fields::new();
    f.put("f_lo_hz", Json::double(r.f_lo));
    f.put("f_hi_hz", Json::double(r.f_hi));
    f.put("t0_s", Json::seconds(r.t0_ns));
    f.put("t1_s", Json::seconds(r.t1_ns));
    f.object()
}

/// What is answered: every event of the box, newest first, a page of them; the emitters that they
/// belong to; and what was observed.
pub open spec fn events_answer_of(q: EventsQuery, page: Option<Page>, coverage: Coverage) -> Result<
    JsonV,
    ApiErrorV,
> {
    match page {
        None => Err(failed_v()),
        Some(p) => match emitters_of(p.entries@, q.region) {
            None => Err(failed_v()),
            Some(emitters) => {
                let all = newest_first(events_of(p.entries@, q.region));
                let listed = page_of(all, q.offset, q.limit);
                Ok(
                    JsonV::Object(
                        no_fields().push(("window"@, region_v(q.region))).push(
                            ("events"@, JsonV::Array(page_v(p.entries@, listed, q.region))),
                        ).push(("emitters"@, JsonV::Array(emitters))).push(
                            ("total"@, uint_v(all.len() as int)),
                        ).push(("limit"@, uint_v(q.limit as int))).push(
                            (
                                "next_cursor"@,
                                opt_text_v(
                                    next_start(
                                        q.offset,
                                        listed.len(),
                                        all.len() as u64,
                                        MAX_EVENTS_CURSOR as usize,
                                    ),
                                ),
                            ),
                        ).push(("emitters_truncated"@, JsonV::Bool(p.truncated))).push(
                            (
                                "emitters_no_interval"@,
                                uint_v(without_interval(p.entries@) as int),
                            ),
                        ).push(("coverage"@, coverage_v(coverage))).push(
                            ("identity_access"@, text_v("standard"@)),
                        ),
                    ),
                )
            },
        },
    }
}

/// What an answer or its refusal holds.
pub open spec fn answer_result(r: Result<Json, ApiError>) -> Result<JsonV, ApiErrorV> {
    match r {
        Ok(j) => Ok(j.view()),
        Err(e) => Err(e@),
    }
}

/// [`events_answer_of`].
pub fn events_json(q: &EventsQuery, page: Option<Page>, coverage: &Coverage) -> (r: Result<
    Json,
    ApiError,
>)
    requires
        q.region.t1_ns - q.region.t0_ns <= i64::MAX,
    ensures
        answer_result(r) == events_answer_of(*q, page, *coverage),
{
    let p = match page {
        Some(p) => p,
        None => return Err(failed()),
    };
    let w = match walk(&p.entries, &q.region) {
        Some(w) => w,
        None => return Err(failed()),
    };
    let (listed, count) = page_json(&p.entries, &w.events, q);
    let total = w.events.len() as u64;
    let mut f = Fields::new();
    f.put("window", region_json(&q.region));
    f.put("events", listed);
    f.put("emitters", w.emitters);
    f.put("total", Json::uint(total));
    f.put("limit", Json::uint(q.limit as u64));
    f.put("next_cursor", next_cursor(q.offset, count, total, MAX_EVENTS_CURSOR as usize));
    f.put("emitters_truncated", Json::Bool(p.truncated));
    f.put("emitters_no_interval", Json::uint(w.no_interval));
    f.put("coverage", coverage_json(coverage));
    f.put("identity_access", Json::text("standard"));
    Ok(f.object())
}

/// What a reader finds in the answer: the box asked for, the number of all its events, a page of
/// them, newest first, and where the next page starts. It fails only where the store does.
pub proof fn the_answer_is_of_the_box(q: EventsQuery, page: Option<Page>, coverage: Coverage)
    ensures
        page is None ==> events_answer_of(q, page, coverage) is Err,
        page matches Some(p) ==> {
            let answer = events_answer_of(q, page, coverage);
            let all = newest_first(events_of(p.entries@, q.region));
            &&& answer is Ok <==> emitters_of(p.entries@, q.region) is Some
            &&& answer matches Ok(a) ==> {
                &&& at(a, "window"@) == Some(region_v(q.region))
                &&& at(a, "events"@) == Some(
                    JsonV::Array(page_v(p.entries@, page_of(all, q.offset, q.limit), q.region)),
                )
                &&& at(a, "emitters"@) == Some(
                    JsonV::Array(emitters_of(p.entries@, q.region)->0),
                )
                &&& at(a, "total"@) == Some(uint_v(all.len() as int))
                &&& at(a, "limit"@) == Some(uint_v(q.limit as int))
                &&& q.offset + page_of(all, q.offset, q.limit).len() >= all.len() as u64 ==> at(
                    a,
                    "next_cursor"@,
                ) == Some(JsonV::Null)
                &&& at(a, "emitters_truncated"@) == Some(JsonV::Bool(p.truncated))
                &&& at(a, "emitters_no_interval"@) == Some(
                    uint_v(without_interval(p.entries@) as int),
                )
                &&& at(a, "coverage"@) == Some(coverage_v(coverage))
            }
        },
{
    if let Ok(a) = events_answer_of(q, page, coverage) {
        let f = a->Object_0;
        member_is_the_first(f, "window"@, 0);
        assert("window"@ != "events"@) by {
            reveal_strlit("window");
            reveal_strlit("events");
            assert("window"@[0] != "events"@[0]);
        }
        member_is_the_first(f, "events"@, 1);
        assert("window"@ != "emitters"@) by {
            reveal_strlit("window");
            reveal_strlit("emitters");
            assert("window"@.len() != "emitters"@.len());
        }
        assert("events"@ != "emitters"@) by {
            reveal_strlit("events");
            reveal_strlit("emitters");
            assert("events"@.len() != "emitters"@.len());
        }
        member_is_the_first(f, "emitters"@, 2);
        assert("window"@ != "total"@) by {
            reveal_strlit("window");
            reveal_strlit("total");
            assert("window"@.len() != "total"@.len());
        }
        assert("events"@ != "total"@) by {
            reveal_strlit("events");
            reveal_strlit("total");
            assert("events"@.len() != "total"@.len());
        }
        assert("emitters"@ != "total"@) by {
            reveal_strlit("emitters");
            reveal_strlit("total");
            assert("emitters"@.len() != "total"@.len());
        }
        member_is_the_first(f, "total"@, 3);
        assert("window"@ != "limit"@) by {
            reveal_strlit("window");
            reveal_strlit("limit");
            assert("window"@.len() != "limit"@.len());
        }
        assert("events"@ != "limit"@) by {
            reveal_strlit("events");
            reveal_strlit("limit");
            assert("events"@.len() != "limit"@.len());
        }
        assert("emitters"@ != "limit"@) by {
            reveal_strlit("emitters");
            reveal_strlit("limit");
            assert("emitters"@.len() != "limit"@.len());
        }
        assert("total"@ != "limit"@) by {
            reveal_strlit("total");
            reveal_strlit("limit");
            assert("total"@[0] != "limit"@[0]);
        }
        member_is_the_first(f, "limit"@, 4);
        assert("window"@ != "next_cursor"@) by {
            reveal_strlit("window");
            reveal_strlit("next_cursor");
            assert("window"@.len() != "next_cursor"@.len());
        }
        assert("events"@ != "next_cursor"@) by {
            reveal_strlit("events");
            reveal_strlit("next_cursor");
            assert("events"@.len() != "next_cursor"@.len());
        }
        assert("emitters"@ != "next_cursor"@) by {
            reveal_strlit("emitters");
            reveal_strlit("next_cursor");
            assert("emitters"@.len() != "next_cursor"@.len());
        }
        assert("total"@ != "next_cursor"@) by {
            reveal_strlit("total");
            reveal_strlit("next_cursor");
            assert("total"@.len() != "next_cursor"@.len());
        }
        assert("limit"@ != "next_cursor"@) by {
            reveal_strlit("limit");
            reveal_strlit("next_cursor");
            assert("limit"@.len() != "next_cursor"@.len());
        }
        member_is_the_first(f, "next_cursor"@, 5);
        assert("window"@ != "emitters_truncated"@) by {
            reveal_strlit("window");
            reveal_strlit("emitters_truncated");
            assert("window"@.len() != "emitters_truncated"@.len());
        }
        assert("events"@ != "emitters_truncated"@) by {
            reveal_strlit("events");
            reveal_strlit("emitters_truncated");
            assert("events"@.len() != "emitters_truncated"@.len());
        }
        assert("emitters"@ != "emitters_truncated"@) by {
            reveal_strlit("emitters");
            reveal_strlit("emitters_truncated");
            assert("emitters"@.len() != "emitters_truncated"@.len());
        }
        assert("total"@ != "emitters_truncated"@) by {
            reveal_strlit("total");
            reveal_strlit("emitters_truncated");
            assert("total"@.len() != "emitters_truncated"@.len());
        }
        assert("limit"@ != "emitters_truncated"@) by {
            reveal_strlit("limit");
            reveal_strlit("emitters_truncated");
            assert("limit"@.len() != "emitters_truncated"@.len());
        }
        assert("next_cursor"@ != "emitters_truncated"@) by {
            reveal_strlit("next_cursor");
            reveal_strlit("emitters_truncated");
            assert("next_cursor"@.len() != "emitters_truncated"@.len());
        }
        member_is_the_first(f, "emitters_truncated"@, 6);
        assert("window"@ != "emitters_no_interval"@) by {
            reveal_strlit("window");
            reveal_strlit("emitters_no_interval");
            assert("window"@.len() != "emitters_no_interval"@.len());
        }
        assert("events"@ != "emitters_no_interval"@) by {
            reveal_strlit("events");
            reveal_strlit("emitters_no_interval");
            assert("events"@.len() != "emitters_no_interval"@.len());
        }
        assert("emitters"@ != "emitters_no_interval"@) by {
            reveal_strlit("emitters");
            reveal_strlit("emitters_no_interval");
            assert("emitters"@.len() != "emitters_no_interval"@.len());
        }
        assert("total"@ != "emitters_no_interval"@) by {
            reveal_strlit("total");
            reveal_strlit("emitters_no_interval");
            assert("total"@.len() != "emitters_no_interval"@.len());
        }
        assert("limit"@ != "emitters_no_interval"@) by {
            reveal_strlit("limit");
            reveal_strlit("emitters_no_interval");
            assert("limit"@.len() != "emitters_no_interval"@.len());
        }
        assert("next_cursor"@ != "emitters_no_interval"@) by {
            reveal_strlit("next_cursor");
            reveal_strlit("emitters_no_interval");
            assert("next_cursor"@.len() != "emitters_no_interval"@.len());
        }
        assert("emitters_truncated"@ != "emitters_no_interval"@) by {
            reveal_strlit("emitters_truncated");
            reveal_strlit("emitters_no_interval");
            assert("emitters_truncated"@.len() != "emitters_no_interval"@.len());
        }
        member_is_the_first(f, "emitters_no_interval"@, 7);
        assert("window"@ != "coverage"@) by {
            reveal_strlit("window");
            reveal_strlit("coverage");
            assert("window"@.len() != "coverage"@.len());
        }
        assert("events"@ != "coverage"@) by {
            reveal_strlit("events");
            reveal_strlit("coverage");
            assert("events"@.len() != "coverage"@.len());
        }
        assert("emitters"@ != "coverage"@) by {
            reveal_strlit("emitters");
            reveal_strlit("coverage");
            assert("emitters"@[0] != "coverage"@[0]);
        }
        assert("total"@ != "coverage"@) by {
            reveal_strlit("total");
            reveal_strlit("coverage");
            assert("total"@.len() != "coverage"@.len());
        }
        assert("limit"@ != "coverage"@) by {
            reveal_strlit("limit");
            reveal_strlit("coverage");
            assert("limit"@.len() != "coverage"@.len());
        }
        assert("next_cursor"@ != "coverage"@) by {
            reveal_strlit("next_cursor");
            reveal_strlit("coverage");
            assert("next_cursor"@.len() != "coverage"@.len());
        }
        assert("emitters_truncated"@ != "coverage"@) by {
            reveal_strlit("emitters_truncated");
            reveal_strlit("coverage");
            assert("emitters_truncated"@.len() != "coverage"@.len());
        }
        assert("emitters_no_interval"@ != "coverage"@) by {
            reveal_strlit("emitters_no_interval");
            reveal_strlit("coverage");
            assert("emitters_no_interval"@.len() != "coverage"@.len());
        }
        member_is_the_first(f, "coverage"@, 8);
    }
}

} // verus!
