//! Changes of coverage: the band that each front end is on, and one event for each move.

use vstd::prelude::*;

use crate::coverage::Device;
use crate::double::{reals_are_ordered, Real, INFINITE};
use crate::evidence::{CoverageSpan, Segment};
use crate::http::{api_error_v, api_outcome, ApiError, ApiErrorV};
use crate::json::{
    at, items_view, list, list_v, member_is_the_first, no_fields, real_v, seconds_v, text_v, uint_v,
    Fields, Items, Json, JsonV, ToJson,
};
use crate::ordered::{
    find, in_order, offered, offered_in_order, one_entry_under_a_name, other_names_are_kept, place,
    place_is_first, put, under, Keyed,
};
use crate::params::{allowed_parameters_are_not_stray, find_stray, stray};
use crate::request::pairs;
use crate::text::texts;

verus! {

/// The most subscriptions at once.
pub const MAX_CHANGE_FEEDS: usize = 16;

/// How often a subscription reads the tune record, ms.
pub const CHANGE_TICK_MS: u64 = 100;

// ---------------------------------------------------------------------------------------------
// Where the front ends are
// ---------------------------------------------------------------------------------------------

/// Which record says where a front end is.
#[derive(Clone, Copy, Debug, PartialEq, Eq, Structural)]
pub enum Source {
    /// The IQ ring's journal.
    IqRing,
    /// The dwell in flight.
    OpenDwell,
}

impl Source {
    /// Its name.
    pub open spec fn wire(self) -> Seq<char> {
        match self {
            Source::IqRing => "iq-ring"@,
            Source::OpenDwell => "open-dwell"@,
        }
    }

    /// Its name.
    pub fn as_str(self) -> (r: &'static str)
        ensures
            r@ == self.wire(),
    {
        match self {
            Source::IqRing => "iq-ring",
            Source::OpenDwell => "open-dwell",
        }
    }
}

/// The band that one front end is on.
#[derive(Debug, PartialEq, Eq)]
pub struct Tuned {
    /// The front end.
    pub device: String,
    /// The lower edge, Hz.
    pub f_lo_hz: Real,
    /// The upper edge, Hz.
    pub f_hi_hz: Real,
    /// When it arrived, ns.
    pub since_ns: i64,
    /// How far forward the record of it reaches, ns.
    pub reach_ns: i64,
    /// Which record says so.
    pub source: Source,
}

/// What a [`Tuned`] holds.
#[verifier::ext_equal]
pub struct TunedV {
    /// The front end.
    pub device: Seq<char>,
    /// The lower edge, Hz.
    pub f_lo_hz: Real,
    /// The upper edge, Hz.
    pub f_hi_hz: Real,
    /// When it arrived, ns.
    pub since_ns: i64,
    /// How far forward the record of it reaches, ns.
    pub reach_ns: i64,
    /// Which record says so.
    pub source: Source,
}

impl Keyed for Tuned {
    open spec fn key(self) -> Seq<char> {
        self.device@
    }

    fn name(&self) -> (r: &str) {
        self.device.as_str()
    }
}

impl Tuned {
    /// What it holds.
    pub open spec fn view(&self) -> TunedV {
        TunedV {
            device: self.device@,
            f_lo_hz: self.f_lo_hz,
            f_hi_hz: self.f_hi_hz,
            since_ns: self.since_ns,
            reach_ns: self.reach_ns,
            source: self.source,
        }
    }

    /// Its band.
    pub open spec fn band_v(self) -> JsonV {
        JsonV::Object(
            no_fields().push(("f_lo"@, real_v(self.f_lo_hz))).push(("f_hi"@, real_v(self.f_hi_hz))),
        )
    }

    fn band_json(&self) -> (r: Json)
        ensures
            r.view() == self.band_v(),
    {
        let mut f = Fields::new();
        f.put("f_lo", Json::double(self.f_lo_hz));
        f.put("f_hi", Json::double(self.f_hi_hz));
        f.object()
    }
}

impl ToJson for Tuned {
    open spec fn json_v(self) -> JsonV {
        JsonV::Object(
            no_fields().push(("device"@, text_v(self.device@))).push(
                ("f_lo"@, real_v(self.f_lo_hz)),
            ).push(("f_hi"@, real_v(self.f_hi_hz))).push(
                ("since_s"@, seconds_v(self.since_ns)),
            ).push(("as_of_s"@, seconds_v(self.reach_ns))).push(
                ("source"@, text_v(self.source.wire())),
            ),
        )
    }

    fn to_json(&self) -> (r: Json) {
        let mut f = Fields::new();
        f.put("device", Json::text(self.device.as_str()));
        f.put("f_lo", Json::double(self.f_lo_hz));
        f.put("f_hi", Json::double(self.f_hi_hz));
        f.put("since_s", Json::seconds(self.since_ns));
        f.put("as_of_s", Json::seconds(self.reach_ns));
        f.put("source", Json::text(self.source.as_str()));
        f.object()
    }
}

/// The lower of two edges; a NaN gives way to the other.
pub open spec fn lower(a: Real, b: Real) -> Real {
    if a.nan() || b.below(a) {
        b
    } else {
        a
    }
}

/// The upper of two edges; a NaN gives way to the other.
pub open spec fn upper(a: Real, b: Real) -> Real {
    if a.nan() || a.below(b) {
        b
    } else {
        a
    }
}

fn lower_of(a: Real, b: Real) -> (r: Real)
    ensures
        r == lower(a, b),
{
    if a.unsigned_bits() > INFINITE || b.lt(a) {
        b
    } else {
        a
    }
}

fn upper_of(a: Real, b: Real) -> (r: Real)
    ensures
        r == upper(a, b),
{
    if a.unsigned_bits() > INFINITE || a.lt(b) {
        b
    } else {
        a
    }
}

/// The record in hand gives way to a newer one alone.
pub open spec fn newest_kept(v: Seq<Tuned>, t: Tuned) -> Seq<Tuned> {
    match under(v, t.device@) {
        Some(have) => if have.since_ns >= t.since_ns {
            v
        } else {
            offered(v, t)
        },
        None => offered(v, t),
    }
}

/// The newest record of each front end.
pub open spec fn newest_of(list: Seq<Tuned>) -> Seq<Tuned>
    decreases list.len(),
{
    if list.len() == 0 {
        Seq::empty()
    } else {
        newest_kept(newest_of(list.drop_last()), list.last())
    }
}

/// Of some records of a front end the newest stays.
pub proof fn the_newest_record_stays(list: Seq<Tuned>)
    ensures
        in_order(newest_of(list)),
        forall|i: int|
            0 <= i < list.len() ==> (under(newest_of(list), (#[trigger] list[i]).device@) is Some
                && under(newest_of(list), list[i].device@)->0.since_ns >= list[i].since_ns),
    decreases list.len(),
{
    if list.len() > 0 {
        let l = list.drop_last();
        let t = list.last();
        the_newest_record_stays(l);
        let v = newest_of(l);
        offered_in_order(v, t);
        assert forall|i: int| 0 <= i < list.len() implies (under(
            newest_of(list),
            (#[trigger] list[i]).device@,
        ) is Some && under(newest_of(list), list[i].device@)->0.since_ns >= list[i].since_ns) by {
            if i < l.len() {
                assert(l[i] == list[i]);
                if list[i].device@ != t.device@ {
                    other_names_are_kept(v, t, list[i].device@);
                }
            }
        }
    }
}

fn keep_newest(list: Vec<Tuned>) -> (r: Vec<Tuned>)
    ensures
        r@ == newest_of(list@),
        in_order(r@),
{
    let ghost all = list@;
    let mut list = list;
    let mut rest: Vec<Tuned> = Vec::new();
    while list.len() > 0
        invariant
            all == list@ + rest@.reverse(),
        decreases list@.len(),
    {
        let ghost before = list@;
        let ghost kept = rest@;
        match list.pop() {
            Some(t) => {
                rest.push(t);
                assert(list@ + rest@.reverse() =~= before + kept.reverse());
            },
            None => {},
        }
    }
    let mut out: Vec<Tuned> = Vec::new();
    let ghost mut done: Seq<Tuned> = Seq::empty();
    assert(list@ =~= Seq::empty());
    assert(done + rest@.reverse() =~= all);
    while rest.len() > 0
        invariant
            all == done + rest@.reverse(),
            out@ == newest_of(done),
            in_order(out@),
        decreases rest@.len(),
    {
        let ghost before = rest@;
        let ghost was = done;
        match rest.pop() {
            Some(t) => {
                proof {
                    done = done.push(t);
                    assert(done.drop_last() =~= was);
                    assert(done + rest@.reverse() =~= was + before.reverse());
                    offered_in_order(out@, t);
                }
                let (i, there) = find(&out, t.device.as_str());
                if !(there && out[i].since_ns >= t.since_ns) {
                    put(&mut out, t);
                }
            },
            None => {},
        }
    }
    assert(rest@ =~= Seq::empty());
    assert(done =~= all);
    out
}

/// The name of a front end.
pub fn device_name(d: &Device) -> (r: String)
    ensures
        r@ == d@.label(),
{
    d.as_str().to_owned()
}

/// What the segment at `i` of the ring says: `edges` are the edges of its band.
pub open spec fn ring_v(s: Segment, edges: (Real, Real)) -> TunedV {
    TunedV {
        device: s.device@.label(),
        f_lo_hz: edges.0,
        f_hi_hz: edges.1,
        since_ns: s.t0,
        reach_ns: s.t1,
        source: Source::IqRing,
    }
}

/// What the segments of the ring say; an empty one says nothing.
pub open spec fn ring_list(v: Seq<Segment>, edges: Seq<(Real, Real)>) -> Seq<TunedV>
    decreases v.len(),
{
    if v.len() == 0 {
        Seq::empty()
    } else {
        let before = ring_list(v.drop_last(), edges);
        if v.last().t1 > v.last().t0 {
            before.push(ring_v(v.last(), edges[v.len() - 1]))
        } else {
            before
        }
    }
}

/// What some bands hold.
pub open spec fn tuned_view(v: Seq<Tuned>) -> Seq<TunedV> {
    v.map_values(|t: Tuned| t@)
}

fn read_ring(v: &Vec<Segment>, edges: &Vec<(Real, Real)>) -> (r: Vec<Tuned>)
    requires
        edges@.len() == v@.len(),
    ensures
        tuned_view(r@) == ring_list(v@, edges@),
{
    let mut out: Vec<Tuned> = Vec::new();
    let mut i: usize = 0;
    assert(v@.take(0) =~= Seq::empty());
    assert(tuned_view(out@) =~= Seq::empty());
    while i < v.len()
        invariant
            edges@.len() == v@.len(),
            i <= v@.len(),
            tuned_view(out@) == ring_list(v@.take(i as int), edges@),
        decreases v@.len() - i,
    {
        assert(v@.take(i + 1).drop_last() =~= v@.take(i as int));
        if v[i].t1 > v[i].t0 {
            let ghost before = out@;
            let t = Tuned {
                device: device_name(&v[i].device),
                f_lo_hz: edges[i].0,
                f_hi_hz: edges[i].1,
                since_ns: v[i].t0,
                reach_ns: v[i].t1,
                source: Source::IqRing,
            };
            out.push(t);
            assert(tuned_view(out@) =~= tuned_view(before).push(t@));
        }
        i += 1;
    }
    assert(v@.take(v@.len() as int) =~= v@);
    out
}

/// What the spans of one dwell in flight say together: a dwell with a notch is several spans, and
/// its band is their hull. The front end is that of the first.
pub open spec fn hull_of(v: Seq<CoverageSpan>) -> Option<TunedV>
    decreases v.len(),
{
    if v.len() == 0 {
        None
    } else {
        let s = v.last();
        let before = hull_of(v.drop_last());
        if s.t1 <= s.t0 {
            before
        } else {
            match before {
                None => Some(
                    TunedV {
                        device: s.device@.label(),
                        f_lo_hz: s.freq.lo,
                        f_hi_hz: s.freq.hi,
                        since_ns: s.t0,
                        reach_ns: s.t1,
                        source: Source::OpenDwell,
                    },
                ),
                Some(b) => Some(
                    TunedV {
                        f_lo_hz: lower(b.f_lo_hz, s.freq.lo),
                        f_hi_hz: upper(b.f_hi_hz, s.freq.hi),
                        since_ns: if s.t0 < b.since_ns {
                            s.t0
                        } else {
                            b.since_ns
                        },
                        reach_ns: if s.t1 > b.reach_ns {
                            s.t1
                        } else {
                            b.reach_ns
                        },
                        ..b
                    },
                ),
            }
        }
    }
}

/// What an optional band holds.
pub open spec fn tuned_opt(t: Option<Tuned>) -> Option<TunedV> {
    match t {
        Some(t) => Some(t@),
        None => None,
    }
}

/// [`hull_of`].
pub fn hull(v: &Vec<CoverageSpan>) -> (r: Option<Tuned>)
    ensures
        tuned_opt(r) == hull_of(v@),
{
    let mut band: Option<Tuned> = None;
    let mut i: usize = 0;
    assert(v@.take(0) =~= Seq::empty());
    while i < v.len()
        invariant
            i <= v@.len(),
            tuned_opt(band) == hull_of(v@.take(i as int)),
        decreases v@.len() - i,
    {
        assert(v@.take(i + 1).drop_last() =~= v@.take(i as int));
        let s = &v[i];
        if s.t1 > s.t0 {
            band = Some(
                match band {
                    None => Tuned {
                        device: device_name(&s.device),
                        f_lo_hz: s.freq.lo,
                        f_hi_hz: s.freq.hi,
                        since_ns: s.t0,
                        reach_ns: s.t1,
                        source: Source::OpenDwell,
                    },
                    Some(b) => Tuned {
                        device: b.device,
                        f_lo_hz: lower_of(b.f_lo_hz, s.freq.lo),
                        f_hi_hz: upper_of(b.f_hi_hz, s.freq.hi),
                        since_ns: if s.t0 < b.since_ns {
                            s.t0
                        } else {
                            b.since_ns
                        },
                        reach_ns: if s.t1 > b.reach_ns {
                            s.t1
                        } else {
                            b.reach_ns
                        },
                        source: b.source,
                    },
                },
            );
        }
        i += 1;
    }
    assert(v@.take(v@.len() as int) =~= v@);
    band
}

/// The band of a dwell is the hull of its spans that last: it reaches to the edges of each, no
/// further than some span, and from the first to the last of them; its front end is one of theirs.
/// There is one where any span lasts.
pub proof fn a_dwell_is_the_hull_of_its_spans(v: Seq<CoverageSpan>)
    requires
        forall|i: int|
            0 <= i < v.len() ==> !(#[trigger] v[i]).freq.lo.nan() && !v[i].freq.hi.nan(),
    ensures
        hull_of(v) is None <==> forall|i: int|
            0 <= i < v.len() ==> (#[trigger] v[i]).t1 <= v[i].t0,
        forall|i: int|
            0 <= i < v.len() && (#[trigger] v[i]).t0 < v[i].t1 ==> hull_of(v) is Some && hull_of(
                v,
            )->0.f_lo_hz.at_most(v[i].freq.lo) && v[i].freq.hi.at_most(hull_of(v)->0.f_hi_hz)
                && hull_of(v)->0.since_ns <= v[i].t0 && v[i].t1 <= hull_of(v)->0.reach_ns,
        hull_of(v) matches Some(h) ==> {
            &&& !h.f_lo_hz.nan() && !h.f_hi_hz.nan()
            &&& h.source is OpenDwell
            &&& exists|i: int| 0 <= i < v.len() && (#[trigger] v[i]).freq.lo == h.f_lo_hz
            &&& exists|i: int| 0 <= i < v.len() && (#[trigger] v[i]).freq.hi == h.f_hi_hz
            &&& exists|i: int| 0 <= i < v.len() && (#[trigger] v[i]).t0 == h.since_ns
            &&& exists|i: int| 0 <= i < v.len() && (#[trigger] v[i]).t1 == h.reach_ns
            &&& exists|i: int|
                0 <= i < v.len() && (#[trigger] v[i]).t0 < v[i].t1 && v[i].device@.label()
                    == h.device && forall|k: int| 0 <= k < i ==> (#[trigger] v[k]).t1 <= v[k].t0
        },
    decreases v.len(),
{
    if v.len() > 0 {
        let w = v.drop_last();
        let s = v.last();
        let n = v.len() - 1;
        assert(v[n] == s);
        assert forall|i: int| 0 <= i < w.len() implies !(#[trigger] w[i]).freq.lo.nan()
            && !w[i].freq.hi.nan() by {
            assert(w[i] == v[i]);
        }
        a_dwell_is_the_hull_of_its_spans(w);
        assert forall|i: int| 0 <= i < w.len() implies w[i] == #[trigger] v[i] by {}
        if hull_of(w) is None {
            assert forall|k: int| 0 <= k < n implies (#[trigger] v[k]).t1 <= v[k].t0 by {
                assert(w[k].t1 <= w[k].t0);
            }
            if s.t1 > s.t0 {
                assert(v[n].device@.label() == hull_of(v)->0.device);
            }
        } else {
            let h = hull_of(w)->0;
            let a = choose|i: int| 0 <= i < w.len() && (#[trigger] w[i]).freq.lo == h.f_lo_hz;
            let b = choose|i: int| 0 <= i < w.len() && (#[trigger] w[i]).freq.hi == h.f_hi_hz;
            let c = choose|i: int| 0 <= i < w.len() && (#[trigger] w[i]).t0 == h.since_ns;
            let d = choose|i: int| 0 <= i < w.len() && (#[trigger] w[i]).t1 == h.reach_ns;
            let e = choose|i: int|
                0 <= i < w.len() && (#[trigger] w[i]).t0 < w[i].t1 && w[i].device@.label()
                    == h.device && forall|k: int| 0 <= k < i ==> (#[trigger] w[k]).t1 <= w[k].t0;
            assert(v[a] == w[a] && v[b] == w[b] && v[c] == w[c] && v[d] == w[d] && v[e] == w[e]);
            assert forall|k: int| 0 <= k < e implies (#[trigger] v[k]).t1 <= v[k].t0 by {
                assert(w[k].t1 <= w[k].t0);
            }
            assert(v[e].t0 < v[e].t1);
            reals_are_ordered(h.f_lo_hz, s.freq.lo);
            reals_are_ordered(h.f_hi_hz, s.freq.hi);
        }
        assert forall|i: int| 0 <= i < v.len() && (#[trigger] v[i]).t0 < v[i].t1 implies hull_of(
            v,
        ) is Some && hull_of(v)->0.f_lo_hz.at_most(v[i].freq.lo) && v[i].freq.hi.at_most(
            hull_of(v)->0.f_hi_hz,
        ) && hull_of(v)->0.since_ns <= v[i].t0 && v[i].t1 <= hull_of(v)->0.reach_ns by {
            if i < n {
                assert(w[i] == v[i]);
                assert(w[i].t0 < w[i].t1);
            }
        }
    }
}

/// A segment of the ring that lasts says where its front end is, from its start up to its end, on
/// the band of its edges; one that does not last says nothing.
pub proof fn segments_that_last_are_listed(
    v: Seq<Segment>,
    s: Segment,
    edges: Seq<(Real, Real)>,
)
    requires
        edges.len() > v.len(),
    ensures
        s.t1 <= s.t0 ==> ring_list(v.push(s), edges) == ring_list(v, edges),
        s.t0 < s.t1 ==> ring_list(v.push(s), edges).len() == ring_list(v, edges).len() + 1 && ({
            let t = ring_list(v.push(s), edges).last();
            t.device == s.device@.label() && t.f_lo_hz == edges[v.len() as int].0 && t.f_hi_hz
                == edges[v.len() as int].1 && t.since_ns == s.t0 && t.reach_ns == s.t1
                && t.source is IqRing
        }) && ring_list(v.push(s), edges).drop_last() == ring_list(v, edges),
{
    assert(v.push(s).drop_last() =~= v);
    assert(ring_list(v.push(s), edges).drop_last() =~= ring_list(v, edges) || s.t1 <= s.t0);
}

/// What the dwells in flight say.
pub open spec fn dwell_list(v: Seq<Vec<CoverageSpan>>) -> Seq<TunedV>
    decreases v.len(),
{
    if v.len() == 0 {
        Seq::empty()
    } else {
        let before = dwell_list(v.drop_last());
        match hull_of(v.last()@) {
            Some(t) => before.push(t),
            None => before,
        }
    }
}

fn read_dwells(v: &Vec<Vec<CoverageSpan>>) -> (r: Vec<Tuned>)
    ensures
        tuned_view(r@) == dwell_list(v@),
{
    let mut out: Vec<Tuned> = Vec::new();
    let mut i: usize = 0;
    assert(v@.take(0) =~= Seq::empty());
    assert(tuned_view(out@) =~= Seq::empty());
    while i < v.len()
        invariant
            i <= v@.len(),
            tuned_view(out@) == dwell_list(v@.take(i as int)),
        decreases v@.len() - i,
    {
        assert(v@.take(i + 1).drop_last() =~= v@.take(i as int));
        if let Some(t) = hull(&v[i]) {
            let ghost before = out@;
            out.push(t);
            assert(tuned_view(out@) =~= tuned_view(before).push(t@));
        }
        i += 1;
    }
    assert(v@.take(v@.len() as int) =~= v@);
    out
}

/// The bands in hand, and those of the front ends that they hold nothing for.
pub open spec fn filled(v: Seq<Tuned>, more: Seq<Tuned>) -> Seq<Tuned>
    decreases more.len(),
{
    if more.len() == 0 {
        v
    } else {
        let b = filled(v, more.drop_last());
        if under(b, more.last().device@) is None {
            offered(b, more.last())
        } else {
            b
        }
    }
}

fn fill(v: Vec<Tuned>, more: Vec<Tuned>) -> (r: Vec<Tuned>)
    requires
        in_order(v@),
    ensures
        r@ == filled(v@, more@),
        in_order(r@),
{
    let ghost start = v@;
    let ghost all = more@;
    let mut out = v;
    let mut more = more;
    let mut i: usize = 0;
    let n = more.len();
    let ghost mut done: Seq<Tuned> = Seq::empty();
    while i < n
        invariant
            i <= n,
            n == all.len(),
            all == done + more@,
            done.len() == i,
            out@ == filled(start, done),
            in_order(out@),
        decreases n - i,
    {
        let ghost rest = more@;
        let t = more.remove(0);
        proof {
            let was = done;
            done = done.push(t);
            assert(done.drop_last() =~= was);
            assert(done + more@ =~= was + rest);
        }
        if !find(&out, t.device.as_str()).1 {
            put(&mut out, t);
        }
        i += 1;
    }
    assert(done =~= all);
    out
}

/// The bands that the front ends are on: the ring's newest record of each, and for one that the
/// ring holds nothing for the newest dwell in flight.
pub open spec fn tuned_of(ring: Seq<Tuned>, dwells: Seq<Tuned>) -> Seq<Tuned> {
    filled(newest_of(ring), newest_of(dwells))
}

/// One source for each front end, never a mix: whatever the dwells say, the ring's record stands
/// where there is one.
pub proof fn the_ring_answers_first(v: Seq<Tuned>, more: Seq<Tuned>, device: Seq<char>)
    requires
        in_order(v),
        under(v, device) is Some,
    ensures
        in_order(filled(v, more)),
        under(filled(v, more), device) == under(v, device),
    decreases more.len(),
{
    if more.len() > 0 {
        let l = more.drop_last();
        the_ring_answers_first(v, l, device);
        let b = filled(v, l);
        let t = more.last();
        if under(b, t.device@) is None {
            offered_in_order(b, t);
            if t.device@ != device {
                other_names_are_kept(b, t, device);
            }
        }
    }
}

/// The record that stays of a front end is one of its records; a front end without a record has
/// none.
proof fn newest_records_are_records(list: Seq<Tuned>, device: Seq<char>)
    ensures
        in_order(newest_of(list)),
        under(newest_of(list), device) matches Some(t) ==> list.contains(t) && t.device@ == device,
    decreases list.len(),
{
    if list.len() > 0 {
        let l = list.drop_last();
        let t = list.last();
        the_newest_record_stays(l);
        newest_records_are_records(l, device);
        offered_in_order(newest_of(l), t);
        if device != t.device@ {
            other_names_are_kept(newest_of(l), t, device);
        }
        assert(list[list.len() - 1] == t);
        if let Some(h) = under(newest_of(l), device) {
            let k = choose|k: int| 0 <= k < l.len() && l[k] == h;
            assert(list[k] == h);
        }
    }
}

proof fn gaps_are_filled(v: Seq<Tuned>, more: Seq<Tuned>, device: Seq<char>)
    requires
        in_order(v),
        under(v, device) is None,
    ensures
        in_order(filled(v, more)),
        under(filled(v, more), device) matches Some(t) ==> more.contains(t) && t.device@ == device,
        forall|i: int|
            0 <= i < more.len() && (#[trigger] more[i]).device@ == device ==> under(
                filled(v, more),
                device,
            ) is Some,
    decreases more.len(),
{
    if more.len() > 0 {
        let l = more.drop_last();
        let t = more.last();
        let b = filled(v, l);
        gaps_are_filled(v, l, device);
        assert(more[more.len() - 1] == t);
        offered_in_order(b, t);
        if device != t.device@ {
            other_names_are_kept(b, t, device);
        }
        if let Some(h) = under(b, device) {
            let k = choose|k: int| 0 <= k < l.len() && l[k] == h;
            assert(more[k] == h);
        }
        assert forall|i: int| 0 <= i < more.len() && (#[trigger] more[i]).device@
            == device implies under(filled(v, more), device) is Some by {
            if i < l.len() {
                assert(l[i] == more[i]);
            }
        }
    }
}

/// Where a front end is: by the ring the latest that the ring has of it; else by a dwell in flight,
/// the latest of those; and it is somewhere exactly where either has a record of it.
pub proof fn a_front_end_is_where_its_latest_record_says(
    ring: Seq<Tuned>,
    dwells: Seq<Tuned>,
    device: Seq<char>,
)
    ensures
        ({
            let found = under(tuned_of(ring, dwells), device);
            &&& found matches Some(t) ==> t.device@ == device && (ring.contains(t)
                || dwells.contains(t))
            &&& forall|i: int|
                0 <= i < ring.len() && (#[trigger] ring[i]).device@ == device ==> found is Some
                    && ring.contains(found->0) && ring[i].since_ns <= found->0.since_ns
            &&& forall|i: int|
                0 <= i < dwells.len() && (#[trigger] dwells[i]).device@ == device ==> found is Some
                    && (ring.contains(found->0) || dwells[i].since_ns <= found->0.since_ns)
        }),
{
    let have = newest_of(ring);
    let more = newest_of(dwells);
    newest_records_are_records(ring, device);
    newest_records_are_records(dwells, device);
    the_newest_record_stays(ring);
    the_newest_record_stays(dwells);
    let found = under(tuned_of(ring, dwells), device);
    if under(have, device) is Some {
        the_ring_answers_first(have, more, device);
    } else {
        gaps_are_filled(have, more, device);
        if let Some(t) = found {
            let k = choose|k: int| 0 <= k < more.len() && more[k] == t;
            one_entry_under_a_name(more, k);
        }
        if let Some(t) = under(more, device) {
            place_is_first(more, device);
            assert(more[place(more, device)].device@ == device);
        }
        assert forall|i: int| 0 <= i < dwells.len() && (#[trigger] dwells[i]).device@
            == device implies found is Some && dwells[i].since_ns <= found->0.since_ns by {
            assert(under(more, dwells[i].device@) is Some);
        }
    }
}

/// [`tuned_of`] what the records say. `edges` are the edges of each segment's band, `dwells` the
/// spans of each dwell in flight.
pub fn tuned_now(
    segments: &Vec<Segment>,
    edges: &Vec<(Real, Real)>,
    dwells: &Vec<Vec<CoverageSpan>>,
) -> (r: Vec<Tuned>)
    requires
        edges@.len() == segments@.len(),
    ensures
        in_order(r@),
        exists|ring: Seq<Tuned>, open: Seq<Tuned>|
            #![trigger tuned_of(ring, open)]
            tuned_view(ring) == ring_list(segments@, edges@) && tuned_view(open) == dwell_list(
                dwells@,
            ) && r@ == tuned_of(ring, open),
{
    let ring = read_ring(segments, edges);
    let open = read_dwells(dwells);
    let ghost (a, b) = (ring@, open@);
    let have = keep_newest(ring);
    let more = keep_newest(open);
    let r = fill(have, more);
    assert(r@ == tuned_of(a, b));
    r
}

// ---------------------------------------------------------------------------------------------
// Moves
// ---------------------------------------------------------------------------------------------

/// A fresh reading of where a front end is, and whether its band is the one last seen: edges less
/// than one hertz apart are the same.
#[derive(Debug, PartialEq, Eq)]
pub struct Reading {
    /// Where it is.
    pub tuned: Tuned,
    /// Its band is the one last seen.
    pub same_band: bool,
}

/// The bits of 1.0: band edges closer than this many hertz are the same.
pub const SAME_BAND_HZ: u64 = 0x3ff0_0000_0000_0000;

/// Band edges so far apart are those of one band: none is unless there is one to compare with.
pub open spec fn one_band(apart: Option<(Real, Real)>) -> bool {
    match apart {
        Some((lo, hi)) => lo.magnitude() < SAME_BAND_HZ && hi.magnitude() < SAME_BAND_HZ,
        None => false,
    }
}

/// Two bands are one exactly where both pairs of edges lie less than a hertz apart, either way.
pub proof fn one_band_is_within_a_hertz(lo: Real, hi: Real)
    ensures
        ({
            let one = Real { bits: 0x3ff0_0000_0000_0000 };
            let minus_one = Real { bits: 0xbff0_0000_0000_0000 };
            one_band(Some((lo, hi))) <==> minus_one.below(lo) && lo.below(one) && minus_one.below(
                hi,
            ) && hi.below(one)
        }),
        !one_band(None),
{
}

impl Reading {
    /// A reading of `tuned`, whose edges lie `apart` from those last seen, where the front end was
    /// seen before.
    pub fn of(tuned: Tuned, apart: Option<(Real, Real)>) -> (r: Reading)
        ensures
            r == (Reading { tuned, same_band: one_band(apart) }),
    {
        let same_band = match apart {
            Some((lo, hi)) => lo.unsigned_bits() < SAME_BAND_HZ && hi.unsigned_bits()
                < SAME_BAND_HZ,
            None => false,
        };
        Reading { tuned, same_band }
    }
}

/// Where the front ends were last seen, and how many moves were told.
#[verifier::ext_equal]
pub struct WatchV {
    /// The bands last seen.
    pub last: Seq<Tuned>,
    /// The moves told.
    pub seq: nat,
}

/// A reading tells of a move: a front end that appeared, or one on another band by a record that
/// is not older than the one in hand. An older one is a lagging source, not a move back.
pub open spec fn moved(prev: Option<Tuned>, r: Reading) -> bool {
    match prev {
        None => true,
        Some(p) => r.tuned.since_ns >= p.since_ns && !r.same_band,
    }
}

/// The event of a move: both bands, from the arrival.
pub open spec fn event_v(prev: Option<Tuned>, t: Tuned, seq: nat) -> JsonV {
    JsonV::Object(
        no_fields().push(("type"@, text_v("coverage_changed"@))).push(
            ("seq"@, uint_v(seq as int)),
        ).push(("device"@, text_v(t.device@))).push(("t"@, seconds_v(t.since_ns))).push(
            (
                "f_lo"@,
                real_v(
                    match prev {
                        Some(p) => lower(p.f_lo_hz, t.f_lo_hz),
                        None => t.f_lo_hz,
                    },
                ),
            ),
        ).push(
            (
                "f_hi"@,
                real_v(
                    match prev {
                        Some(p) => upper(p.f_hi_hz, t.f_hi_hz),
                        None => t.f_hi_hz,
                    },
                ),
            ),
        ).push(
            (
                "departed"@,
                match prev {
                    Some(p) => p.band_v(),
                    None => JsonV::Null,
                },
            ),
        ).push(("arrived"@, t.band_v())).push(("as_of_s"@, seconds_v(t.reach_ns))).push(
            ("source"@, text_v(t.source.wire())),
        ),
    )
}

/// What a reader finds in the event of a move, whichever way the front end moved: the lower of the
/// two lower edges and the upper of the two upper ones, the band it left and the one it is on, when
/// it arrived there, which front end it is and the number of the move.
pub proof fn a_move_covers_both_bands(p: Tuned, t: Tuned, seq: nat)
    requires
        !p.f_lo_hz.nan(),
        !p.f_hi_hz.nan(),
        !t.f_lo_hz.nan(),
        !t.f_hi_hz.nan(),
    ensures
        ({
            let e = event_v(Some(p), t, seq);
            &&& exists|lo: Real|
                #![trigger real_v(lo)]
                at(e, "f_lo"@) == Some(real_v(lo)) && (lo == p.f_lo_hz || lo == t.f_lo_hz)
                    && lo.at_most(p.f_lo_hz) && lo.at_most(t.f_lo_hz)
            &&& exists|hi: Real|
                #![trigger real_v(hi)]
                at(e, "f_hi"@) == Some(real_v(hi)) && (hi == p.f_hi_hz || hi == t.f_hi_hz)
                    && p.f_hi_hz.at_most(hi) && t.f_hi_hz.at_most(hi)
            &&& t.f_lo_hz.below(p.f_lo_hz) ==> at(e, "f_lo"@) == Some(real_v(t.f_lo_hz))
            &&& p.f_lo_hz.below(t.f_lo_hz) ==> at(e, "f_lo"@) == Some(real_v(p.f_lo_hz))
            &&& t.f_hi_hz.below(p.f_hi_hz) ==> at(e, "f_hi"@) == Some(real_v(p.f_hi_hz))
            &&& p.f_hi_hz.below(t.f_hi_hz) ==> at(e, "f_hi"@) == Some(real_v(t.f_hi_hz))
            &&& at(e, "departed"@) == Some(p.band_v())
            &&& at(e, "arrived"@) == Some(t.band_v())
            &&& at(e, "t"@) == Some(seconds_v(t.since_ns))
            &&& at(e, "as_of_s"@) == Some(seconds_v(t.reach_ns))
            &&& at(e, "device"@) == Some(text_v(t.device@))
            &&& at(e, "seq"@) == Some(uint_v(seq as int))
            &&& at(e, "source"@) == Some(text_v(t.source.wire()))
        }),
{
    let f = event_v(Some(p), t, seq)->Object_0;
    assert("type"@ != "seq"@) by {
        reveal_strlit("type");
        reveal_strlit("seq");
        assert("type"@.len() != "seq"@.len());
    }
    member_is_the_first(f, "seq"@, 1);
    assert("type"@ != "device"@) by {
        reveal_strlit("type");
        reveal_strlit("device");
        assert("type"@.len() != "device"@.len());
    }
    assert("seq"@ != "device"@) by {
        reveal_strlit("seq");
        reveal_strlit("device");
        assert("seq"@.len() != "device"@.len());
    }
    member_is_the_first(f, "device"@, 2);
    assert("type"@ != "t"@) by {
        reveal_strlit("type");
        reveal_strlit("t");
        assert("type"@.len() != "t"@.len());
    }
    assert("seq"@ != "t"@) by {
        reveal_strlit("seq");
        reveal_strlit("t");
        assert("seq"@.len() != "t"@.len());
    }
    assert("device"@ != "t"@) by {
        reveal_strlit("device");
        reveal_strlit("t");
        assert("device"@.len() != "t"@.len());
    }
    member_is_the_first(f, "t"@, 3);
    assert("type"@ != "f_lo"@) by {
        reveal_strlit("type");
        reveal_strlit("f_lo");
        assert("type"@[0] != "f_lo"@[0]);
    }
    assert("seq"@ != "f_lo"@) by {
        reveal_strlit("seq");
        reveal_strlit("f_lo");
        assert("seq"@.len() != "f_lo"@.len());
    }
    assert("device"@ != "f_lo"@) by {
        reveal_strlit("device");
        reveal_strlit("f_lo");
        assert("device"@.len() != "f_lo"@.len());
    }
    assert("t"@ != "f_lo"@) by {
        reveal_strlit("t");
        reveal_strlit("f_lo");
        assert("t"@.len() != "f_lo"@.len());
    }
    member_is_the_first(f, "f_lo"@, 4);
    assert("type"@ != "f_hi"@) by {
        reveal_strlit("type");
        reveal_strlit("f_hi");
        assert("type"@[0] != "f_hi"@[0]);
    }
    assert("seq"@ != "f_hi"@) by {
        reveal_strlit("seq");
        reveal_strlit("f_hi");
        assert("seq"@.len() != "f_hi"@.len());
    }
    assert("device"@ != "f_hi"@) by {
        reveal_strlit("device");
        reveal_strlit("f_hi");
        assert("device"@.len() != "f_hi"@.len());
    }
    assert("t"@ != "f_hi"@) by {
        reveal_strlit("t");
        reveal_strlit("f_hi");
        assert("t"@.len() != "f_hi"@.len());
    }
    assert("f_lo"@ != "f_hi"@) by {
        reveal_strlit("f_lo");
        reveal_strlit("f_hi");
        assert("f_lo"@[2] != "f_hi"@[2]);
    }
    member_is_the_first(f, "f_hi"@, 5);
    assert("type"@ != "departed"@) by {
        reveal_strlit("type");
        reveal_strlit("departed");
        assert("type"@.len() != "departed"@.len());
    }
    assert("seq"@ != "departed"@) by {
        reveal_strlit("seq");
        reveal_strlit("departed");
        assert("seq"@.len() != "departed"@.len());
    }
    assert("device"@ != "departed"@) by {
        reveal_strlit("device");
        reveal_strlit("departed");
        assert("device"@.len() != "departed"@.len());
    }
    assert("t"@ != "departed"@) by {
        reveal_strlit("t");
        reveal_strlit("departed");
        assert("t"@.len() != "departed"@.len());
    }
    assert("f_lo"@ != "departed"@) by {
        reveal_strlit("f_lo");
        reveal_strlit("departed");
        assert("f_lo"@.len() != "departed"@.len());
    }
    assert("f_hi"@ != "departed"@) by {
        reveal_strlit("f_hi");
        reveal_strlit("departed");
        assert("f_hi"@.len() != "departed"@.len());
    }
    member_is_the_first(f, "departed"@, 6);
    assert("type"@ != "arrived"@) by {
        reveal_strlit("type");
        reveal_strlit("arrived");
        assert("type"@.len() != "arrived"@.len());
    }
    assert("seq"@ != "arrived"@) by {
        reveal_strlit("seq");
        reveal_strlit("arrived");
        assert("seq"@.len() != "arrived"@.len());
    }
    assert("device"@ != "arrived"@) by {
        reveal_strlit("device");
        reveal_strlit("arrived");
        assert("device"@.len() != "arrived"@.len());
    }
    assert("t"@ != "arrived"@) by {
        reveal_strlit("t");
        reveal_strlit("arrived");
        assert("t"@.len() != "arrived"@.len());
    }
    assert("f_lo"@ != "arrived"@) by {
        reveal_strlit("f_lo");
        reveal_strlit("arrived");
        assert("f_lo"@.len() != "arrived"@.len());
    }
    assert("f_hi"@ != "arrived"@) by {
        reveal_strlit("f_hi");
        reveal_strlit("arrived");
        assert("f_hi"@.len() != "arrived"@.len());
    }
    assert("departed"@ != "arrived"@) by {
        reveal_strlit("departed");
        reveal_strlit("arrived");
        assert("departed"@.len() != "arrived"@.len());
    }
    member_is_the_first(f, "arrived"@, 7);
    assert("type"@ != "as_of_s"@) by {
        reveal_strlit("type");
        reveal_strlit("as_of_s");
        assert("type"@.len() != "as_of_s"@.len());
    }
    assert("seq"@ != "as_of_s"@) by {
        reveal_strlit("seq");
        reveal_strlit("as_of_s");
        assert("seq"@.len() != "as_of_s"@.len());
    }
    assert("device"@ != "as_of_s"@) by {
        reveal_strlit("device");
        reveal_strlit("as_of_s");
        assert("device"@.len() != "as_of_s"@.len());
    }
    assert("t"@ != "as_of_s"@) by {
        reveal_strlit("t");
        reveal_strlit("as_of_s");
        assert("t"@.len() != "as_of_s"@.len());
    }
    assert("f_lo"@ != "as_of_s"@) by {
        reveal_strlit("f_lo");
        reveal_strlit("as_of_s");
        assert("f_lo"@.len() != "as_of_s"@.len());
    }
    assert("f_hi"@ != "as_of_s"@) by {
        reveal_strlit("f_hi");
        reveal_strlit("as_of_s");
        assert("f_hi"@.len() != "as_of_s"@.len());
    }
    assert("departed"@ != "as_of_s"@) by {
        reveal_strlit("departed");
        reveal_strlit("as_of_s");
        assert("departed"@.len() != "as_of_s"@.len());
    }
    assert("arrived"@ != "as_of_s"@) by {
        reveal_strlit("arrived");
        reveal_strlit("as_of_s");
        assert("arrived"@[1] != "as_of_s"@[1]);
    }
    member_is_the_first(f, "as_of_s"@, 8);
    assert("type"@ != "source"@) by {
        reveal_strlit("type");
        reveal_strlit("source");
        assert("type"@.len() != "source"@.len());
    }
    assert("seq"@ != "source"@) by {
        reveal_strlit("seq");
        reveal_strlit("source");
        assert("seq"@.len() != "source"@.len());
    }
    assert("device"@ != "source"@) by {
        reveal_strlit("device");
        reveal_strlit("source");
        assert("device"@[0] != "source"@[0]);
    }
    assert("t"@ != "source"@) by {
        reveal_strlit("t");
        reveal_strlit("source");
        assert("t"@.len() != "source"@.len());
    }
    assert("f_lo"@ != "source"@) by {
        reveal_strlit("f_lo");
        reveal_strlit("source");
        assert("f_lo"@.len() != "source"@.len());
    }
    assert("f_hi"@ != "source"@) by {
        reveal_strlit("f_hi");
        reveal_strlit("source");
        assert("f_hi"@.len() != "source"@.len());
    }
    assert("departed"@ != "source"@) by {
        reveal_strlit("departed");
        reveal_strlit("source");
        assert("departed"@.len() != "source"@.len());
    }
    assert("arrived"@ != "source"@) by {
        reveal_strlit("arrived");
        reveal_strlit("source");
        assert("arrived"@.len() != "source"@.len());
    }
    assert("as_of_s"@ != "source"@) by {
        reveal_strlit("as_of_s");
        reveal_strlit("source");
        assert("as_of_s"@.len() != "source"@.len());
    }
    member_is_the_first(f, "source"@, 9);
    assert(at(event_v(Some(p), t, seq), "f_lo"@) == Some(real_v(lower(p.f_lo_hz, t.f_lo_hz))));
    assert(at(event_v(Some(p), t, seq), "f_hi"@) == Some(real_v(upper(p.f_hi_hz, t.f_hi_hz))));
}

/// What a reader finds in the event of a front end that appeared: its own band, and none that it
/// left.
pub proof fn an_appearance_covers_its_band(t: Tuned, seq: nat)
    ensures
        at(event_v(None, t, seq), "f_lo"@) == Some(real_v(t.f_lo_hz)),
        at(event_v(None, t, seq), "f_hi"@) == Some(real_v(t.f_hi_hz)),
        at(event_v(None, t, seq), "departed"@) == Some(JsonV::Null),
        at(event_v(None, t, seq), "arrived"@) == Some(t.band_v()),
        at(event_v(None, t, seq), "t"@) == Some(seconds_v(t.since_ns)),
        at(event_v(None, t, seq), "device"@) == Some(text_v(t.device@)),
        at(event_v(None, t, seq), "seq"@) == Some(uint_v(seq as int)),
{
    let f = event_v(None, t, seq)->Object_0;
    assert("type"@ != "seq"@) by {
        reveal_strlit("type");
        reveal_strlit("seq");
        assert("type"@.len() != "seq"@.len());
    }
    member_is_the_first(f, "seq"@, 1);
    assert("type"@ != "device"@) by {
        reveal_strlit("type");
        reveal_strlit("device");
        assert("type"@.len() != "device"@.len());
    }
    assert("seq"@ != "device"@) by {
        reveal_strlit("seq");
        reveal_strlit("device");
        assert("seq"@.len() != "device"@.len());
    }
    member_is_the_first(f, "device"@, 2);
    assert("type"@ != "t"@) by {
        reveal_strlit("type");
        reveal_strlit("t");
        assert("type"@.len() != "t"@.len());
    }
    assert("seq"@ != "t"@) by {
        reveal_strlit("seq");
        reveal_strlit("t");
        assert("seq"@.len() != "t"@.len());
    }
    assert("device"@ != "t"@) by {
        reveal_strlit("device");
        reveal_strlit("t");
        assert("device"@.len() != "t"@.len());
    }
    member_is_the_first(f, "t"@, 3);
    assert("type"@ != "f_lo"@) by {
        reveal_strlit("type");
        reveal_strlit("f_lo");
        assert("type"@[0] != "f_lo"@[0]);
    }
    assert("seq"@ != "f_lo"@) by {
        reveal_strlit("seq");
        reveal_strlit("f_lo");
        assert("seq"@.len() != "f_lo"@.len());
    }
    assert("device"@ != "f_lo"@) by {
        reveal_strlit("device");
        reveal_strlit("f_lo");
        assert("device"@.len() != "f_lo"@.len());
    }
    assert("t"@ != "f_lo"@) by {
        reveal_strlit("t");
        reveal_strlit("f_lo");
        assert("t"@.len() != "f_lo"@.len());
    }
    member_is_the_first(f, "f_lo"@, 4);
    assert("type"@ != "f_hi"@) by {
        reveal_strlit("type");
        reveal_strlit("f_hi");
        assert("type"@[0] != "f_hi"@[0]);
    }
    assert("seq"@ != "f_hi"@) by {
        reveal_strlit("seq");
        reveal_strlit("f_hi");
        assert("seq"@.len() != "f_hi"@.len());
    }
    assert("device"@ != "f_hi"@) by {
        reveal_strlit("device");
        reveal_strlit("f_hi");
        assert("device"@.len() != "f_hi"@.len());
    }
    assert("t"@ != "f_hi"@) by {
        reveal_strlit("t");
        reveal_strlit("f_hi");
        assert("t"@.len() != "f_hi"@.len());
    }
    assert("f_lo"@ != "f_hi"@) by {
        reveal_strlit("f_lo");
        reveal_strlit("f_hi");
        assert("f_lo"@[2] != "f_hi"@[2]);
    }
    member_is_the_first(f, "f_hi"@, 5);
    assert("type"@ != "departed"@) by {
        reveal_strlit("type");
        reveal_strlit("departed");
        assert("type"@.len() != "departed"@.len());
    }
    assert("seq"@ != "departed"@) by {
        reveal_strlit("seq");
        reveal_strlit("departed");
        assert("seq"@.len() != "departed"@.len());
    }
    assert("device"@ != "departed"@) by {
        reveal_strlit("device");
        reveal_strlit("departed");
        assert("device"@.len() != "departed"@.len());
    }
    assert("t"@ != "departed"@) by {
        reveal_strlit("t");
        reveal_strlit("departed");
        assert("t"@.len() != "departed"@.len());
    }
    assert("f_lo"@ != "departed"@) by {
        reveal_strlit("f_lo");
        reveal_strlit("departed");
        assert("f_lo"@.len() != "departed"@.len());
    }
    assert("f_hi"@ != "departed"@) by {
        reveal_strlit("f_hi");
        reveal_strlit("departed");
        assert("f_hi"@.len() != "departed"@.len());
    }
    member_is_the_first(f, "departed"@, 6);
    assert("type"@ != "arrived"@) by {
        reveal_strlit("type");
        reveal_strlit("arrived");
        assert("type"@.len() != "arrived"@.len());
    }
    assert("seq"@ != "arrived"@) by {
        reveal_strlit("seq");
        reveal_strlit("arrived");
        assert("seq"@.len() != "arrived"@.len());
    }
    assert("device"@ != "arrived"@) by {
        reveal_strlit("device");
        reveal_strlit("arrived");
        assert("device"@.len() != "arrived"@.len());
    }
    assert("t"@ != "arrived"@) by {
        reveal_strlit("t");
        reveal_strlit("arrived");
        assert("t"@.len() != "arrived"@.len());
    }
    assert("f_lo"@ != "arrived"@) by {
        reveal_strlit("f_lo");
        reveal_strlit("arrived");
        assert("f_lo"@.len() != "arrived"@.len());
    }
    assert("f_hi"@ != "arrived"@) by {
        reveal_strlit("f_hi");
        reveal_strlit("arrived");
        assert("f_hi"@.len() != "arrived"@.len());
    }
    assert("departed"@ != "arrived"@) by {
        reveal_strlit("departed");
        reveal_strlit("arrived");
        assert("departed"@.len() != "arrived"@.len());
    }
    member_is_the_first(f, "arrived"@, 7);
}

/// A band is its lower and its upper edge, under these names.
pub proof fn a_band_has_two_edges(t: Tuned)
    ensures
        at(t.band_v(), "f_lo"@) == Some(real_v(t.f_lo_hz)),
        at(t.band_v(), "f_hi"@) == Some(real_v(t.f_hi_hz)),
{
    let f = t.band_v()->Object_0;
    member_is_the_first(f, "f_lo"@, 0);
    assert("f_lo"@ != "f_hi"@) by {
        reveal_strlit("f_lo");
        reveal_strlit("f_hi");
        assert("f_lo"@[2] != "f_hi"@[2]);
    }
    member_is_the_first(f, "f_hi"@, 1);
}

/// What one reading makes of the watch, and the event it gives.
pub open spec fn read_one(w: WatchV, r: Reading) -> (WatchV, Option<JsonV>) {
    let prev = under(w.last, r.tuned.device@);
    if moved(prev, r) {
        (
            WatchV { last: offered(w.last, r.tuned), seq: w.seq + 1 },
            Some(event_v(prev, r.tuned, w.seq + 1)),
        )
    } else if prev is Some && r.tuned.since_ns >= prev->0.since_ns {
        (WatchV { last: offered(w.last, r.tuned), ..w }, None)
    } else {
        (w, None)
    }
}

/// What some readings make of the watch, and the events they give.
pub open spec fn stepped(w: WatchV, now: Seq<Reading>) -> (WatchV, Seq<JsonV>)
    decreases now.len(),
{
    if now.len() == 0 {
        (w, Seq::empty())
    } else {
        let (b, events) = stepped(w, now.drop_last());
        let (a, e) = read_one(b, now.last());
        (
            a,
            match e {
                Some(e) => events.push(e),
                None => events,
            },
        )
    }
}

/// A reading of the band in hand, and one older than the record in hand, is not told.
pub open spec fn quiet(w: WatchV, r: Reading) -> bool {
    match under(w.last, r.tuned.device@) {
        Some(p) => r.same_band || r.tuned.since_ns < p.since_ns,
        None => false,
    }
}

/// A move is told once and names both bands; a reading of the same band, and a lagging one, tell
/// nothing; a lagging one leaves what was seen as it was.
pub proof fn each_move_is_told_once(w: WatchV, r: Reading, other: Seq<char>)
    requires
        in_order(w.last),
    ensures
        quiet(w, r) <==> read_one(w, r).1 is None,
        quiet(w, r) ==> read_one(w, r).0.seq == w.seq,
        !quiet(w, r) ==> read_one(w, r).0.seq == w.seq + 1 && under(
            read_one(w, r).0.last,
            r.tuned.device@,
        ) == Some(r.tuned),
        under(w.last, r.tuned.device@) matches Some(p) ==> (r.tuned.since_ns < p.since_ns
            ==> read_one(w, r).0 == w),
        other != r.tuned.device@ ==> under(read_one(w, r).0.last, other) == under(w.last, other),
        in_order(read_one(w, r).0.last),
{
    offered_in_order(w.last, r.tuned);
    if other != r.tuned.device@ {
        other_names_are_kept(w.last, r.tuned, other);
    }
}

/// What is told of a reading: a front end that was not seen yet appeared; one on another band than
/// was seen last, by a record that is not older, moved; a reading of the same band tells nothing and
/// is kept where it is not older; an older one tells nothing and changes nothing. What is told is
/// told with the next number and with the band seen last.
pub proof fn readings_are_told_by_band_and_age(w: WatchV, r: Reading)
    requires
        in_order(w.last),
    ensures
        under(w.last, r.tuned.device@) is None ==> read_one(w, r).1 == Some(
            event_v(None, r.tuned, w.seq + 1),
        ),
        under(w.last, r.tuned.device@) matches Some(p) ==> {
            let (after, told) = read_one(w, r);
            &&& r.tuned.since_ns < p.since_ns ==> told is None && after == w
            &&& r.tuned.since_ns >= p.since_ns && r.same_band ==> told is None && after.seq == w.seq
                && under(after.last, r.tuned.device@) == Some(r.tuned)
            &&& r.tuned.since_ns >= p.since_ns && !r.same_band ==> told == Some(
                event_v(Some(p), r.tuned, w.seq + 1),
            ) && after.seq == w.seq + 1 && under(after.last, r.tuned.device@) == Some(r.tuned)
        },
{
    offered_in_order(w.last, r.tuned);
}

/// Readings are taken one after the other, and what each tells follows what the earlier ones told.
pub proof fn readings_are_taken_in_turn(w: WatchV, now: Seq<Reading>, r: Reading)
    ensures
        stepped(w, Seq::empty()) == (w, Seq::<JsonV>::empty()),
        stepped(w, now.push(r)).0 == read_one(stepped(w, now).0, r).0,
        stepped(w, now.push(r)).1 == (match read_one(stepped(w, now).0, r).1 {
            Some(e) => stepped(w, now).1.push(e),
            None => stepped(w, now).1,
        }),
{
    assert(now.push(r).drop_last() =~= now);
}

/// A front end that is gone from the reading is silent, and stays as it was last seen.
pub proof fn a_vanished_front_end_is_silent(w: WatchV, now: Seq<Reading>, device: Seq<char>)
    requires
        in_order(w.last),
        forall|i: int| 0 <= i < now.len() ==> (#[trigger] now[i]).tuned.device@ != device,
    ensures
        in_order(stepped(w, now).0.last),
        under(stepped(w, now).0.last, device) == under(w.last, device),
    decreases now.len(),
{
    if now.len() > 0 {
        let l = now.drop_last();
        assert forall|i: int| 0 <= i < l.len() implies (#[trigger] l[i]).tuned.device@
            != device by {
            assert(l[i] == now[i]);
        }
        a_vanished_front_end_is_silent(w, l, device);
        assert(now[now.len() - 1].tuned.device@ != device);
        each_move_is_told_once(stepped(w, l).0, now.last(), device);
    }
}

/// As many moves are told as the count grows by.
pub proof fn moves_are_counted(w: WatchV, now: Seq<Reading>)
    ensures
        stepped(w, now).0.seq == w.seq + stepped(w, now).1.len(),
        stepped(w, now).1.len() <= now.len(),
    decreases now.len(),
{
    if now.len() > 0 {
        moves_are_counted(w, now.drop_last());
    }
}

/// Follows the tune record for one subscription.
pub struct ChangeWatch {
    last: Vec<Tuned>,
    seq: u64,
}

impl ChangeWatch {
    /// What it knows.
    pub closed spec fn view(&self) -> WatchV {
        WatchV { last: self.last@, seq: self.seq as nat }
    }

    /// The bands stand in the order of the front ends.
    pub open spec fn wf(self) -> bool {
        in_order(self@.last)
    }

    /// A watch that starts from here, so that nothing in it is told as a change.
    pub fn new(now: Vec<Tuned>) -> (r: ChangeWatch)
        requires
            in_order(now@),
        ensures
            r.wf(),
            r@ == (WatchV { last: now@, seq: 0 }),
    {
        ChangeWatch { last: now, seq: 0 }
    }

    /// The bands last seen.
    pub fn tuned(&self) -> (r: &Vec<Tuned>)
        ensures
            r@ == self@.last,
    {
        &self.last
    }

    /// Where a front end was last seen.
    pub fn last(&self, device: &str) -> (r: Option<&Tuned>)
        requires
            self.wf(),
        ensures
            match r {
                Some(t) => under(self@.last, device@) == Some(*t),
                None => under(self@.last, device@) is None,
            },
    {
        let (i, there) = find(&self.last, device);
        if there {
            Some(&self.last[i])
        } else {
            None
        }
    }

    /// The moves told.
    pub fn told(&self) -> (r: u64)
        ensures
            r == self@.seq,
    {
        self.seq
    }

    /// Folds in a fresh reading and gives one event for each front end that moved.
    pub fn step(&mut self, now: Vec<Reading>) -> (r: Vec<Json>)
        requires
            old(self).wf(),
            old(self)@.seq + now@.len() <= u64::MAX,
        ensures
            final(self).wf(),
            final(self)@ == stepped(old(self)@, now@).0,
            items_view(r@) == stepped(old(self)@, now@).1,
    {
        let ghost w = self@;
        let ghost all = now@;
        let mut rest = now;
        let mut out = Items::new();
        let ghost mut done: Seq<Reading> = Seq::empty();
        let n = rest.len();
        let mut i: usize = 0;
        while i < n
            invariant
                i <= n,
                n == all.len(),
                w.seq + all.len() <= u64::MAX,
                all == done + rest@,
                done.len() == i,
                self.wf(),
                self@ == stepped(w, done).0,
                out@ == stepped(w, done).1,
            decreases n - i,
        {
            let ghost remaining = rest@;
            let r = rest.remove(0);
            let ghost here = self@;
            proof {
                let was = done;
                done = done.push(r);
                assert(done.drop_last() =~= was);
                assert(done + rest@ =~= was + remaining);
                moves_are_counted(w, was);
                offered_in_order(here.last, r.tuned);
            }
            let (k, there) = find(&self.last, r.tuned.device.as_str());
            let t = r.tuned;
            if !there || (t.since_ns >= self.last[k].since_ns && !r.same_band) {
                self.seq = self.seq + 1;
                let prev = if there {
                    Some(&self.last[k])
                } else {
                    None
                };
                let e = event_json(prev, &t, self.seq);
                out.push(e);
                put(&mut self.last, t);
            } else if t.since_ns >= self.last[k].since_ns {
                put(&mut self.last, t);
            }
            assert(self@ == read_one(here, r).0);
            i += 1;
        }
        assert(done =~= all);
        out.list
    }
}

/// What an optional band is.
pub open spec fn prev_view(p: Option<&Tuned>) -> Option<Tuned> {
    match p {
        Some(t) => Some(*t),
        None => None,
    }
}

fn event_json(prev: Option<&Tuned>, t: &Tuned, seq: u64) -> (r: Json)
    ensures
        r.view() == event_v(prev_view(prev), *t, seq as nat),
{
    let (f_lo, f_hi) = match prev {
        Some(p) => (lower_of(p.f_lo_hz, t.f_lo_hz), upper_of(p.f_hi_hz, t.f_hi_hz)),
        None => (t.f_lo_hz, t.f_hi_hz),
    };
    let mut f = Fields::new();
    f.put("type", Json::text("coverage_changed"));
    f.put("seq", Json::uint(seq));
    f.put("device", Json::text(t.device.as_str()));
    f.put("t", Json::seconds(t.since_ns));
    f.put("f_lo", Json::double(f_lo));
    f.put("f_hi", Json::double(f_hi));
    f.put(
        "departed",
        match prev {
            Some(p) => p.band_json(),
            None => Json::Null,
        },
    );
    f.put("arrived", t.band_json());
    f.put("as_of_s", Json::seconds(t.reach_ns));
    f.put("source", Json::text(t.source.as_str()));
    f.object()
}

/// The first message: the bands that the front ends are on as the watch starts.
pub open spec fn subscribed_v(w: WatchV) -> JsonV {
    JsonV::Object(
        no_fields().push(("type"@, text_v("subscribed"@))).push(
            ("tuned"@, JsonV::Array(list_v(w.last))),
        ).push(("tick_ms"@, uint_v(CHANGE_TICK_MS as int))).push(
            (
                "rule"@,
                text_v(
                    "coverage_changed {f_lo, f_hi, t} is sent once per front-end MOVE: the union of the band it left and the band it arrived at, from the instant it arrived. Every tile intersecting [f_lo, f_hi] x [t, now] holds out-of-date coverage; nothing else did change. A provenance change that keeps the band sends nothing."@,
                ),
            ),
        ),
    )
}

/// [`subscribed_v`].
pub fn subscribed_json(w: &ChangeWatch) -> (r: Json)
    ensures
        r.view() == subscribed_v(w@),
{
    let mut f = Fields::new();
    f.put("type", Json::text("subscribed"));
    f.put("tuned", list(&w.last));
    f.put("tick_ms", Json::uint(CHANGE_TICK_MS));
    f.put(
        "rule",
        Json::text(
            "coverage_changed {f_lo, f_hi, t} is sent once per front-end MOVE: the union of the band it left and the band it arrived at, from the instant it arrived. Every tile intersecting [f_lo, f_hi] x [t, now] holds out-of-date coverage; nothing else did change. A provenance change that keeps the band sends nothing.",
        ),
    );
    f.object()
}

/// Whether a subscription is let in: there must be room, then no stray parameter.
pub open spec fn subscription_of(open: usize, q: Seq<(Seq<char>, Seq<char>)>) -> Result<
    (),
    ApiErrorV,
> {
    if open >= MAX_CHANGE_FEEDS {
        Err(api_error_v(503, "16 change subscriptions are already open on this server"@))
    } else {
        match stray(q, seq!["token"@]) {
            Some(k) => Err(api_error_v(400, "unknown parameter `"@ + k + "`"@)),
            None => Ok(()),
        }
    }
}

/// [`subscription_of`].
pub fn subscribe(open: usize, q: &Vec<(String, String)>) -> (r: Result<(), ApiError>)
    ensures
        api_outcome(r) == subscription_of(open, pairs(q@)),
{
    if open >= MAX_CHANGE_FEEDS {
        return Err(
            ApiError::new(503, "16 change subscriptions are already open on this server"),
        );
    }
    let allowed = ["token"];
    assert(texts(allowed@) =~= seq!["token"@]);
    match find_stray(q, &allowed) {
        Some(k) => {
            let m = String::from_str("unknown parameter `").concat(k).concat("`");
            Err(ApiError::of(400, m))
        },
        None => Ok(()),
    }
}

/// A subscription is taken while fewer than sixteen are open, and with nothing but a token; a reader
/// is first told the bands that the front ends are on.
pub proof fn subscriptions_are_bounded(
    open: usize,
    q: Seq<(Seq<char>, Seq<char>)>,
    w: WatchV,
    token: Seq<char>,
)
    ensures
        open >= 16 ==> (subscription_of(open, q) matches Err(e) && e.status == 503),
        open < 16 ==> subscription_of(open, Seq::empty()) is Ok && subscription_of(
            open,
            seq![("token"@, token)],
        ) is Ok,
        open < 16 && stray(q, seq!["token"@]) is Some ==> (subscription_of(open, q) matches Err(e)
            && e.status == 400),
        at(subscribed_v(w), "type"@) == Some(JsonV::Text("subscribed"@)),
        at(subscribed_v(w), "tuned"@) matches Some(JsonV::Array(a)) && a.len() == w.last.len()
            && forall|i: int| 0 <= i < a.len() ==> #[trigger] a[i] == w.last[i].json_v(),
{
    allowed_parameters_are_not_stray(Seq::empty(), seq!["token"@]);
    assert(seq!["token"@][0] == "token"@);
    assert(seq!["token"@].contains("token"@));
    allowed_parameters_are_not_stray(seq![("token"@, token)], seq!["token"@]);
    let f = subscribed_v(w)->Object_0;
    member_is_the_first(f, "type"@, 0);
    assert("type"@ != "tuned"@) by {
        reveal_strlit("type");
        reveal_strlit("tuned");
        assert("type"@.len() != "tuned"@.len());
    }
    member_is_the_first(f, "tuned"@, 1);
}

/// A front end has moved where it is seen for the first time, or is on another band by a record that is
/// no older.
pub proof fn a_front_end_moves_to_another_band(p: Tuned, r: Reading)
    ensures
        moved(None, r),
        r.same_band ==> !moved(Some(p), r),
        r.tuned.since_ns < p.since_ns ==> !moved(Some(p), r),
        !r.same_band && p.since_ns <= r.tuned.since_ns ==> moved(Some(p), r),
{
}

} // verus!
