//! Evidence: which tune records answer for a region, how far they reach, and what that makes of
//! the cells they leave unsampled.

use vstd::prelude::*;

use crate::control::Span;
use crate::coverage::{
    cell_json, cell_v, code_of, count, Coverage, Device, DeviceV, UNKNOWN, UNOBSERVED,
};
use crate::double::{parse_real, text_real, Real, INFINITE, SIGN};
use crate::http::{api_error_v, api_outcome, ApiError, ApiErrorV};
use crate::json::{
    as_int, as_real, as_uint, at, items_view, items_view_each, member_is_the_first, no_fields,
    opt_scaled_v, opt_text_v, text_v, uint_v, Fields, Items, Json, JsonV,
};
use crate::request::{find_value, pairs, value_of};
use crate::text::{opt_text, same};

verus! {

// ---------------------------------------------------------------------------------------------
// Spans
// ---------------------------------------------------------------------------------------------

/// One interval over which a front end was tuned to a band.
#[derive(Debug)]
pub struct CoverageSpan {
    /// The front end.
    pub device: Device,
    /// The interval, ns: from the first, up to the second.
    pub t0: i64,
    /// See `t0`.
    pub t1: i64,
    /// The band, Hz.
    pub freq: Span,
    /// The samples were analysed.
    pub analysed: bool,
    /// The interval and the band are not empty.
    pub valid: bool,
    /// The centre it was tuned to, Hz.
    pub center_hz: Real,
    /// The rate it was sampled at, Hz.
    pub sample_rate_hz: Real,
}

/// What a [`CoverageSpan`] holds.
#[verifier::ext_equal]
pub struct CoverageSpanV {
    /// The front end.
    pub device: DeviceV,
    /// The interval, ns: from the first, up to the second.
    pub t0: i64,
    /// See `t0`.
    pub t1: i64,
    /// The band, Hz.
    pub freq: Span,
    /// The samples were analysed.
    pub analysed: bool,
    /// The interval and the band are not empty.
    pub valid: bool,
    /// The centre it was tuned to, Hz.
    pub center_hz: Real,
    /// The rate it was sampled at, Hz.
    pub sample_rate_hz: Real,
}

impl CoverageSpan {
    /// What it holds.
    pub open spec fn view(&self) -> CoverageSpanV {
        CoverageSpanV {
            device: self.device@,
            t0: self.t0,
            t1: self.t1,
            freq: self.freq,
            analysed: self.analysed,
            valid: self.valid,
            center_hz: self.center_hz,
            sample_rate_hz: self.sample_rate_hz,
        }
    }
}

/// What some spans hold.
pub open spec fn spans_view(v: Seq<CoverageSpan>) -> Seq<CoverageSpanV> {
    v.map_values(|s: CoverageSpan| s@)
}

/// The spans that name a front end.
pub open spec fn named(v: Seq<CoverageSpan>) -> nat
    decreases v.len(),
{
    if v.len() == 0 {
        0
    } else {
        named(v.drop_last()) + (if v.last().device@ is Id {
            1nat
        } else {
            0nat
        })
    }
}

fn count_named(v: &Vec<CoverageSpan>) -> (r: usize)
    ensures
        r == named(v@),
        r <= v@.len(),
{
    let mut n: usize = 0;
    let mut i: usize = 0;
    assert(v@.take(0) =~= Seq::empty());
    while i < v.len()
        invariant
            i <= v@.len(),
            n <= i,
            n == named(v@.take(i as int)),
        decreases v@.len() - i,
    {
        assert(v@.take(i + 1).drop_last() =~= v@.take(i as int));
        if v[i].device.is_named() {
            n += 1;
        }
        i += 1;
    }
    assert(v@.take(v@.len() as int) =~= v@);
    n
}

/// The newest end of some spans.
pub open spec fn newest_end(v: Seq<CoverageSpan>) -> Option<i64>
    decreases v.len(),
{
    if v.len() == 0 {
        None
    } else {
        match newest_end(v.drop_last()) {
            Some(t) if t > v.last().t1 => Some(t),
            _ => Some(v.last().t1),
        }
    }
}

fn find_newest(v: &Vec<CoverageSpan>) -> (r: Option<i64>)
    ensures
        r == newest_end(v@),
{
    let mut best: Option<i64> = None;
    let mut i: usize = 0;
    assert(v@.take(0) =~= Seq::empty());
    while i < v.len()
        invariant
            i <= v@.len(),
            best == newest_end(v@.take(i as int)),
        decreases v@.len() - i,
    {
        assert(v@.take(i + 1).drop_last() =~= v@.take(i as int));
        let t1 = v[i].t1;
        best = Some(
            match best {
                Some(t) => if t > t1 {
                    t
                } else {
                    t1
                },
                None => t1,
            },
        );
        i += 1;
    }
    assert(v@.take(v@.len() as int) =~= v@);
    best
}

/// No span ends after the newest end, and one ends there.
pub proof fn newest_is_newest(v: Seq<CoverageSpan>)
    ensures
        newest_end(v) is None <==> v.len() == 0,
        newest_end(v) matches Some(t) ==> exists|i: int|
            0 <= i < v.len() && (#[trigger] v[i]).t1 == t,
        forall|i: int| 0 <= i < v.len() ==> (#[trigger] v[i]).t1 <= newest_end(v)->0,
    decreases v.len(),
{
    if v.len() > 0 {
        let t = v.drop_last();
        newest_is_newest(t);
        assert forall|i: int| 0 <= i < v.len() implies (#[trigger] v[i]).t1 <= newest_end(v)->0 by {
            if i < t.len() {
                assert(t[i] == v[i]);
            }
        }
        assert(v[v.len() - 1] == v.last());
        if t.len() > 0 {
            let k = choose|k: int| 0 <= k < t.len() && (#[trigger] t[k]).t1 == newest_end(t)->0;
            assert(v[k] == t[k]);
        }
    }
}

/// One segment of the IQ ring's journal.
#[derive(Debug)]
pub struct Segment {
    /// The front end.
    pub device: Device,
    /// The interval, ns.
    pub t0: i64,
    /// See `t0`.
    pub t1: i64,
    /// The centre, Hz.
    pub center_hz: Real,
    /// The rate, Hz.
    pub sample_rate_hz: Real,
}

/// What a [`Segment`] holds.
#[verifier::ext_equal]
pub struct SegmentV {
    /// The front end.
    pub device: DeviceV,
    /// The interval, ns.
    pub t0: i64,
    /// See `t0`.
    pub t1: i64,
    /// The centre, Hz.
    pub center_hz: Real,
    /// The rate, Hz.
    pub sample_rate_hz: Real,
}

impl Segment {
    /// What it holds.
    pub open spec fn view(&self) -> SegmentV {
        SegmentV {
            device: self.device@,
            t0: self.t0,
            t1: self.t1,
            center_hz: self.center_hz,
            sample_rate_hz: self.sample_rate_hz,
        }
    }
}

/// A finite number under a member name.
pub open spec fn real_at(v: JsonV, key: Seq<char>) -> Option<Real> {
    match at(v, key) {
        Some(x) => as_real(x),
        None => None,
    }
}

/// [`real_at`].
pub fn get_real(v: &Json, key: &str) -> (r: Option<Real>)
    ensures
        r == real_at(v.view(), key@),
{
    match v.get(key) {
        Some(x) => x.as_double(),
        None => None,
    }
}

/// An integer under a member name.
pub open spec fn int_at(v: JsonV, key: Seq<char>) -> Option<i64> {
    match at(v, key) {
        Some(x) => as_int(x),
        None => None,
    }
}

fn get_int(v: &Json, key: &str) -> (r: Option<i64>)
    ensures
        r == int_at(v.view(), key@),
{
    match v.get(key) {
        Some(x) => x.signed(),
        None => None,
    }
}

/// An unsigned integer under a member name, 0 where there is none.
pub open spec fn count_at(v: JsonV, key: Seq<char>) -> u64 {
    match at(v, key) {
        Some(x) => match as_uint(x) {
            Some(n) => n,
            None => 0,
        },
        None => 0,
    }
}

fn get_count(v: &Json, key: &str) -> (r: u64)
    ensures
        r == count_at(v.view(), key@),
{
    match v.get(key) {
        Some(x) => match x.unsigned() {
            Some(n) => n,
            None => 0,
        },
        None => 0,
    }
}

/// The front end that a segment names: one without a name is unknown, never the one that happens
/// to be running.
pub open spec fn segment_device(v: JsonV) -> DeviceV {
    match at(v, "device_id"@) {
        Some(JsonV::Text(d)) if d.len() > 0 => DeviceV::Id(d),
        _ => DeviceV::Unknown,
    }
}

/// A segment as the ring's status writes it: one without a centre, a positive rate and both ends
/// is none.
pub open spec fn segment_of(v: JsonV) -> Option<SegmentV> {
    match (
        real_at(v, "center_hz"@),
        real_at(v, "sample_rate_hz"@),
        int_at(v, "t0_ns"@),
        int_at(v, "t1_ns"@),
    ) {
        (Some(center_hz), Some(rate), Some(t0), Some(t1)) if rate.key() > 0 => Some(
            SegmentV { device: segment_device(v), t0, t1, center_hz, sample_rate_hz: rate },
        ),
        _ => None,
    }
}

/// What an optional segment holds.
pub open spec fn segment_opt(s: Option<Segment>) -> Option<SegmentV> {
    match s {
        Some(s) => Some(s@),
        None => None,
    }
}

/// [`segment_of`].
pub fn read_segment(v: &Json) -> (r: Option<Segment>)
    ensures
        segment_opt(r) == segment_of(v.view()),
{
    let (center, rate) = (get_real(v, "center_hz"), get_real(v, "sample_rate_hz"));
    let (start, end) = (get_int(v, "t0_ns"), get_int(v, "t1_ns"));
    match (center, rate, start, end) {
        (Some(center_hz), Some(rate), Some(t0), Some(t1)) => {
            if rate.order() <= 0 {
                return None;
            }
            let device = match v.get("device_id") {
                Some(Json::Text(d)) => if d.as_str().is_empty() {
                    Device::Unknown
                } else {
                    Device::Id(d.clone())
                },
                _ => Device::Unknown,
            };
            Some(Segment { device, t0, t1, center_hz, sample_rate_hz: rate })
        },
        _ => None,
    }
}

/// The segments among some items.
pub open spec fn segments_of(items: Seq<JsonV>) -> Seq<SegmentV>
    decreases items.len(),
{
    if items.len() == 0 {
        Seq::empty()
    } else {
        let before = segments_of(items.drop_last());
        match segment_of(items.last()) {
            Some(s) => before.push(s),
            None => before,
        }
    }
}

/// What some segments hold.
pub open spec fn segments_view(v: Seq<Segment>) -> Seq<SegmentV> {
    v.map_values(|s: Segment| s@)
}

/// The segments of a ring's status.
pub fn ring_segments(status: &Json) -> (r: Vec<Segment>)
    ensures
        segments_view(r@) == (match at(status.view(), "segments"@) {
            Some(JsonV::Array(a)) => segments_of(a),
            _ => Seq::empty(),
        }),
{
    let mut out: Vec<Segment> = Vec::new();
    assert(segments_view(out@) =~= Seq::empty());
    let a = match status.get("segments") {
        Some(Json::Array(a)) => a,
        _ => return out,
    };
    let ghost items = items_view(a@);
    proof {
        items_view_each(a@);
        assert(items.take(0) =~= Seq::empty());
    }
    let mut i: usize = 0;
    while i < a.len()
        invariant
            items == items_view(a@),
            items.len() == a@.len(),
            forall|k: int| 0 <= k < a@.len() ==> items[k] == (#[trigger] a@[k]).view(),
            i <= a@.len(),
            segments_view(out@) == segments_of(items.take(i as int)),
        decreases a@.len() - i,
    {
        proof {
            assert(items.take(i + 1).drop_last() =~= items.take(i as int));
            assert(items.take(i + 1).last() == a@[i as int].view());
        }
        if let Some(s) = read_segment(&a[i]) {
            let ghost before = out@;
            out.push(s);
            assert(segments_view(out@) =~= segments_view(before).push(s@));
        }
        i += 1;
    }
    assert(items.take(a@.len() as int) =~= items);
    out
}

/// Every frequency.
pub open spec fn all_freq() -> Span {
    Span { lo: Real { bits: (SIGN + INFINITE) as u64 }, hi: Real { bits: INFINITE } }
}

/// [`all_freq`].
pub fn whole_spectrum() -> (r: Span)
    ensures
        r == all_freq(),
{
    Span { lo: Real { bits: SIGN + INFINITE }, hi: Real { bits: INFINITE } }
}

/// No band with finite edges is outside the spectrum.
pub proof fn the_spectrum_holds_every_band(s: Span)
    requires
        s.lo.finite(),
        s.hi.finite(),
    ensures
        s.overlaps_band(all_freq()),
{
}

/// A segment as a span: the ring holds the samples of the whole tuned window, so that all of it
/// can be analysed.
pub open spec fn ring_span_of(s: SegmentV, edges: (Real, Real)) -> CoverageSpanV {
    CoverageSpanV {
        device: s.device,
        t0: s.t0,
        t1: s.t1,
        freq: Span { lo: edges.0, hi: edges.1 },
        analysed: true,
        valid: s.t0 < s.t1 && edges.0.below(edges.1),
        center_hz: s.center_hz,
        sample_rate_hz: s.sample_rate_hz,
    }
}

/// The segments whose bands, with these edges, overlap `freq`, as spans.
pub open spec fn ring_spans_of(v: Seq<SegmentV>, edges: Seq<(Real, Real)>, freq: Span) -> Seq<
    CoverageSpanV,
>
    decreases v.len(),
{
    if v.len() == 0 {
        Seq::empty()
    } else {
        let before = ring_spans_of(v.drop_last(), edges, freq);
        let s = ring_span_of(v.last(), edges[v.len() - 1]);
        if s.freq.overlaps_band(freq) {
            before.push(s)
        } else {
            before
        }
    }
}

/// [`ring_spans_of`]. The edges are half the rate below and above the centre.
pub fn ring_spans(v: &Vec<Segment>, edges: &Vec<(Real, Real)>, freq: &Span) -> (r: Vec<
    CoverageSpan,
>)
    requires
        edges@.len() == v@.len(),
    ensures
        spans_view(r@) == ring_spans_of(segments_view(v@), edges@, *freq),
{
    let mut out: Vec<CoverageSpan> = Vec::new();
    let ghost all = segments_view(v@);
    let mut i: usize = 0;
    proof {
        assert(all.take(0) =~= Seq::empty());
        assert(spans_view(out@) =~= Seq::empty());
    }
    while i < v.len()
        invariant
            all == segments_view(v@),
            edges@.len() == v@.len(),
            i <= v@.len(),
            spans_view(out@) == ring_spans_of(all.take(i as int), edges@, *freq),
        decreases v@.len() - i,
    {
        assert(all.take(i + 1).drop_last() =~= all.take(i as int));
        assert(all.take(i + 1).last() == v@[i as int]@);
        let s = &v[i];
        let (lo, hi) = edges[i];
        let band = Span { lo, hi };
        if band.overlaps(freq) {
            let ghost before = out@;
            let span = CoverageSpan {
                device: s.device.copy(),
                t0: s.t0,
                t1: s.t1,
                freq: band,
                analysed: true,
                valid: s.t0 < s.t1 && lo.lt(hi),
                center_hz: s.center_hz,
                sample_rate_hz: s.sample_rate_hz,
            };
            out.push(span);
            assert(spans_view(out@) =~= spans_view(before).push(span@));
        }
        i += 1;
    }
    assert(all.take(v@.len() as int) =~= all);
    out
}

/// The part of a dwell in flight that counts: clipped to the record horizon, and none of it where
/// there is no horizon or where it does not reach the window.
pub open spec fn clipped(
    start: i64,
    end: i64,
    horizon: Option<i64>,
    w0: i64,
    w1: i64,
) -> Option<(i64, i64)> {
    match horizon {
        None => None,
        Some(t) => {
            let s = if start >= t {
                start
            } else {
                t
            };
            if s >= end || s >= w1 || end <= w0 {
                None
            } else {
                Some((s, end))
            }
        },
    }
}

/// [`clipped`].
pub fn clip_open_dwell(start: i64, end: i64, horizon: Option<i64>, w0: i64, w1: i64) -> (r: Option<
    (i64, i64),
>)
    ensures
        r == clipped(start, end, horizon, w0, w1),
{
    let t = match horizon {
        None => return None,
        Some(t) => t,
    };
    let s = if start >= t {
        start
    } else {
        t
    };
    if s >= end || s >= w1 || end <= w0 {
        None
    } else {
        Some((s, end))
    }
}

/// A dwell in flight never speaks for time before the record horizon, nor past its own end.
pub proof fn open_dwells_never_overrule_the_horizon(
    start: i64,
    end: i64,
    horizon: Option<i64>,
    w0: i64,
    w1: i64,
)
    ensures
        clipped(start, end, horizon, w0, w1) matches Some(d) ==> horizon is Some && d.0
            >= horizon->0 && d.0 >= start && d.1 == end && d.0 < d.1,
        horizon is None ==> clipped(start, end, horizon, w0, w1) is None,
{
}

/// An instant of a dwell in flight counts exactly where it is not before the record horizon, where
/// the counting part of the dwell reaches the window; no other instant does.
pub proof fn a_dwell_counts_from_the_horizon_on(
    start: i64,
    end: i64,
    horizon: Option<i64>,
    w0: i64,
    w1: i64,
    t: int,
)
    ensures
        ({
            let counts = horizon matches Some(h) && h <= t && start <= t < end;
            let kept = clipped(start, end, horizon, w0, w1);
            &&& kept matches Some(d) ==> (d.0 <= t < d.1 <==> counts)
            &&& counts && w0 <= t < w1 ==> kept is Some
            &&& kept is None && counts ==> t >= w1 || t < w0
        }),
{
}

// ---------------------------------------------------------------------------------------------
// Memory
// ---------------------------------------------------------------------------------------------

/// What a server remembers about its own recording.
#[derive(Clone, Copy, Debug, PartialEq, Eq, Structural)]
pub struct Memory {
    /// The earliest instant that any tune history still holds a record for.
    pub oldest_record: Option<i64>,
    /// When recording began, as far as anything here knows.
    pub recording_began: Option<i64>,
    /// Records that could reach back before that have been discarded.
    pub forgotten: Forgotten,
    /// The IQ ring can contribute evidence.
    pub ring_can_answer: bool,
}

/// Why a server cannot bound what it forgot.
#[derive(Clone, Copy, Debug, PartialEq, Eq, Structural)]
pub enum Forgotten {
    /// It can.
    Nothing,
    /// The observation log deleted segments.
    LogSegments,
    /// The IQ ring discarded data and nothing else remembers when recording began.
    RingData,
}

impl Forgotten {
    /// The reason in words.
    pub open spec fn words(self) -> Option<Seq<char>> {
        match self {
            Forgotten::Nothing => None,
            Forgotten::LogSegments => Some(
                "the observation log has deleted segments by retention"@,
            ),
            Forgotten::RingData => Some(
                "the IQ ring has discarded data and no spectrum history remembers when recording began"@,
            ),
        }
    }

    /// The reason in words.
    pub fn reason(self) -> (r: Option<&'static str>)
        ensures
            opt_text(r) == self.words(),
    {
        match self {
            Forgotten::Nothing => None,
            Forgotten::LogSegments => Some(
                "the observation log has deleted segments by retention",
            ),
            Forgotten::RingData => Some(
                "the IQ ring has discarded data and no spectrum history remembers when recording began",
            ),
        }
    }
}

/// What the observation log remembers.
pub struct LogMemory {
    /// The hours that it still holds.
    pub hours: Vec<i64>,
    /// It has deleted segments.
    pub deleted: bool,
    /// Its earliest record, ns.
    pub earliest: Option<i64>,
}

/// Nanoseconds in an hour.
pub const HOUR_NS: i64 = 3_600_000_000_000;

/// The earlier of two instants, or the one there is.
pub open spec fn earlier(a: Option<i64>, b: Option<i64>) -> Option<i64> {
    match (a, b) {
        (Some(x), Some(y)) => Some(
            if x <= y {
                x
            } else {
                y
            },
        ),
        (Some(x), None) => Some(x),
        (None, y) => y,
    }
}

/// [`earlier`].
pub fn min_of(a: Option<i64>, b: Option<i64>) -> (r: Option<i64>)
    ensures
        r == earlier(a, b),
{
    match (a, b) {
        (Some(x), Some(y)) => Some(
            if x <= y {
                x
            } else {
                y
            },
        ),
        (Some(x), None) => Some(x),
        (None, y) => y,
    }
}

/// The least of some hours.
pub open spec fn least(v: Seq<i64>) -> Option<i64>
    decreases v.len(),
{
    if v.len() == 0 {
        None
    } else {
        earlier(least(v.drop_last()), Some(v.last()))
    }
}

fn find_least(v: &Vec<i64>) -> (r: Option<i64>)
    ensures
        r == least(v@),
{
    let mut best: Option<i64> = None;
    let mut i: usize = 0;
    assert(v@.take(0) =~= Seq::empty());
    while i < v.len()
        invariant
            i <= v@.len(),
            best == least(v@.take(i as int)),
        decreases v@.len() - i,
    {
        assert(v@.take(i + 1).drop_last() =~= v@.take(i as int));
        best = min_of(best, Some(v[i]));
        i += 1;
    }
    assert(v@.take(v@.len() as int) =~= v@);
    best
}

/// The start of an hour, at the ends of the clock's range where it lies past them.
pub open spec fn hour_start(h: i64) -> i64 {
    let t = h * HOUR_NS;
    if t > i64::MAX {
        i64::MAX
    } else if t < i64::MIN {
        i64::MIN
    } else {
        t as i64
    }
}

fn start_of_hour(h: i64) -> (r: i64)
    ensures
        r == hour_start(h),
{
    let t: i128 = h as i128 * HOUR_NS as i128;
    if t > i64::MAX as i128 {
        i64::MAX
    } else if t < i64::MIN as i128 {
        i64::MIN
    } else {
        t as i64
    }
}

/// The IQ ring can answer whether the radio looked: it buffers, and is not still being laid down.
/// A status that does not say so is not read as available.
pub open spec fn ring_answers(status: Option<JsonV>) -> bool {
    match status {
        None => false,
        Some(s) => at(s, "enabled"@) == Some(JsonV::Bool(true)) && at(s, "allocation"@) != Some(
            JsonV::Text("allocating"@),
        ),
    }
}

/// What an optional status holds.
pub open spec fn status_view(s: Option<&Json>) -> Option<JsonV> {
    match s {
        Some(s) => Some(s.view()),
        None => None,
    }
}

/// [`ring_answers`].
pub fn ring_can_answer(status: Option<&Json>) -> (r: bool)
    ensures
        r == ring_answers(status_view(status)),
{
    let s = match status {
        None => return false,
        Some(s) => s,
    };
    let enabled = match s.get("enabled") {
        Some(Json::Bool(b)) => *b,
        _ => false,
    };
    let allocating = match s.get("allocation") {
        Some(Json::Text(t)) => same(t.as_str(), "allocating"),
        _ => false,
    };
    enabled && !allocating
}

/// The ring's reach: its start, which `t0_ns` writes in nanoseconds, where it holds an interval.
pub open spec fn ring_reach(status: Option<JsonV>, t0_ns: i64) -> Option<i64> {
    match status {
        None => None,
        Some(s) => match (real_at(s, "t0"@), real_at(s, "t1"@)) {
            (Some(a), Some(b)) if a.below(b) => Some(t0_ns),
            _ => None,
        },
    }
}

/// The ring has discarded data.
pub open spec fn ring_discarded(status: Option<JsonV>) -> bool {
    match status {
        None => false,
        Some(s) => (match at(s, "evicted"@) {
            Some(e) => count_at(e, "samples"@) > 0,
            None => false,
        }) || count_at(s, "discarded_slots"@) > 0,
    }
}

/// What a server remembers, from what its stores say.
pub open spec fn memory_of(
    ring: Option<JsonV>,
    ring_t0_ns: i64,
    log: Option<LogMemory>,
    history_present: bool,
    history_began: Option<i64>,
) -> Memory {
    let ring_t0 = ring_reach(ring, ring_t0_ns);
    let log_t0 = match log {
        Some(l) => match least(l.hours@) {
            Some(h) => Some(hour_start(h)),
            None => None,
        },
        None => None,
    };
    let log_began = match log {
        Some(l) => l.earliest,
        None => None,
    };
    Memory {
        oldest_record: earlier(ring_t0, log_t0),
        recording_began: earlier(earlier(ring_t0, log_began), history_began),
        forgotten: if log matches Some(l) && l.deleted {
            Forgotten::LogSegments
        } else if ring_discarded(ring) && !history_present {
            Forgotten::RingData
        } else {
            Forgotten::Nothing
        },
        ring_can_answer: ring_answers(ring),
    }
}

impl Memory {
    /// [`memory_of`]. `ring_t0_ns` is the ring's `t0` in nanoseconds, where it states one.
    pub fn of(
        ring: Option<&Json>,
        ring_t0_ns: i64,
        log: &Option<LogMemory>,
        history_present: bool,
        history_began: Option<i64>,
    ) -> (r: Memory)
        ensures
            r == memory_of(status_view(ring), ring_t0_ns, *log, history_present, history_began),
    {
        let ring_t0 = match ring {
            None => None,
            Some(s) => match (get_real(s, "t0"), get_real(s, "t1")) {
                (Some(a), Some(b)) => if a.lt(b) {
                    Some(ring_t0_ns)
                } else {
                    None
                },
                _ => None,
            },
        };
        let discarded = match ring {
            None => false,
            Some(s) => {
                let evicted = match s.get("evicted") {
                    Some(e) => get_count(e, "samples") > 0,
                    None => false,
                };
                evicted || get_count(s, "discarded_slots") > 0
            },
        };
        let (log_t0, log_began, log_deleted) = match log {
            None => (None, None, false),
            Some(l) => (
                match find_least(&l.hours) {
                    Some(h) => Some(start_of_hour(h)),
                    None => None,
                },
                l.earliest,
                l.deleted,
            ),
        };
        let forgotten = if log_deleted {
            Forgotten::LogSegments
        } else if discarded && !history_present {
            Forgotten::RingData
        } else {
            Forgotten::Nothing
        };
        Memory {
            oldest_record: min_of(ring_t0, log_t0),
            recording_began: min_of(min_of(ring_t0, log_began), history_began),
            forgotten,
            ring_can_answer: ring_can_answer(ring),
        }
    }
}

/// When the spectrum histories began: whether there is one, and the earliest beginning of any.
/// Each entry is one history that could be read, with the instant it began where it knows one.
pub fn history_began(read: &Vec<Option<i64>>) -> (r: (bool, Option<i64>))
    ensures
        r.0 == (read@.len() > 0),
        r.1 == earliest_began(read@),
{
    let mut began: Option<i64> = None;
    let mut i: usize = 0;
    assert(read@.take(0) =~= Seq::empty());
    while i < read.len()
        invariant
            i <= read@.len(),
            began == earliest_began(read@.take(i as int)),
        decreases read@.len() - i,
    {
        assert(read@.take(i + 1).drop_last() =~= read@.take(i as int));
        began = min_of(began, read[i]);
        i += 1;
    }
    assert(read@.take(read@.len() as int) =~= read@);
    (read.len() > 0, began)
}

/// The earliest of some beginnings.
pub open spec fn earliest_began(v: Seq<Option<i64>>) -> Option<i64>
    decreases v.len(),
{
    if v.len() == 0 {
        None
    } else {
        earlier(earliest_began(v.drop_last()), v.last())
    }
}

/// The least hour is one of those held, and none held is before it.
proof fn least_is_least(v: Seq<i64>)
    ensures
        least(v) is None <==> v.len() == 0,
        least(v) matches Some(h) ==> v.contains(h),
        forall|i: int| 0 <= i < v.len() ==> least(v) is Some && least(v)->0 <= #[trigger] v[i],
    decreases v.len(),
{
    if v.len() > 0 {
        let t = v.drop_last();
        least_is_least(t);
        assert forall|i: int| 0 <= i < v.len() implies least(v) is Some && least(v)->0
            <= #[trigger] v[i] by {
            if i < t.len() {
                assert(t[i] == v[i]);
            }
        }
        if t.len() > 0 {
            let k = choose|k: int| 0 <= k < t.len() && t[k] == least(t)->0;
            assert(v[k] == least(t)->0);
        }
        assert(v[v.len() - 1] == v.last());
    }
}

/// The earliest beginning is one of those known, none known is before it, and there is one where
/// any is known.
pub proof fn the_earliest_beginning_is_the_earliest(v: Seq<Option<i64>>)
    ensures
        earliest_began(v) matches Some(t) ==> v.contains(Some(t)),
        forall|i: int|
            0 <= i < v.len() && (#[trigger] v[i]) is Some ==> earliest_began(v) is Some
                && earliest_began(v)->0 <= v[i]->0,
    decreases v.len(),
{
    if v.len() > 0 {
        let t = v.drop_last();
        the_earliest_beginning_is_the_earliest(t);
        assert forall|i: int| 0 <= i < v.len() && (#[trigger] v[i]) is Some implies earliest_began(
            v,
        ) is Some && earliest_began(v)->0 <= v[i]->0 by {
            if i < t.len() {
                assert(t[i] == v[i]);
            }
        }
        if earliest_began(t) is Some {
            let k = choose|k: int| 0 <= k < t.len() && t[k] == earliest_began(t);
            assert(v[k] == earliest_began(t));
        }
        assert(v[v.len() - 1] == v.last());
    }
}

/// The ring says that it holds an interval.
pub open spec fn holds_an_interval(ring: Option<JsonV>) -> bool {
    ring matches Some(s) && real_at(s, "t0"@) matches Some(a) && real_at(s, "t1"@) matches Some(b)
        && a.below(b)
}

/// An instant is the start of an hour, or the end of the clock's range that the hour lies past.
pub open spec fn starts_hour(t: i64, h: i64) -> bool {
    let start = h * 3_600_000_000_000;
    &&& start <= i64::MAX && start >= i64::MIN ==> t == start
    &&& start > i64::MAX ==> t == i64::MAX
    &&& start < i64::MIN ==> t == i64::MIN
}

/// The record horizon is the earliest instant that a tune history still holds a record for: none of
/// the ring's start and the log's hours is before it, and it is one of them. Without a record there
/// is no horizon.
pub proof fn the_horizon_is_the_oldest_record(
    ring: Option<JsonV>,
    ring_t0_ns: i64,
    log: Option<LogMemory>,
    present: bool,
    began: Option<i64>,
    hour: i64,
    start: i64,
)
    ensures
        ({
            let m = memory_of(ring, ring_t0_ns, log, present, began);
            &&& holds_an_interval(ring) ==> m.oldest_record is Some && m.oldest_record->0
                <= ring_t0_ns
            &&& log matches Some(l) ==> (l.hours@.contains(hour) && starts_hour(start, hour)
                ==> m.oldest_record is Some && m.oldest_record->0 <= start)
            &&& m.oldest_record matches Some(t) ==> (holds_an_interval(ring) && t == ring_t0_ns)
                || (log matches Some(l) && exists|i: int|
                0 <= i < l.hours@.len() && starts_hour(t, #[trigger] l.hours@[i]))
            &&& !holds_an_interval(ring) && (log matches Some(l) ==> l.hours@.len() == 0)
                ==> m.oldest_record is None
        }),
{
    if let Some(l) = log {
        least_is_least(l.hours@);
        if l.hours@.contains(hour) {
            let i = choose|i: int| 0 <= i < l.hours@.len() && l.hours@[i] == hour;
            let h = least(l.hours@)->0;
            assert(h <= l.hours@[i]);
            assert(h * 3_600_000_000_000 <= hour * 3_600_000_000_000);
        }
        if l.hours@.len() > 0 {
            let h = least(l.hours@)->0;
            let k = choose|k: int| 0 <= k < l.hours@.len() && l.hours@[k] == h;
            assert(starts_hour(hour_start(h), l.hours@[k]));
        }
    }
}

/// The beginning of recording is no later than the ring's start, the log's earliest record and the
/// beginning of the history, it is one of them, and it is known where any of them is.
pub proof fn the_beginning_is_the_earliest_known(
    ring: Option<JsonV>,
    ring_t0_ns: i64,
    log: Option<LogMemory>,
    present: bool,
    began: Option<i64>,
)
    ensures
        ({
            let r = memory_of(ring, ring_t0_ns, log, present, began).recording_began;
            &&& holds_an_interval(ring) ==> r is Some && r->0 <= ring_t0_ns
            &&& log matches Some(l) ==> (l.earliest matches Some(t) ==> r is Some && r->0 <= t)
            &&& began matches Some(t) ==> r is Some && r->0 <= t
            &&& r is Some ==> (holds_an_interval(ring) && r == Some(ring_t0_ns)) || r == began || (
            log matches Some(l) && r == l.earliest)
        }),
{
}

/// Whether a server can bound what it forgot: not where its log deleted segments, nor where its
/// ring discarded samples or slots and no history remembers when recording began; else it can. And
/// whether its ring can answer is what the ring says of itself.
pub proof fn forgetting_is_admitted(
    ring: Option<JsonV>,
    ring_t0_ns: i64,
    log: Option<LogMemory>,
    present: bool,
    began: Option<i64>,
)
    ensures
        ({
            let m = memory_of(ring, ring_t0_ns, log, present, began);
            let deleted = log matches Some(l) && l.deleted;
            let lost = ring matches Some(s) && (count_at(s, "discarded_slots"@) > 0 || (at(
                s,
                "evicted"@,
            ) matches Some(e) && count_at(e, "samples"@) > 0));
            &&& m.forgotten is LogSegments <==> deleted
            &&& m.forgotten is RingData <==> !deleted && lost && !present
            &&& m.forgotten is Nothing <==> !deleted && (!lost || present)
            &&& m.ring_can_answer <==> (ring matches Some(s) && at(s, "enabled"@) == Some(
                JsonV::Bool(true),
            ) && at(s, "allocation"@) != Some(JsonV::Text("allocating"@)))
        }),
{
}

// ---------------------------------------------------------------------------------------------
// Grids
// ---------------------------------------------------------------------------------------------

/// The shape of a grid: whose it is, and how its cells are laid out, row by row, the earliest row
/// first, the lowest frequency first.
#[derive(Debug)]
pub struct Shape {
    /// Whose coverage it is.
    pub device: Device,
    /// Where the window starts, ns.
    pub start: i64,
    /// The time of one row, ns.
    pub t_cell_ns: i64,
    /// Rows.
    pub nt: usize,
    /// Cells in a row.
    pub nf: usize,
    /// The lowest frequency, Hz.
    pub f_lo_hz: Real,
    /// The width of one cell, Hz.
    pub f_cell_hz: Real,
}

impl Shape {
    /// A copy.
    pub fn copy(&self) -> (r: Shape)
        ensures
            r.device@ == self.device@,
            r == (Shape { device: r.device, ..*self }),
    {
        Shape {
            device: self.device.copy(),
            start: self.start,
            t_cell_ns: self.t_cell_ns,
            nt: self.nt,
            nf: self.nf,
            f_lo_hz: self.f_lo_hz,
            f_cell_hz: self.f_cell_hz,
        }
    }
}

/// The rows that lie wholly before an instant.
pub open spec fn rows_before(g: Shape, t: i64) -> nat {
    if g.t_cell_ns <= 0 || t <= g.start {
        0
    } else {
        let n = (t - g.start) / g.t_cell_ns as int;
        if n > g.nt {
            g.nt as nat
        } else {
            n as nat
        }
    }
}

/// [`rows_before`].
pub fn count_rows_before(g: &Shape, t: i64) -> (r: usize)
    ensures
        r == rows_before(*g, t),
        r <= g.nt,
{
    if g.t_cell_ns <= 0 || t <= g.start {
        return 0;
    }
    let d: i128 = t as i128 - g.start as i128;
    let n: i128 = d / g.t_cell_ns as i128;
    proof {
        let q = d as int / g.t_cell_ns as int;
        assert(n == q);
        vstd::arithmetic::div_mod::lemma_div_pos_is_pos(d as int, g.t_cell_ns as int);
    }
    if n > g.nt as i128 {
        g.nt
    } else {
        n as usize
    }
}

/// The rows before an instant end at or before it, and the next one does not.
pub proof fn rows_before_is_exact(g: Shape, t: i64)
    requires
        g.t_cell_ns > 0,
    ensures
        rows_before(g, t) > 0 ==> g.start + rows_before(g, t) * g.t_cell_ns <= t,
        rows_before(g, t) < g.nt ==> g.start + (rows_before(g, t) + 1) * g.t_cell_ns > t,
{
    if t > g.start {
        let d = t - g.start;
        let c = g.t_cell_ns as int;
        let n = d / c;
        vstd::arithmetic::div_mod::lemma_fundamental_div_mod(d, c);
        vstd::arithmetic::div_mod::lemma_div_pos_is_pos(d, c);
        assert(n * c <= d < (n + 1) * c) by (nonlinear_arith)
            requires
                d == c * n + d % c,
                0 <= d % c < c,
        ;
        if n > g.nt {
            assert(g.nt * c <= n * c) by (nonlinear_arith)
                requires
                    g.nt <= n,
                    c > 0,
            ;
        }
    } else {
        assert(1 * g.t_cell_ns == g.t_cell_ns);
    }
}

/// What a request's evidence is.
#[derive(Debug)]
pub struct Evidence {
    /// Every span from every source, unmerged: the ring's, the log's, those in flight.
    pub spans: Vec<CoverageSpan>,
    /// Spans of the IQ ring.
    pub ring: usize,
    /// Those of them that name a front end.
    pub ring_named: usize,
    /// Spans of the observation log.
    pub log: usize,
    /// Those of them that name a front end.
    pub log_named: usize,
    /// Spans of the dwells in flight.
    pub open: usize,
    /// Those of them that name a front end.
    pub open_named: usize,
    /// There is an observation log.
    pub log_available: bool,
    /// What the server remembers.
    pub memory: Memory,
    /// How far forward the evidence reaches, within the window.
    pub newest_record: Option<i64>,
}

/// How far forward some spans reach, no further than the window.
pub open spec fn forward_reach(v: Seq<CoverageSpan>, window_end: i64) -> Option<i64> {
    match newest_end(v) {
        Some(t) => Some(
            if t <= window_end {
                t
            } else {
                window_end
            },
        ),
        None => None,
    }
}

impl Evidence {
    /// The evidence of some spans. The forward reach is of the same spans that the planes are
    /// drawn from, those in flight included, so that the summary and the body cannot disagree.
    pub fn collect(
        ring: Vec<CoverageSpan>,
        log: Vec<CoverageSpan>,
        open: Vec<CoverageSpan>,
        log_available: bool,
        memory: Memory,
        window_end: i64,
    ) -> (r: Evidence)
        ensures
            r.spans@ == ring@ + log@ + open@,
            r.ring == ring@.len(),
            r.ring_named == named(ring@),
            r.log == log@.len(),
            r.log_named == named(log@),
            r.open == open@.len(),
            r.open_named == named(open@),
            r.log_available == log_available,
            r.memory == memory,
            r.newest_record == forward_reach(r.spans@, window_end),
    {
        let ghost (a, b, c) = (ring@, log@, open@);
        let (rn, ln, on) = (count_named(&ring), count_named(&log), count_named(&open));
        let (r, l, o) = (ring.len(), log.len(), open.len());
        let mut spans = ring;
        let mut more = log;
        spans.append(&mut more);
        let mut last = open;
        spans.append(&mut last);
        assert(spans@ =~= a + b + c);
        let newest_record = match find_newest(&spans) {
            Some(t) => Some(
                if t <= window_end {
                    t
                } else {
                    window_end
                },
            ),
            None => None,
        };
        Evidence {
            spans,
            ring: r,
            ring_named: rn,
            log: l,
            log_named: ln,
            open: o,
            open_named: on,
            log_available,
            memory,
            newest_record,
        }
    }

    /// Any tune history can contribute evidence.
    pub fn has_source(&self) -> (r: bool)
        ensures
            r == (self.memory.ring_can_answer || self.log_available),
    {
        self.memory.ring_can_answer || self.log_available
    }

    /// [`unknown_band`].
    pub fn unknown_rows(&self, g: &Shape) -> (r: (usize, usize))
        ensures
            (r.0 as nat, r.1 as nat) == unknown_band(self.memory, self.log_available, *g),
            r.0 <= r.1 <= g.nt,
    {
        let end = match self.memory.oldest_record {
            Some(t) => count_rows_before(g, t),
            None => g.nt,
        };
        let forgets = match self.memory.forgotten {
            Forgotten::Nothing => false,
            _ => true,
        };
        if (!self.memory.ring_can_answer && !self.log_available) || forgets {
            return (0, end);
        }
        match self.memory.recording_began {
            Some(t) => {
                let n = count_rows_before(g, t);
                (
                    if n <= end {
                        n
                    } else {
                        end
                    },
                    end,
                )
            },
            None => (0, 0),
        }
    }
}

/// The rows whose unsampled cells are unknown, from the first up to the second: those wholly
/// before the record horizon and not wholly before recording began. Where the server cannot say
/// when it began (records discarded, or no tune history at all), all of those before the horizon;
/// where nothing ever recorded, none.
pub open spec fn unknown_band(m: Memory, log_available: bool, g: Shape) -> (nat, nat) {
    let end = match m.oldest_record {
        Some(t) => rows_before(g, t),
        None => g.nt as nat,
    };
    if (!m.ring_can_answer && !log_available) || !(m.forgotten is Nothing) {
        (0, end)
    } else {
        match m.recording_began {
            Some(t) => {
                let n = rows_before(g, t);
                (
                    if n <= end {
                        n
                    } else {
                        end
                    },
                    end,
                )
            },
            None => (0, 0),
        }
    }
}

/// A row is unknown only before the record horizon; and a server with a tune history that has
/// never recorded anything has forgotten nothing.
pub proof fn unknown_only_before_the_horizon(m: Memory, log_available: bool, g: Shape)
    ensures
        unknown_band(m, log_available, g).0 <= unknown_band(m, log_available, g).1 <= g.nt,
        m.oldest_record matches Some(t) ==> unknown_band(m, log_available, g).1 <= rows_before(
            g,
            t,
        ),
        (m.ring_can_answer || log_available) && m.forgotten is Nothing && m.recording_began is None
            ==> unknown_band(m, log_available, g) == (0nat, 0nat),
        !m.ring_can_answer && !log_available && m.oldest_record is None ==> unknown_band(
            m,
            log_available,
            g,
        ) == (0nat, g.nt as nat),
{
}

/// A row is before an instant exactly where it ends at or before it.
proof fn rows_before_end_before(g: Shape, t: i64, row: int)
    requires
        g.t_cell_ns > 0,
        0 <= row < g.nt,
    ensures
        row < rows_before(g, t) <==> g.start + (row + 1) * g.t_cell_ns <= t,
{
    rows_before_is_exact(g, t);
    let n = rows_before(g, t) as int;
    let c = g.t_cell_ns as int;
    if row < n {
        assert((row + 1) * c <= n * c) by (nonlinear_arith)
            requires
                row + 1 <= n,
                c > 0,
        ;
    } else {
        assert((row + 1) * c >= (n + 1) * c) by (nonlinear_arith)
            requires
                row >= n,
                c > 0,
        ;
    }
}

/// When an unsampled cell is unknown: the row ends at or before the record horizon, or there is no
/// horizon, and the server cannot say that it was not recording yet. It can where a tune history is
/// at hand, nothing was forgotten, and the row ends at or before the beginning of recording, or
/// nothing was ever recorded.
pub proof fn rows_are_unknown_where_the_record_is_lost(
    m: Memory,
    log_available: bool,
    g: Shape,
    row: int,
)
    requires
        g.t_cell_ns > 0,
        0 <= row < g.nt,
    ensures
        ({
            let (from, to) = unknown_band(m, log_available, g);
            let end = g.start + (row + 1) * g.t_cell_ns;
            let lost = m.oldest_record matches Some(t) ==> end <= t;
            let not_yet = (m.ring_can_answer || log_available) && m.forgotten is Nothing && (
            m.recording_began matches Some(t) ==> end <= t);
            from <= row < to <==> lost && !not_yet
        }),
{
    if let Some(t) = m.oldest_record {
        rows_before_end_before(g, t, row);
    }
    if let Some(t) = m.recording_began {
        rows_before_end_before(g, t, row);
    }
}

/// The evidence reaches as far forward as any of its spans, but no further than the window.
pub proof fn the_reach_is_of_the_spans(v: Seq<CoverageSpan>, window_end: i64)
    ensures
        forward_reach(v, window_end) is Some <==> v.len() > 0,
        forward_reach(v, window_end) matches Some(t) ==> t <= window_end && (forall|i: int|
            0 <= i < v.len() ==> (#[trigger] v[i]).t1 <= t || t == window_end) && (t == window_end
            || exists|i: int| 0 <= i < v.len() && (#[trigger] v[i]).t1 == t),
{
    newest_is_newest(v);
}

/// Every span names its front end exactly where as many are named as there are.
pub proof fn named_spans_are_counted(v: Seq<CoverageSpan>)
    ensures
        named(v) <= v.len(),
        named(v) == v.len() <==> forall|i: int|
            0 <= i < v.len() ==> (#[trigger] v[i]).device@ is Id,
        named(v) == 0 <==> forall|i: int|
            0 <= i < v.len() ==> !((#[trigger] v[i]).device@ is Id),
    decreases v.len(),
{
    if v.len() > 0 {
        let t = v.drop_last();
        named_spans_are_counted(t);
        assert(v[v.len() - 1] == v.last());
        assert forall|i: int| 0 <= i < t.len() implies t[i] == #[trigger] v[i] by {}
        if named(v) == v.len() {
            assert forall|i: int| 0 <= i < v.len() implies (#[trigger] v[i]).device@ is Id by {
                if i < t.len() {
                    assert(t[i].device@ is Id);
                }
            }
        } else if named(t) == t.len() {
            assert(!(v[v.len() - 1].device@ is Id));
        } else {
            let k = choose|k: int| 0 <= k < t.len() && !((#[trigger] t[k]).device@ is Id);
            assert(!(v[k].device@ is Id));
        }
        if named(v) == 0 {
            assert forall|i: int| 0 <= i < v.len() implies !((
            #[trigger] v[i]).device@ is Id) by {
                if i < t.len() {
                    assert(!(t[i].device@ is Id));
                }
            }
        } else if named(t) == 0 {
            assert(v[v.len() - 1].device@ is Id);
        } else {
            let k = choose|k: int| 0 <= k < t.len() && (#[trigger] t[k]).device@ is Id;
            assert(v[k].device@ is Id);
        }
    }
}

// ---------------------------------------------------------------------------------------------
// Answers
// ---------------------------------------------------------------------------------------------

/// One source of evidence. Whether every span names its front end is measured, not declared.
pub open spec fn source_v(kind: Seq<char>, spans: usize, named: usize, available: bool) -> JsonV {
    JsonV::Object(
        no_fields().push(("kind"@, text_v(kind))).push(("spans"@, uint_v(spans as int))).push(
            ("named_spans"@, uint_v(named as int)),
        ).push(("device_known"@, JsonV::Bool(named == spans))).push(
            ("available"@, JsonV::Bool(available)),
        ),
    )
}

fn source_json(kind: &str, spans: usize, named_spans: usize, available: bool) -> (r: Json)
    ensures
        r.view() == source_v(kind@, spans, named_spans, available),
{
    let mut f = Fields::new();
    f.put("kind", Json::text(kind));
    f.put("spans", Json::uint(spans as u64));
    f.put("named_spans", Json::uint(named_spans as u64));
    f.put("device_known", Json::Bool(named_spans == spans));
    f.put("available", Json::Bool(available));
    f.object()
}

/// The sources of an answer; one without spans still appears.
pub open spec fn sources_v(e: Evidence) -> JsonV {
    JsonV::Array(
        Seq::empty().push(
            source_v("iq-ring"@, e.ring, e.ring_named, e.memory.ring_can_answer),
        ).push(source_v("observation-log"@, e.log, e.log_named, e.log_available)).push(
            source_v("open-dwell"@, e.open, e.open_named, e.log_available),
        ),
    )
}

/// [`sources_v`].
pub fn sources_json(e: &Evidence) -> (r: Json)
    ensures
        r.view() == sources_v(*e),
{
    let mut a = Items::new();
    a.push(source_json("iq-ring", e.ring, e.ring_named, e.memory.ring_can_answer));
    a.push(source_json("observation-log", e.log, e.log_named, e.log_available));
    a.push(source_json("open-dwell", e.open, e.open_named, e.log_available));
    a.array()
}

/// What a row before the horizon means.
pub open spec fn horizon_rule() -> Seq<char> {
    "a row wholly before `oldest_record_s` has no surviving tune record, so its unsampled cells are \"unknown\" (we no longer know whether we looked) - UNLESS the row is also wholly before `recording_began_s` and nothing is `forgotten`: before this installation recorded anything, nothing looked, and the cell is \"unobserved\". A server that has never recorded has forgotten nothing. An observed cell is never relabelled: a surviving measurement is itself proof we looked."@
}

/// How an unknown cell is drawn.
pub open spec fn unknown_rule() -> Seq<char> {
    "\"unknown\" carries no measurement keys, exactly like \"unobserved\", and must be drawn as neither grey nor a level - forgetting is not a measurement of nothing."@
}

/// What a cell after the forward reach means.
pub open spec fn as_of_rule() -> Seq<char> {
    "this answer's records reach forward only as far as `as_of_s`. An `\"unobserved\"` cell AFTER it means \"this answer does not reach here\", NOT \"nothing looked\" - a tune record is written as capture proceeds, so it always stops at the newest sample. A reader that KEEPS this answer (every tile cache does) must not draw grey past `as_of_s`: the rows there are being recorded while the copy ages, and grey is the one mark that may only mean the radio never looked. `null` means no record touches this band at all, and then nothing here was ever observed and the whole answer stands."@
}

/// The horizon block: the boundaries, and the band of rows that they make unknown.
pub open spec fn horizon_v(e: Evidence, g: Shape) -> JsonV {
    let band = unknown_band(e.memory, e.log_available, g);
    JsonV::Object(
        no_fields().push(("oldest_record_s"@, opt_scaled_v(e.memory.oldest_record))).push(
            ("recording_began_s"@, opt_scaled_v(e.memory.recording_began)),
        ).push(("forgotten"@, opt_text_v(e.memory.forgotten.words()))).push(
            ("as_of_s"@, opt_scaled_v(e.newest_record)),
        ).push(("unknown_rows"@, uint_v(band.1 - band.0))).push(
            ("unknown_from_row"@, uint_v(band.0 as int)),
        ).push(("rows"@, uint_v(g.nt as int))).push(("rule"@, text_v(horizon_rule()))).push(
            ("state_rule"@, text_v(unknown_rule())),
        ).push(("as_of_rule"@, text_v(as_of_rule()))),
    )
}

/// [`horizon_v`].
pub fn horizon_json(e: &Evidence, g: &Shape) -> (r: Json)
    ensures
        r.view() == horizon_v(*e, *g),
{
    let (from, to) = e.unknown_rows(g);
    let mut f = Fields::new();
    f.put("oldest_record_s", Json::opt_scaled(e.memory.oldest_record));
    f.put("recording_began_s", Json::opt_scaled(e.memory.recording_began));
    f.put(
        "forgotten",
        match e.memory.forgotten.reason() {
            Some(s) => Json::text(s),
            None => Json::Null,
        },
    );
    f.put("as_of_s", Json::opt_scaled(e.newest_record));
    f.put("unknown_rows", Json::uint((to - from) as u64));
    f.put("unknown_from_row", Json::uint(from as u64));
    f.put("rows", Json::uint(g.nt as u64));
    f.put(
        "rule",
        Json::text(
            "a row wholly before `oldest_record_s` has no surviving tune record, so its unsampled cells are \"unknown\" (we no longer know whether we looked) - UNLESS the row is also wholly before `recording_began_s` and nothing is `forgotten`: before this installation recorded anything, nothing looked, and the cell is \"unobserved\". A server that has never recorded has forgotten nothing. An observed cell is never relabelled: a surviving measurement is itself proof we looked.",
        ),
    );
    f.put(
        "state_rule",
        Json::text(
            "\"unknown\" carries no measurement keys, exactly like \"unobserved\", and must be drawn as neither grey nor a level - forgetting is not a measurement of nothing.",
        ),
    );
    f.put(
        "as_of_rule",
        Json::text(
            "this answer's records reach forward only as far as `as_of_s`. An `\"unobserved\"` cell AFTER it means \"this answer does not reach here\", NOT \"nothing looked\" - a tune record is written as capture proceeds, so it always stops at the newest sample. A reader that KEEPS this answer (every tile cache does) must not draw grey past `as_of_s`: the rows there are being recorded while the copy ages, and grey is the one mark that may only mean the radio never looked. `null` means no record touches this band at all, and then nothing here was ever observed and the whole answer stands.",
        ),
    );
    f.object()
}

/// A row is in the band.
pub open spec fn in_band(band: (nat, nat), row: int) -> bool {
    band.0 <= row < band.1
}

/// Cell `i` lies past the horizon: its row is in the band.
pub open spec fn beyond(g: Shape, band: (nat, nat), i: int) -> bool {
    g.nf > 0 && in_band(band, i / g.nf as int)
}

/// The shade of cell `i`.
pub open spec fn shade_of(shades: Option<Seq<Option<Real>>>, i: int) -> Option<Option<Real>> {
    match shades {
        None => None,
        Some(s) => Some(
            if 0 <= i < s.len() {
                s[i]
            } else {
                None
            },
        ),
    }
}

/// What optional shades hold.
pub open spec fn shades_view(s: Option<&Vec<Option<Real>>>) -> Option<Seq<Option<Real>>> {
    match s {
        Some(v) => Some(v@),
        None => None,
    }
}

/// The code of each cell.
pub open spec fn codes_of(g: Shape, cells: Seq<Coverage>, band: (nat, nat)) -> Seq<u8> {
    Seq::new(cells.len(), |i: int| code_of(cells[i], beyond(g, band, i)))
}

/// The codes of the first cells are the codes of those cells.
proof fn codes_of_prefix(g: Shape, cells: Seq<Coverage>, band: (nat, nat), i: int)
    requires
        0 <= i < cells.len(),
    ensures
        codes_of(g, cells, band).take(i + 1) == codes_of(g, cells, band).take(i).push(
            code_of(cells[i], beyond(g, band, i)),
        ),
        codes_of(g, cells, band).take(i + 1).drop_last() == codes_of(g, cells, band).take(i),
{
    assert(codes_of(g, cells, band).take(i + 1) =~= codes_of(g, cells, band).take(i).push(
        code_of(cells[i], beyond(g, band, i)),
    ));
    assert(codes_of(g, cells, band).take(i + 1).drop_last() =~= codes_of(g, cells, band).take(i));
}

/// [`codes_of`]: the state codes of a grid, row by row.
pub fn state_codes(g: &Shape, cells: &Vec<Coverage>, from: usize, to: usize) -> (r: Vec<u8>)
    ensures
        r@ == codes_of(*g, cells@, (from as nat, to as nat)),
        crate::coverage::valid_codes(r@),
{
    let mut out: Vec<u8> = Vec::new();
    let mut i: usize = 0;
    let ghost band = (from as nat, to as nat);
    assert(codes_of(*g, cells@, band).take(0) =~= Seq::empty());
    while i < cells.len()
        invariant
            i <= cells@.len(),
            band == (from as nat, to as nat),
            out@ == codes_of(*g, cells@, band).take(i as int),
            crate::coverage::valid_codes(out@),
        decreases cells@.len() - i,
    {
        let past = g.nf > 0 && from <= i / g.nf && i / g.nf < to;
        let code = crate::coverage::state_code(&cells[i], past);
        proof {
            codes_of_prefix(*g, cells@, band, i as int);
        }
        out.push(code);
        i += 1;
    }
    assert(codes_of(*g, cells@, band).take(cells@.len() as int) =~= codes_of(*g, cells@, band));
    out
}

/// The cells of a grid in JSON.
pub open spec fn cells_v(
    g: Shape,
    cells: Seq<Coverage>,
    shades: Option<Seq<Option<Real>>>,
    band: (nat, nat),
) -> Seq<JsonV> {
    Seq::new(
        cells.len(),
        |i: int| cell_v(cells[i], shade_of(shades, i), beyond(g, band, i)),
    )
}

/// A grid in JSON. The unknown cells are counted apart: adding them to the unobserved ones would
/// be the collapse that the four states exist to refuse.
pub open spec fn grid_v(
    g: Shape,
    cells: Seq<Coverage>,
    shades: Option<Seq<Option<Real>>>,
    band: (nat, nat),
) -> JsonV {
    let codes = codes_of(g, cells, band);
    let observed = count(codes, crate::coverage::OBSERVED);
    let excluded = count(codes, crate::coverage::EXCLUDED);
    JsonV::Object(
        no_fields().push(("device"@, text_v(g.device@.label()))).push(
            ("named"@, JsonV::Bool(g.device@ is Id)),
        ).push(("observed_cells"@, uint_v(observed as int))).push(
            ("excluded_cells"@, uint_v(excluded as int)),
        ).push(("unobserved_cells"@, uint_v(count(codes, UNOBSERVED) as int))).push(
            ("unknown_cells"@, uint_v(count(codes, UNKNOWN) as int)),
        ).push(
            (
                "observed_fraction"@,
                crate::coverage::fraction_v(observed + excluded, cells.len()),
            ),
        ).push(("cells"@, JsonV::Array(cells_v(g, cells, shades, band)))),
    )
}

/// [`grid_v`].
pub fn grid_json(
    g: &Shape,
    cells: &Vec<Coverage>,
    shades: Option<&Vec<Option<Real>>>,
    from: usize,
    to: usize,
) -> (r: Json)
    ensures
        r.view() == grid_v(*g, cells@, shades_view(shades), (from as nat, to as nat)),
{
    let ghost band = (from as nat, to as nat);
    let ghost want = cells_v(*g, cells@, shades_view(shades), band);
    let mut out = Items::new();
    let mut i: usize = 0;
    assert(want.take(0) =~= Seq::empty());
    while i < cells.len()
        invariant
            i <= cells@.len(),
            band == (from as nat, to as nat),
            want == cells_v(*g, cells@, shades_view(shades), band),
            out@ == want.take(i as int),
        decreases cells@.len() - i,
    {
        let past = g.nf > 0 && from <= i / g.nf && i / g.nf < to;
        let shade = match shades {
            None => None,
            Some(s) => Some(
                if i < s.len() {
                    s[i]
                } else {
                    None
                },
            ),
        };
        let x = cell_json(&cells[i], shade, past);
        assert(want.take(i + 1) =~= want.take(i as int).push(x.view()));
        out.push(x);
        i += 1;
    }
    assert(want.take(cells@.len() as int) =~= want);
    let codes = state_codes(g, cells, from, to);
    let observed = crate::coverage::count_code(codes.as_slice(), crate::coverage::OBSERVED);
    let excluded = crate::coverage::count_code(codes.as_slice(), crate::coverage::EXCLUDED);
    let unobserved = crate::coverage::count_code(codes.as_slice(), UNOBSERVED);
    let unknown = crate::coverage::count_code(codes.as_slice(), UNKNOWN);
    proof {
        crate::coverage::counts_are_complete(codes@);
    }
    let mut f = Fields::new();
    f.put("device", Json::text(g.device.as_str()));
    f.put("named", Json::Bool(g.device.is_named()));
    f.put("observed_cells", Json::uint(observed as u64));
    f.put("excluded_cells", Json::uint(excluded as u64));
    f.put("unobserved_cells", Json::uint(unobserved as u64));
    f.put("unknown_cells", Json::uint(unknown as u64));
    f.put("observed_fraction", crate::coverage::sampled_fraction(observed + excluded, cells.len()));
    f.put("cells", out.array());
    f.object()
}

// ---------------------------------------------------------------------------------------------
// The window
// ---------------------------------------------------------------------------------------------

/// An optional finite number among the parameters.
pub open spec fn number_param(q: Seq<(Seq<char>, Seq<char>)>, key: Seq<char>) -> Result<
    Option<Real>,
    ApiErrorV,
> {
    match value_of(q, key) {
        None => Ok(None),
        Some(raw) => match text_real(raw) {
            Some(x) => Ok(Some(x)),
            None => Err(api_error_v(400, key + " must be a finite number"@)),
        },
    }
}

/// [`number_param`].
pub fn read_number(q: &Vec<(String, String)>, key: &str) -> (r: Result<Option<Real>, ApiError>)
    ensures
        api_outcome(r) == number_param(pairs(q@), key@),
{
    match find_value(q.as_slice(), key) {
        None => Ok(None),
        Some(raw) => match parse_real(raw) {
            Some(x) => Ok(Some(x)),
            None => Err(
                ApiError::of(400, String::from_str(key).concat(" must be a finite number")),
            ),
        },
    }
}

/// The window an answer is about and where it came from: the caller's `t0` and `t1` (which
/// `asked` writes in nanoseconds) where both are given, else the capture window that the server
/// holds. An answer with no window is refused, not defaulted to a plausible span.
pub open spec fn window_from(
    q: Seq<(Seq<char>, Seq<char>)>,
    asked: (i64, i64),
    capture: Option<(i64, i64)>,
) -> Result<((i64, i64), Seq<char>), ApiErrorV> {
    match number_param(q, "t0"@) {
        Err(e) => Err(e),
        Ok(a) => match number_param(q, "t1"@) {
            Err(e) => Err(e),
            Ok(b) => match (a, b) {
                (Some(a), Some(b)) if a.below(b) => Ok((asked, "requested"@)),
                (None, None) => match capture {
                    Some(w) => Ok((w, "capture-window"@)),
                    None => Err(
                        api_error_v(
                            404,
                            "no capture window on this server; give t0 and t1 to ask for one"@,
                        ),
                    ),
                },
                _ => Err(api_error_v(400, "t0 and t1 must be given together, t1 > t0"@)),
            },
        },
    }
}

/// What a window and its source hold.
pub open spec fn window_result(r: Result<((i64, i64), &'static str), ApiError>) -> Result<
    ((i64, i64), Seq<char>),
    ApiErrorV,
> {
    match r {
        Ok((w, s)) => Ok((w, s@)),
        Err(e) => Err(e@),
    }
}

/// [`window_from`].
pub fn window_of(
    q: &Vec<(String, String)>,
    asked: (i64, i64),
    capture: Option<(i64, i64)>,
) -> (r: Result<((i64, i64), &'static str), ApiError>)
    ensures
        window_result(r) == window_from(pairs(q@), asked, capture),
{
    let a = match read_number(q, "t0") {
        Ok(a) => a,
        Err(e) => return Err(e),
    };
    let b = match read_number(q, "t1") {
        Ok(b) => b,
        Err(e) => return Err(e),
    };
    match (a, b) {
        (Some(a), Some(b)) => if a.lt(b) {
            Ok((asked, "requested"))
        } else {
            Err(ApiError::new(400, "t0 and t1 must be given together, t1 > t0"))
        },
        (None, None) => match capture {
            Some(w) => Ok((w, "capture-window")),
            None => Err(
                ApiError::new(
                    404,
                    "no capture window on this server; give t0 and t1 to ask for one",
                ),
            ),
        },
        _ => Err(ApiError::new(400, "t0 and t1 must be given together, t1 > t0")),
    }
}

/// The ring's tune history over a window: what says how often a receiver looked at a band.
#[derive(Debug)]
pub struct ObservedCoverage {
    /// The spans of the ring.
    pub spans: Vec<CoverageSpan>,
}

/// The times of the spans that overlap a band.
pub open spec fn times_of(v: Seq<CoverageSpan>, freq: Span) -> Seq<(i64, i64)>
    decreases v.len(),
{
    if v.len() == 0 {
        Seq::empty()
    } else {
        let before = times_of(v.drop_last(), freq);
        if v.last().freq.overlaps_band(freq) {
            before.push((v.last().t0, v.last().t1))
        } else {
            before
        }
    }
}

impl ObservedCoverage {
    /// The times at which the receiver looked at a band: coverage of somewhere else is not coverage
    /// of here.
    pub fn times_over(&self, freq: &Span) -> (r: Vec<(i64, i64)>)
        ensures
            r@ == times_of(self.spans@, *freq),
    {
        let mut out: Vec<(i64, i64)> = Vec::new();
        let mut i: usize = 0;
        assert(self.spans@.take(0) =~= Seq::empty());
        while i < self.spans.len()
            invariant
                i <= self.spans@.len(),
                out@ == times_of(self.spans@.take(i as int), *freq),
            decreases self.spans@.len() - i,
        {
            assert(self.spans@.take(i + 1).drop_last() =~= self.spans@.take(i as int));
            if self.spans[i].freq.overlaps(freq) {
                out.push((self.spans[i].t0, self.spans[i].t1));
            }
            i += 1;
        }
        assert(self.spans@.take(self.spans@.len() as int) =~= self.spans@);
        out
    }
}

/// What a cell is: sampled and analysed, sampled and left out of the analysis, or not sampled. One
/// that was not is unknown exactly where its row ends at or before the record horizon, or there is
/// none, and the server cannot say that it was not recording yet; else nothing looked.
pub proof fn cells_say_whether_the_radio_looked(
    m: Memory,
    log_available: bool,
    g: Shape,
    cells: Seq<Coverage>,
    i: int,
)
    requires
        g.t_cell_ns > 0,
        g.nf > 0,
        cells.len() == g.nt * g.nf,
        0 <= i < cells.len(),
    ensures
        ({
            let code = codes_of(g, cells, unknown_band(m, log_available, g))[i];
            let end = g.start + (i / g.nf as int + 1) * g.t_cell_ns;
            let lost = m.oldest_record matches Some(t) ==> end <= t;
            let not_yet = (m.ring_can_answer || log_available) && m.forgotten is Nothing && (
            m.recording_began matches Some(t) ==> end <= t);
            match cells[i] {
                Coverage::Sampled(s) => code == (if s.analysed_ns == 0 {
                    3u8
                } else {
                    1u8
                }),
                Coverage::Unobserved => code == (if lost && !not_yet {
                    2u8
                } else {
                    0u8
                }),
            }
        }),
{
    let row = i / g.nf as int;
    assert(0 <= row < g.nt) by {
        vstd::arithmetic::div_mod::lemma_div_pos_is_pos(i, g.nf as int);
        vstd::arithmetic::div_mod::lemma_fundamental_div_mod(i, g.nf as int);
        let (n, f) = (g.nt as int, g.nf as int);
        if row >= n {
            assert(f * row >= f * n) by (nonlinear_arith)
                requires
                    row >= n,
                    f > 0,
            ;
            assert(n * f == f * n) by (nonlinear_arith);
        }
    }
    rows_are_unknown_where_the_record_is_lost(m, log_available, g, row);
}

/// What a reader finds of the horizon: the oldest record, when recording began, why something was
/// forgotten, how far forward the answer reaches, and which rows are unknown.
pub proof fn the_horizon_is_served(e: Evidence, g: Shape)
    ensures
        ({
            let h = horizon_v(e, g);
            let (from, to) = unknown_band(e.memory, e.log_available, g);
            &&& at(h, "oldest_record_s"@) == Some(opt_scaled_v(e.memory.oldest_record))
            &&& at(h, "recording_began_s"@) == Some(opt_scaled_v(e.memory.recording_began))
            &&& at(h, "forgotten"@) == Some(opt_text_v(e.memory.forgotten.words()))
            &&& at(h, "as_of_s"@) == Some(opt_scaled_v(e.newest_record))
            &&& at(h, "unknown_rows"@) == Some(uint_v(to - from))
            &&& at(h, "unknown_from_row"@) == Some(uint_v(from as int))
            &&& at(h, "rows"@) == Some(uint_v(g.nt as int))
        }),
        e.memory.forgotten.words() is None <==> e.memory.forgotten is Nothing,
{
    let f = horizon_v(e, g)->Object_0;
    member_is_the_first(f, "oldest_record_s"@, 0);
    assert("oldest_record_s"@ != "recording_began_s"@) by {
        reveal_strlit("oldest_record_s");
        reveal_strlit("recording_began_s");
        assert("oldest_record_s"@.len() != "recording_began_s"@.len());
    }
    member_is_the_first(f, "recording_began_s"@, 1);
    assert("oldest_record_s"@ != "forgotten"@) by {
        reveal_strlit("oldest_record_s");
        reveal_strlit("forgotten");
        assert("oldest_record_s"@.len() != "forgotten"@.len());
    }
    assert("recording_began_s"@ != "forgotten"@) by {
        reveal_strlit("recording_began_s");
        reveal_strlit("forgotten");
        assert("recording_began_s"@.len() != "forgotten"@.len());
    }
    member_is_the_first(f, "forgotten"@, 2);
    assert("oldest_record_s"@ != "as_of_s"@) by {
        reveal_strlit("oldest_record_s");
        reveal_strlit("as_of_s");
        assert("oldest_record_s"@.len() != "as_of_s"@.len());
    }
    assert("recording_began_s"@ != "as_of_s"@) by {
        reveal_strlit("recording_began_s");
        reveal_strlit("as_of_s");
        assert("recording_began_s"@.len() != "as_of_s"@.len());
    }
    assert("forgotten"@ != "as_of_s"@) by {
        reveal_strlit("forgotten");
        reveal_strlit("as_of_s");
        assert("forgotten"@.len() != "as_of_s"@.len());
    }
    member_is_the_first(f, "as_of_s"@, 3);
    assert("oldest_record_s"@ != "unknown_rows"@) by {
        reveal_strlit("oldest_record_s");
        reveal_strlit("unknown_rows");
        assert("oldest_record_s"@.len() != "unknown_rows"@.len());
    }
    assert("recording_began_s"@ != "unknown_rows"@) by {
        reveal_strlit("recording_began_s");
        reveal_strlit("unknown_rows");
        assert("recording_began_s"@.len() != "unknown_rows"@.len());
    }
    assert("forgotten"@ != "unknown_rows"@) by {
        reveal_strlit("forgotten");
        reveal_strlit("unknown_rows");
        assert("forgotten"@.len() != "unknown_rows"@.len());
    }
    assert("as_of_s"@ != "unknown_rows"@) by {
        reveal_strlit("as_of_s");
        reveal_strlit("unknown_rows");
        assert("as_of_s"@.len() != "unknown_rows"@.len());
    }
    member_is_the_first(f, "unknown_rows"@, 4);
    assert("oldest_record_s"@ != "unknown_from_row"@) by {
        reveal_strlit("oldest_record_s");
        reveal_strlit("unknown_from_row");
        assert("oldest_record_s"@.len() != "unknown_from_row"@.len());
    }
    assert("recording_began_s"@ != "unknown_from_row"@) by {
        reveal_strlit("recording_began_s");
        reveal_strlit("unknown_from_row");
        assert("recording_began_s"@.len() != "unknown_from_row"@.len());
    }
    assert("forgotten"@ != "unknown_from_row"@) by {
        reveal_strlit("forgotten");
        reveal_strlit("unknown_from_row");
        assert("forgotten"@.len() != "unknown_from_row"@.len());
    }
    assert("as_of_s"@ != "unknown_from_row"@) by {
        reveal_strlit("as_of_s");
        reveal_strlit("unknown_from_row");
        assert("as_of_s"@.len() != "unknown_from_row"@.len());
    }
    assert("unknown_rows"@ != "unknown_from_row"@) by {
        reveal_strlit("unknown_rows");
        reveal_strlit("unknown_from_row");
        assert("unknown_rows"@.len() != "unknown_from_row"@.len());
    }
    member_is_the_first(f, "unknown_from_row"@, 5);
    assert("oldest_record_s"@ != "rows"@) by {
        reveal_strlit("oldest_record_s");
        reveal_strlit("rows");
        assert("oldest_record_s"@.len() != "rows"@.len());
    }
    assert("recording_began_s"@ != "rows"@) by {
        reveal_strlit("recording_began_s");
        reveal_strlit("rows");
        assert("recording_began_s"@.len() != "rows"@.len());
    }
    assert("forgotten"@ != "rows"@) by {
        reveal_strlit("forgotten");
        reveal_strlit("rows");
        assert("forgotten"@.len() != "rows"@.len());
    }
    assert("as_of_s"@ != "rows"@) by {
        reveal_strlit("as_of_s");
        reveal_strlit("rows");
        assert("as_of_s"@.len() != "rows"@.len());
    }
    assert("unknown_rows"@ != "rows"@) by {
        reveal_strlit("unknown_rows");
        reveal_strlit("rows");
        assert("unknown_rows"@.len() != "rows"@.len());
    }
    assert("unknown_from_row"@ != "rows"@) by {
        reveal_strlit("unknown_from_row");
        reveal_strlit("rows");
        assert("unknown_from_row"@.len() != "rows"@.len());
    }
    member_is_the_first(f, "rows"@, 6);
}

/// What a reader finds of a grid: whose it is, its cells in order, how many are in each state, and
/// what share was sampled, whether or not it was analysed.
pub proof fn a_grid_is_served_with_its_counts(
    g: Shape,
    cells: Seq<Coverage>,
    shades: Option<Seq<Option<Real>>>,
    band: (nat, nat),
)
    ensures
        ({
            let v = grid_v(g, cells, shades, band);
            let codes = codes_of(g, cells, band);
            &&& at(v, "device"@) == Some(text_v(g.device@.label()))
            &&& at(v, "named"@) == Some(JsonV::Bool(g.device@ is Id))
            &&& at(v, "observed_cells"@) == Some(uint_v(count(codes, 1) as int))
            &&& at(v, "excluded_cells"@) == Some(uint_v(count(codes, 3) as int))
            &&& at(v, "unobserved_cells"@) == Some(uint_v(count(codes, 0) as int))
            &&& at(v, "unknown_cells"@) == Some(uint_v(count(codes, 2) as int))
            &&& at(v, "observed_fraction"@) == Some(
                crate::coverage::fraction_v(count(codes, 1) + count(codes, 3), cells.len()),
            )
            &&& at(v, "cells"@) == Some(JsonV::Array(cells_v(g, cells, shades, band)))
            &&& cells_v(g, cells, shades, band).len() == cells.len()
            &&& forall|i: int|
                0 <= i < cells.len() ==> #[trigger] cells_v(g, cells, shades, band)[i] == cell_v(
                    cells[i],
                    shade_of(shades, i),
                    g.nf > 0 && band.0 <= i / g.nf as int && i / (g.nf as int) < band.1,
                )
        }),
{
    let f = grid_v(g, cells, shades, band)->Object_0;
    member_is_the_first(f, "device"@, 0);
    assert("device"@ != "named"@) by {
        reveal_strlit("device");
        reveal_strlit("named");
        assert("device"@.len() != "named"@.len());
    }
    member_is_the_first(f, "named"@, 1);
    assert("device"@ != "observed_cells"@) by {
        reveal_strlit("device");
        reveal_strlit("observed_cells");
        assert("device"@.len() != "observed_cells"@.len());
    }
    assert("named"@ != "observed_cells"@) by {
        reveal_strlit("named");
        reveal_strlit("observed_cells");
        assert("named"@.len() != "observed_cells"@.len());
    }
    member_is_the_first(f, "observed_cells"@, 2);
    assert("device"@ != "excluded_cells"@) by {
        reveal_strlit("device");
        reveal_strlit("excluded_cells");
        assert("device"@.len() != "excluded_cells"@.len());
    }
    assert("named"@ != "excluded_cells"@) by {
        reveal_strlit("named");
        reveal_strlit("excluded_cells");
        assert("named"@.len() != "excluded_cells"@.len());
    }
    assert("observed_cells"@ != "excluded_cells"@) by {
        reveal_strlit("observed_cells");
        reveal_strlit("excluded_cells");
        assert("observed_cells"@[0] != "excluded_cells"@[0]);
    }
    member_is_the_first(f, "excluded_cells"@, 3);
    assert("device"@ != "unobserved_cells"@) by {
        reveal_strlit("device");
        reveal_strlit("unobserved_cells");
        assert("device"@.len() != "unobserved_cells"@.len());
    }
    assert("named"@ != "unobserved_cells"@) by {
        reveal_strlit("named");
        reveal_strlit("unobserved_cells");
        assert("named"@.len() != "unobserved_cells"@.len());
    }
    assert("observed_cells"@ != "unobserved_cells"@) by {
        reveal_strlit("observed_cells");
        reveal_strlit("unobserved_cells");
        assert("observed_cells"@.len() != "unobserved_cells"@.len());
    }
    assert("excluded_cells"@ != "unobserved_cells"@) by {
        reveal_strlit("excluded_cells");
        reveal_strlit("unobserved_cells");
        assert("excluded_cells"@.len() != "unobserved_cells"@.len());
    }
    member_is_the_first(f, "unobserved_cells"@, 4);
    assert("device"@ != "unknown_cells"@) by {
        reveal_strlit("device");
        reveal_strlit("unknown_cells");
        assert("device"@.len() != "unknown_cells"@.len());
    }
    assert("named"@ != "unknown_cells"@) by {
        reveal_strlit("named");
        reveal_strlit("unknown_cells");
        assert("named"@.len() != "unknown_cells"@.len());
    }
    assert("observed_cells"@ != "unknown_cells"@) by {
        reveal_strlit("observed_cells");
        reveal_strlit("unknown_cells");
        assert("observed_cells"@.len() != "unknown_cells"@.len());
    }
    assert("excluded_cells"@ != "unknown_cells"@) by {
        reveal_strlit("excluded_cells");
        reveal_strlit("unknown_cells");
        assert("excluded_cells"@.len() != "unknown_cells"@.len());
    }
    assert("unobserved_cells"@ != "unknown_cells"@) by {
        reveal_strlit("unobserved_cells");
        reveal_strlit("unknown_cells");
        assert("unobserved_cells"@.len() != "unknown_cells"@.len());
    }
    member_is_the_first(f, "unknown_cells"@, 5);
    assert("device"@ != "observed_fraction"@) by {
        reveal_strlit("device");
        reveal_strlit("observed_fraction");
        assert("device"@.len() != "observed_fraction"@.len());
    }
    assert("named"@ != "observed_fraction"@) by {
        reveal_strlit("named");
        reveal_strlit("observed_fraction");
        assert("named"@.len() != "observed_fraction"@.len());
    }
    assert("observed_cells"@ != "observed_fraction"@) by {
        reveal_strlit("observed_cells");
        reveal_strlit("observed_fraction");
        assert("observed_cells"@.len() != "observed_fraction"@.len());
    }
    assert("excluded_cells"@ != "observed_fraction"@) by {
        reveal_strlit("excluded_cells");
        reveal_strlit("observed_fraction");
        assert("excluded_cells"@.len() != "observed_fraction"@.len());
    }
    assert("unobserved_cells"@ != "observed_fraction"@) by {
        reveal_strlit("unobserved_cells");
        reveal_strlit("observed_fraction");
        assert("unobserved_cells"@.len() != "observed_fraction"@.len());
    }
    assert("unknown_cells"@ != "observed_fraction"@) by {
        reveal_strlit("unknown_cells");
        reveal_strlit("observed_fraction");
        assert("unknown_cells"@.len() != "observed_fraction"@.len());
    }
    member_is_the_first(f, "observed_fraction"@, 6);
    assert("device"@ != "cells"@) by {
        reveal_strlit("device");
        reveal_strlit("cells");
        assert("device"@.len() != "cells"@.len());
    }
    assert("named"@ != "cells"@) by {
        reveal_strlit("named");
        reveal_strlit("cells");
        assert("named"@[0] != "cells"@[0]);
    }
    assert("observed_cells"@ != "cells"@) by {
        reveal_strlit("observed_cells");
        reveal_strlit("cells");
        assert("observed_cells"@.len() != "cells"@.len());
    }
    assert("excluded_cells"@ != "cells"@) by {
        reveal_strlit("excluded_cells");
        reveal_strlit("cells");
        assert("excluded_cells"@.len() != "cells"@.len());
    }
    assert("unobserved_cells"@ != "cells"@) by {
        reveal_strlit("unobserved_cells");
        reveal_strlit("cells");
        assert("unobserved_cells"@.len() != "cells"@.len());
    }
    assert("unknown_cells"@ != "cells"@) by {
        reveal_strlit("unknown_cells");
        reveal_strlit("cells");
        assert("unknown_cells"@.len() != "cells"@.len());
    }
    assert("observed_fraction"@ != "cells"@) by {
        reveal_strlit("observed_fraction");
        reveal_strlit("cells");
        assert("observed_fraction"@.len() != "cells"@.len());
    }
    member_is_the_first(f, "cells"@, 7);
}

/// What a reader finds of the sources: how many spans each gave, whether all of them name their front
/// end, and whether it can answer at all.
pub proof fn sources_are_served_as_they_are(e: Evidence)
    ensures
        sources_v(e) matches JsonV::Array(a) && a.len() == 3 && a[0] == source_v(
            "iq-ring"@,
            e.ring,
            e.ring_named,
            e.memory.ring_can_answer,
        ) && a[1] == source_v("observation-log"@, e.log, e.log_named, e.log_available) && a[2]
            == source_v("open-dwell"@, e.open, e.open_named, e.log_available),
        at(source_v("iq-ring"@, e.ring, e.ring_named, e.memory.ring_can_answer), "spans"@) == Some(
            uint_v(e.ring as int),
        ),
{
    one_source_is_served("iq-ring"@, e.ring, e.ring_named, e.memory.ring_can_answer);
}

/// What a reader finds of one source.
pub proof fn one_source_is_served(kind: Seq<char>, spans: usize, named: usize, available: bool)
    ensures
        at(source_v(kind, spans, named, available), "kind"@) == Some(text_v(kind)),
        at(source_v(kind, spans, named, available), "spans"@) == Some(uint_v(spans as int)),
        at(source_v(kind, spans, named, available), "named_spans"@) == Some(uint_v(named as int)),
        at(source_v(kind, spans, named, available), "device_known"@) == Some(
            JsonV::Bool(named == spans),
        ),
        at(source_v(kind, spans, named, available), "available"@) == Some(JsonV::Bool(available)),
{
    let f = source_v(kind, spans, named, available)->Object_0;
    member_is_the_first(f, "kind"@, 0);
    assert("kind"@ != "spans"@) by {
        reveal_strlit("kind");
        reveal_strlit("spans");
        assert("kind"@.len() != "spans"@.len());
    }
    member_is_the_first(f, "spans"@, 1);
    assert("kind"@ != "named_spans"@) by {
        reveal_strlit("kind");
        reveal_strlit("named_spans");
        assert("kind"@.len() != "named_spans"@.len());
    }
    assert("spans"@ != "named_spans"@) by {
        reveal_strlit("spans");
        reveal_strlit("named_spans");
        assert("spans"@.len() != "named_spans"@.len());
    }
    member_is_the_first(f, "named_spans"@, 2);
    assert("kind"@ != "device_known"@) by {
        reveal_strlit("kind");
        reveal_strlit("device_known");
        assert("kind"@.len() != "device_known"@.len());
    }
    assert("spans"@ != "device_known"@) by {
        reveal_strlit("spans");
        reveal_strlit("device_known");
        assert("spans"@.len() != "device_known"@.len());
    }
    assert("named_spans"@ != "device_known"@) by {
        reveal_strlit("named_spans");
        reveal_strlit("device_known");
        assert("named_spans"@.len() != "device_known"@.len());
    }
    member_is_the_first(f, "device_known"@, 3);
    assert("kind"@ != "available"@) by {
        reveal_strlit("kind");
        reveal_strlit("available");
        assert("kind"@.len() != "available"@.len());
    }
    assert("spans"@ != "available"@) by {
        reveal_strlit("spans");
        reveal_strlit("available");
        assert("spans"@.len() != "available"@.len());
    }
    assert("named_spans"@ != "available"@) by {
        reveal_strlit("named_spans");
        reveal_strlit("available");
        assert("named_spans"@.len() != "available"@.len());
    }
    assert("device_known"@ != "available"@) by {
        reveal_strlit("device_known");
        reveal_strlit("available");
        assert("device_known"@.len() != "available"@.len());
    }
    member_is_the_first(f, "available"@, 4);
}

/// The window of a question: the one asked for where both ends are numbers in order; the capture's
/// where neither is given and there is one; else none.
pub proof fn the_window_is_the_one_asked_for(
    q: Seq<(Seq<char>, Seq<char>)>,
    asked: (i64, i64),
    capture: Option<(i64, i64)>,
)
    ensures
        ({
            let (a, b) = (value_of(q, "t0"@), value_of(q, "t1"@));
            let w = window_from(q, asked, capture);
            &&& a is None && b is None ==> (match capture {
                Some(c) => w matches Ok(x) && x.0 == c && x.1 == "capture-window"@,
                None => w matches Err(e) && e.status == 404,
            })
            &&& a is Some && b is Some ==> (w is Ok <==> text_real(a->0) is Some && text_real(
                b->0,
            ) is Some && text_real(a->0)->0.below(text_real(b->0)->0))
            &&& a is Some && b is Some ==> (w matches Ok(x) ==> x.0 == asked && x.1
                == "requested"@)
            &&& (a is Some) != (b is Some) ==> (w matches Err(e) && e.status == 400)
        }),
{
}

/// A segment of the ring's journal is read where its centre and a positive rate are numbers and its
/// interval is whole nanoseconds; it is then exactly those, and its front end is the one it names, or
/// unknown where it names none.
pub proof fn segments_are_read_as_written(v: JsonV)
    ensures
        segment_of(v) is Some <==> real_at(v, "center_hz"@) is Some && real_at(
            v,
            "sample_rate_hz"@,
        ) is Some && (Real { bits: 0 }).below(real_at(v, "sample_rate_hz"@)->0) && int_at(
            v,
            "t0_ns"@,
        ) is Some && int_at(v, "t1_ns"@) is Some,
        segment_of(v) matches Some(s) ==> {
            &&& real_at(v, "center_hz"@) == Some(s.center_hz)
            &&& real_at(v, "sample_rate_hz"@) == Some(s.sample_rate_hz)
            &&& int_at(v, "t0_ns"@) == Some(s.t0)
            &&& int_at(v, "t1_ns"@) == Some(s.t1)
            &&& at(v, "device_id"@) matches Some(JsonV::Text(d)) ==> (d.len() > 0 ==> s.device
                == DeviceV::Id(d))
            &&& s.device is Id ==> at(v, "device_id"@) == Some(JsonV::Text(s.device->Id_0))
            &&& !(s.device is Any)
        },
{
    if let Some(x) = real_at(v, "sample_rate_hz"@) {
        as_real_is_finite(v, "sample_rate_hz"@);
    }
}

proof fn as_real_is_finite(v: JsonV, key: Seq<char>)
    ensures
        real_at(v, key) matches Some(x) ==> x.finite(),
{
}

/// Items that are no segments are passed over, and every other is read, in order.
pub proof fn segments_keep_their_order(items: Seq<JsonV>, v: JsonV)
    ensures
        segments_of(Seq::empty()) == Seq::<SegmentV>::empty(),
        segments_of(items.push(v)) == (match segment_of(v) {
            Some(s) => segments_of(items).push(s),
            None => segments_of(items),
        }),
{
    assert(items.push(v).drop_last() =~= items);
}

/// One segment more is one span more where its band and the one asked for share a frequency, and
/// makes no difference where they do not. The span is the segment's own.
pub proof fn segments_in_the_band_are_spans(
    v: Seq<SegmentV>,
    s: SegmentV,
    edges: Seq<(Real, Real)>,
    freq: Span,
)
    requires
        edges.len() > v.len(),
    ensures
        ({
            let (lo, hi) = edges[v.len() as int];
            let before = ring_spans_of(v, edges, freq);
            let after = ring_spans_of(v.push(s), edges, freq);
            &&& !(lo.below(freq.hi) && freq.lo.below(hi)) ==> after == before
            &&& lo.below(freq.hi) && freq.lo.below(hi) ==> after.len() == before.len() + 1
                && after.drop_last() == before && after.last().freq == (Span { lo, hi })
                && after.last().device == s.device && after.last().t0 == s.t0 && after.last().t1
                == s.t1 && after.last().analysed && after.last().center_hz == s.center_hz
                && after.last().sample_rate_hz == s.sample_rate_hz
        }),
{
    assert(v.push(s).drop_last() =~= v);
    let (lo, hi) = edges[v.len() as int];
    if lo.below(freq.hi) && freq.lo.below(hi) {
        assert(ring_spans_of(v.push(s), edges, freq).drop_last() =~= ring_spans_of(
            v,
            edges,
            freq,
        ));
    }
}

/// One span more adds its time where it and the band share a frequency, and none where they do not.
pub proof fn times_are_of_the_spans_in_the_band(v: Seq<CoverageSpan>, s: CoverageSpan, freq: Span)
    ensures
        times_of(v.push(s), freq) == (if s.freq.lo.below(freq.hi) && freq.lo.below(s.freq.hi) {
            times_of(v, freq).push((s.t0, s.t1))
        } else {
            times_of(v, freq)
        }),
        times_of(Seq::empty(), freq) == Seq::<(i64, i64)>::empty(),
{
    assert(v.push(s).drop_last() =~= v);
}

} // verus!
