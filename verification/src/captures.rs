//! Recordings of inspector streams: list, inspect, delete and scrub them.

use vstd::prelude::*;

use crate::analyze::{is_segment, one_segment};
use crate::body::{
    fail_v, invalid_v, no_fields as refuse_fields, only_allowed_members_pass, only_of, outcome,
    read_result, Fail, FailV,
};
use crate::dispatch::{applied_result, Applied, AppliedV};
use crate::double::{parse_real, text_real};
use crate::inspector::{capture_id, is_capture_id, served_v, withheld_records_carry_no_content};
use crate::json::{
    at, fields_view, items_view, no_fields, opt_uint_v, text_v, uint_v, Fields, Json, JsonV,
};
use crate::params::{find_stray, stray};
use crate::request::{find_value, pairs, value_of};
use crate::store::{open_of, open_store};
use crate::text::{
    debug, debug_text, opt_text, parse_unsigned, same, strip_prefix, strip_suffix, texts, unsigned,
    without_prefix, without_suffix,
};

verus! {

/// The most frames of a page.
pub const MAX_FRAMES_LIMIT: u64 = 500;

/// The size of a page that names none.
pub const DEFAULT_FRAMES_LIMIT: u64 = 100;

/// The bits of 9.0e9: seconds beyond it are no time.
pub const MAX_TIME: u64 = 0x4200_c388_d000_0000;

// ---------------------------------------------------------------------------------------------
// Routing
// ---------------------------------------------------------------------------------------------

/// An action on recordings.
#[derive(Clone, Copy, Debug, PartialEq, Eq)]
pub enum Action<'a> {
    /// All of them.
    List,
    /// One.
    Get(&'a str),
    /// Delete one.
    Delete(&'a str),
    /// A page of one's frames.
    Frames(&'a str),
}

/// What an [`Action`] holds.
pub enum ActionV {
    /// All of them.
    List,
    /// One.
    Get(Seq<char>),
    /// Delete one.
    Delete(Seq<char>),
    /// A page of one's frames.
    Frames(Seq<char>),
}

impl Action<'_> {
    /// What it holds.
    pub open spec fn view(&self) -> ActionV {
        match self {
            Action::List => ActionV::List,
            Action::Get(id) => ActionV::Get(id@),
            Action::Delete(id) => ActionV::Delete(id@),
            Action::Frames(id) => ActionV::Frames(id@),
        }
    }
}

/// What a method and a path are.
pub open spec fn resolved(method: Seq<char>, path: Seq<char>) -> Option<
    Result<ActionV, Option<Seq<char>>>,
> {
    if path == "/api/captures"@ {
        Some(
            if method == "GET"@ {
                Ok(ActionV::List)
            } else {
                Err(Some("GET"@))
            },
        )
    } else {
        match without_prefix(path, "/api/captures/"@) {
            None => None,
            Some(rest) => match without_suffix(rest, "/frames"@) {
                Some(id) => if !is_segment(id) {
                    None
                } else if method == "GET"@ {
                    Some(Ok(ActionV::Frames(id)))
                } else {
                    Some(Err(Some("GET"@)))
                },
                None => if !is_segment(rest) {
                    None
                } else if method == "GET"@ {
                    Some(Ok(ActionV::Get(rest)))
                } else if method == "DELETE"@ {
                    Some(Ok(ActionV::Delete(rest)))
                } else {
                    Some(Err(Some("GET, DELETE"@)))
                },
            },
        }
    }
}

/// What a resolved action holds.
pub open spec fn resolved_view(r: Option<Result<Action, Option<&'static str>>>) -> Option<
    Result<ActionV, Option<Seq<char>>>,
> {
    match r {
        None => None,
        Some(Ok(a)) => Some(Ok(a@)),
        Some(Err(allow)) => Some(Err(opt_text(allow))),
    }
}

/// [`resolved`].
pub fn resolve<'a>(method: &str, path: &'a str) -> (r: Option<
    Result<Action<'a>, Option<&'static str>>,
>)
    ensures
        resolved_view(r) == resolved(method@, path@),
{
    if same(path, "/api/captures") {
        return Some(
            if same(method, "GET") {
                Ok(Action::List)
            } else {
                Err(Some("GET"))
            },
        );
    }
    let rest = match strip_prefix(path, "/api/captures/") {
        Some(rest) => rest,
        None => return None,
    };
    if let Some(id) = strip_suffix(rest, "/frames") {
        if !one_segment(id) {
            return None;
        }
        return Some(
            if same(method, "GET") {
                Ok(Action::Frames(id))
            } else {
                Err(Some("GET"))
            },
        );
    }
    if !one_segment(rest) {
        return None;
    }
    Some(
        if same(method, "GET") {
            Ok(Action::Get(rest))
        } else if same(method, "DELETE") {
            Ok(Action::Delete(rest))
        } else {
            Err(Some("GET, DELETE"))
        },
    )
}

// ---------------------------------------------------------------------------------------------
// The store
// ---------------------------------------------------------------------------------------------

/// The store must be there.
pub fn source(present: bool) -> (r: Result<(), Fail>)
    ensures
        outcome(r) == open_of(present, "no decoded-stream capture store on this server"@),
{
    open_store(present, "no decoded-stream capture store on this server")
}

/// What a failure of the store is answered with: whether it does not support what was asked.
pub open spec fn io_fail_of(unsupported: bool) -> FailV {
    if unsupported {
        fail_v(503, "unavailable"@, "this capture store does not support that"@)
    } else {
        fail_v(500, "unreadable"@, "the capture store failed"@)
    }
}

/// [`io_fail_of`].
pub fn io_fail(unsupported: bool) -> (r: Fail)
    ensures
        r@ == io_fail_of(unsupported),
{
    if unsupported {
        Fail::of(503, "unavailable", "this capture store does not support that")
    } else {
        Fail::of(500, "unreadable", "the capture store failed")
    }
}

/// An id that can be one.
pub open spec fn id_of(id: Seq<char>) -> Result<(), FailV> {
    if capture_id(id) {
        Ok(())
    } else {
        Err(invalid_v("capture ids are [A-Za-z0-9_.:-]{1,128}"@))
    }
}

/// [`id_of`].
pub fn checked_id(id: &str) -> (r: Result<(), Fail>)
    ensures
        outcome(r) == id_of(id@),
{
    if is_capture_id(id) {
        Ok(())
    } else {
        Err(Fail::invalid("capture ids are [A-Za-z0-9_.:-]{1,128}"))
    }
}

/// What a recording that is not there is answered with.
pub fn not_found() -> (r: Fail)
    ensures
        r@ == fail_v(404, "not_found"@, "no such capture"@),
{
    Fail::of(404, "not_found", "no such capture")
}

/// A read of the store: whether a failure means that it is not supported.
pub open spec fn found<T>(r: Result<Option<T>, bool>) -> Result<T, FailV> {
    match r {
        Err(unsupported) => Err(io_fail_of(unsupported)),
        Ok(None) => Err(fail_v(404, "not_found"@, "no such capture"@)),
        Ok(Some(x)) => Ok(x),
    }
}

fn look<T>(r: Result<Option<T>, bool>) -> (out: Result<T, Fail>)
    ensures
        outcome(out) == found(r),
{
    match r {
        Err(unsupported) => Err(io_fail(unsupported)),
        Ok(None) => Err(not_found()),
        Ok(Some(x)) => Ok(x),
    }
}

/// What is known of a recording.
#[derive(Debug, PartialEq, Eq)]
pub struct CaptureInfo {
    /// What the API serves of it.
    pub json: Json,
    /// Its frames.
    pub frames: u64,
    /// Its bytes.
    pub bytes: u64,
}

/// The recordings, or what the store refused.
pub fn list(present: bool, rows: Result<Vec<Json>, bool>) -> (r: Result<Json, Fail>)
    ensures
        read_result(r) == (match open_of(
            present,
            "no decoded-stream capture store on this server"@,
        ) {
            Err(f) => Err(f),
            Ok(_) => match rows {
                Err(unsupported) => Err(io_fail_of(unsupported)),
                Ok(v) => Ok(
                    JsonV::Object(
                        no_fields().push(("captures"@, JsonV::Array(items_view(v@)))),
                    ),
                ),
            },
        }),
{
    match source(present) {
        Ok(_) => {},
        Err(f) => return Err(f),
    }
    match rows {
        Err(unsupported) => Err(io_fail(unsupported)),
        Ok(v) => {
            let mut f = Fields::new();
            f.put("captures", Json::Array(v));
            Ok(f.object())
        },
    }
}

/// One recording, or what the store refused.
pub open spec fn info_of(
    id: Seq<char>,
    present: bool,
    info: Result<Option<CaptureInfo>, bool>,
) -> Result<CaptureInfo, FailV> {
    match id_of(id) {
        Err(f) => Err(f),
        Ok(_) => match open_of(present, "no decoded-stream capture store on this server"@) {
            Err(f) => Err(f),
            Ok(_) => found(info),
        },
    }
}

fn read_info(id: &str, present: bool, info: Result<Option<CaptureInfo>, bool>) -> (r: Result<
    CaptureInfo,
    Fail,
>)
    ensures
        outcome(r) == info_of(id@, present, info),
{
    match checked_id(id) {
        Ok(_) => {},
        Err(f) => return Err(f),
    }
    match source(present) {
        Ok(_) => {},
        Err(f) => return Err(f),
    }
    look(info)
}

/// One recording as the API serves it.
pub fn get(id: &str, present: bool, info: Result<Option<CaptureInfo>, bool>) -> (r: Result<
    Json,
    Fail,
>)
    ensures
        read_result(r) == (match info_of(id@, present, info) {
            Err(f) => Err(f),
            Ok(i) => Ok(i.json.view()),
        }),
{
    match read_info(id, present, info) {
        Err(f) => Err(f),
        Ok(i) => Ok(i.json),
    }
}

/// What became of a deletion.
#[derive(Clone, Copy, Debug, PartialEq, Eq, Structural)]
pub enum CaptureDelete {
    /// It is deleted.
    Deleted,
    /// It is still recording.
    Recording,
    /// It is not there.
    NotFound,
}

/// What may be deleted: the body is empty and the recording is there.
pub open spec fn deletion_of(
    body: Seq<(Seq<char>, JsonV)>,
    id: Seq<char>,
    present: bool,
    info: Result<Option<CaptureInfo>, bool>,
) -> Result<CaptureInfo, FailV> {
    match only_of(body, Seq::empty()) {
        Err(f) => Err(f),
        Ok(_) => info_of(id, present, info),
    }
}

/// [`deletion_of`].
pub fn plan_delete(
    body: &Vec<(String, Json)>,
    id: &str,
    present: bool,
    info: Result<Option<CaptureInfo>, bool>,
) -> (r: Result<CaptureInfo, Fail>)
    ensures
        outcome(r) == deletion_of(fields_view(body@), id@, present, info),
{
    match refuse_fields(body) {
        Ok(_) => read_info(id, present, info),
        Err(f) => Err(f),
    }
}

/// What a deletion is answered with: one that is still recording stays.
pub fn deleted(id: &str, info: CaptureInfo, done: Result<CaptureDelete, bool>) -> (r: Result<
    Applied,
    Fail,
>)
    ensures
        applied_result(r) == (match done {
            Err(unsupported) => Err(io_fail_of(unsupported)),
            Ok(CaptureDelete::Recording) => Err(
                fail_v(409, "conflict"@, "the capture is still recording"@),
            ),
            Ok(CaptureDelete::NotFound) => Err(fail_v(404, "not_found"@, "no such capture"@)),
            Ok(CaptureDelete::Deleted) => Ok(
                AppliedV {
                    status: 200,
                    body: JsonV::Object(no_fields().push(("deleted"@, info.json.view()))),
                    old: JsonV::Object(
                        no_fields().push(("id"@, text_v(id@))).push(
                            ("frames"@, uint_v(info.frames as int)),
                        ).push(("bytes"@, uint_v(info.bytes as int))),
                    ),
                    new: JsonV::Null,
                },
            ),
        }),
{
    match done {
        Err(unsupported) => Err(io_fail(unsupported)),
        Ok(CaptureDelete::Recording) => Err(
            Fail::of(409, "conflict", "the capture is still recording"),
        ),
        Ok(CaptureDelete::NotFound) => Err(not_found()),
        Ok(CaptureDelete::Deleted) => {
            let mut before = Fields::new();
            before.put("id", Json::text(id));
            before.put("frames", Json::uint(info.frames));
            before.put("bytes", Json::uint(info.bytes));
            let mut body = Fields::new();
            body.put("deleted", info.json);
            Ok(
                Applied {
                    status: 200,
                    body: body.object(),
                    old: before.object(),
                    new: Json::Null,
                },
            )
        },
    }
}

// ---------------------------------------------------------------------------------------------
// Scrubbing
// ---------------------------------------------------------------------------------------------

/// The first value of a parameter.
pub fn query<'a>(q: &'a Vec<(String, String)>, key: &str) -> (r: Option<&'a str>)
    ensures
        opt_text(r) == value_of(pairs(q@), key@),
{
    find_value(q.as_slice(), key)
}

/// An optional integer among the parameters.
pub open spec fn uint_of(q: Seq<(Seq<char>, Seq<char>)>, key: Seq<char>) -> Result<
    Option<u64>,
    FailV,
> {
    match value_of(q, key) {
        None => Ok(None),
        Some(v) => match unsigned(v, u64::MAX as nat) {
            Some(n) => Ok(Some(n as u64)),
            None => Err(invalid_v(key + " is a non-negative integer"@)),
        },
    }
}

/// [`uint_of`].
pub fn uint(q: &Vec<(String, String)>, key: &str) -> (r: Result<Option<u64>, Fail>)
    ensures
        outcome(r) == uint_of(pairs(q@), key@),
{
    match query(q, key) {
        None => Ok(None),
        Some(v) => match parse_unsigned(v, u64::MAX) {
            Some(n) => Ok(Some(n)),
            None => {
                let m = String::from_str(key).concat(" is a non-negative integer");
                Err(Fail::new(400, "invalid", m))
            },
        },
    }
}

/// An optional time among the parameters: `ns` is what it writes, in nanoseconds.
pub open spec fn time_of(q: Seq<(Seq<char>, Seq<char>)>, key: Seq<char>, ns: i64) -> Result<
    Option<i64>,
    FailV,
> {
    match value_of(q, key) {
        None => Ok(None),
        Some(v) => match text_real(v) {
            Some(s) => if s.magnitude() < MAX_TIME {
                Ok(Some(ns))
            } else {
                Err(invalid_v(key + " is a time in Unix seconds"@))
            },
            None => Err(invalid_v(key + " is a time in Unix seconds"@)),
        },
    }
}

/// [`time_of`].
pub fn time_ns(q: &Vec<(String, String)>, key: &str, ns: i64) -> (r: Result<Option<i64>, Fail>)
    ensures
        outcome(r) == time_of(pairs(q@), key@, ns),
{
    let s = match query(q, key) {
        None => return Ok(None),
        Some(v) => parse_real(v),
    };
    if let Some(s) = s {
        if s.unsigned_bits() < MAX_TIME {
            return Ok(Some(ns));
        }
    }
    let m = String::from_str(key).concat(" is a time in Unix seconds");
    Err(Fail::new(400, "invalid", m))
}

/// The page of frames that a request asks for.
#[derive(Clone, Copy, Debug, PartialEq, Eq, Structural)]
pub struct FramesQuery {
    /// From this frame.
    pub from_frame: Option<u64>,
    /// From this time, ns.
    pub from_t: Option<i64>,
    /// Up to this time, ns.
    pub to_t: Option<i64>,
    /// How many.
    pub limit: u64,
}

/// The parameters of a page.
pub open spec fn frames_params() -> Seq<Seq<char>> {
    seq!["from_frame"@, "from_t"@, "to_t"@, "limit"@, "token"@]
}

/// The size of a page.
pub open spec fn limit_of(q: Seq<(Seq<char>, Seq<char>)>) -> Result<u64, FailV> {
    match uint_of(q, "limit"@) {
        Err(f) => Err(f),
        Ok(l) => {
            let limit = match l {
                Some(n) => n,
                None => DEFAULT_FRAMES_LIMIT,
            };
            if 1 <= limit <= MAX_FRAMES_LIMIT {
                Ok(limit)
            } else {
                Err(invalid_v("limit is an integer in 1..=500"@))
            }
        },
    }
}

/// The page that a request asks for. `from_ns` and `to_ns` are its times in nanoseconds.
pub open spec fn frames_query_of(
    q: Seq<(Seq<char>, Seq<char>)>,
    id: Seq<char>,
    from_ns: i64,
    to_ns: i64,
) -> Result<FramesQuery, FailV> {
    match stray(q, frames_params()) {
        Some(k) => Err(
            invalid_v(
                "unknown parameter "@ + debug_text(k)
                    + " (allowed: from_frame, from_t, to_t, limit)"@,
            ),
        ),
        None => match id_of(id) {
            Err(f) => Err(f),
            Ok(_) => match uint_of(q, "from_frame"@) {
                Err(f) => Err(f),
                Ok(from_frame) => match time_of(q, "from_t"@, from_ns) {
                    Err(f) => Err(f),
                    Ok(from_t) => match time_of(q, "to_t"@, to_ns) {
                        Err(f) => Err(f),
                        Ok(to_t) => if from_frame is Some && from_t is Some {
                            Err(invalid_v("give from_frame or from_t, not both"@))
                        } else {
                            match limit_of(q) {
                                Err(f) => Err(f),
                                Ok(limit) => Ok(FramesQuery { from_frame, from_t, to_t, limit }),
                            }
                        },
                    },
                },
            },
        },
    }
}

/// [`frames_query_of`].
pub fn plan_frames(q: &Vec<(String, String)>, id: &str, from_ns: i64, to_ns: i64) -> (r: Result<
    FramesQuery,
    Fail,
>)
    ensures
        outcome(r) == frames_query_of(pairs(q@), id@, from_ns, to_ns),
{
    let allowed = ["from_frame", "from_t", "to_t", "limit", "token"];
    assert(texts(allowed@) =~= frames_params());
    if let Some(k) = find_stray(q, &allowed) {
        let quoted = debug(k);
        let m = String::from_str("unknown parameter ").concat(quoted.as_str()).concat(
            " (allowed: from_frame, from_t, to_t, limit)",
        );
        return Err(Fail::new(400, "invalid", m));
    }
    match checked_id(id) {
        Ok(_) => {},
        Err(f) => return Err(f),
    }
    let from_frame = match uint(q, "from_frame") {
        Ok(x) => x,
        Err(f) => return Err(f),
    };
    let from_t = match time_ns(q, "from_t", from_ns) {
        Ok(x) => x,
        Err(f) => return Err(f),
    };
    let to_t = match time_ns(q, "to_t", to_ns) {
        Ok(x) => x,
        Err(f) => return Err(f),
    };
    if from_frame.is_some() && from_t.is_some() {
        return Err(Fail::invalid("give from_frame or from_t, not both"));
    }
    let limit: u64 = match uint(q, "limit") {
        Ok(Some(n)) => n,
        Ok(None) => DEFAULT_FRAMES_LIMIT,
        Err(f) => return Err(f),
    };
    if !(limit >= 1 && limit <= MAX_FRAMES_LIMIT) {
        return Err(Fail::invalid("limit is an integer in 1..=500"));
    }
    Ok(FramesQuery { from_frame, from_t, to_t, limit })
}

/// Where a page starts: at the frame of its time, at the frame it names, or at the beginning.
/// `at_time` is the frame that the store has at the time.
pub open spec fn start_of(p: FramesQuery, at_time: Result<Option<u64>, bool>) -> Result<u64, FailV> {
    match p.from_t {
        Some(_) => found(at_time),
        None => Ok(
            match p.from_frame {
                Some(n) => n,
                None => 0,
            },
        ),
    }
}

impl FramesQuery {
    /// [`start_of`].
    pub fn start(&self, at_time: Result<Option<u64>, bool>) -> (r: Result<u64, Fail>)
        ensures
            outcome(r) == start_of(*self, at_time),
    {
        match self.from_t {
            Some(_) => look(at_time),
            None => Ok(
                match self.from_frame {
                    Some(n) => n,
                    None => 0,
                },
            ),
        }
    }
}

/// A reader of one page: the store's index may start before it.
#[derive(Clone, Copy, Debug, PartialEq, Eq, Structural)]
pub struct Pager {
    /// The number of the next frame.
    pub next: u64,
    /// Where the page starts.
    pub from: u64,
    /// Frames later than this are past its end, ns.
    pub to_t: Option<i64>,
    /// Its size.
    pub limit: u64,
    /// Frames on it so far.
    pub taken: u64,
    /// Its end was reached.
    pub past: bool,
    /// The stream's class lets content out.
    pub stream_ok: bool,
}

/// The content of a frame is served: the stream's class and its own let it out, and it was not
/// withheld.
pub open spec fn shown(stream_ok: bool, class_ok: bool, gated: bool) -> bool {
    stream_ok && class_ok && !gated
}

/// What is done with a frame.
#[derive(Clone, Copy, Debug, PartialEq, Eq, Structural)]
pub enum Paged {
    /// It lies before the page.
    Skip,
    /// It is on it, with its content where that is [`shown`].
    Take {
        /// Its content is served.
        shown: bool,
    },
    /// It is past its end.
    Stop,
}

impl Pager {
    /// A page that nothing stands on yet; `first` is the number of the first frame to be read.
    pub fn new(first: u64, from: u64, to_t: Option<i64>, limit: u64, stream_ok: bool) -> (r: Pager)
        ensures
            r == (Pager { next: first, from, to_t, limit, taken: 0, past: false, stream_ok }),
    {
        Pager { next: first, from, to_t, limit, taken: 0, past: false, stream_ok }
    }

    /// Another frame is to be read. Frames are numbered below the largest 64-bit number.
    pub open spec fn wants_more(self) -> bool {
        !self.past && self.taken < self.limit && self.next < u64::MAX
    }

    /// [`Pager::wants_more`].
    pub fn wants(&self) -> (r: bool)
        ensures
            r == self.wants_more(),
    {
        !self.past && self.taken < self.limit && self.next < u64::MAX
    }

    /// What becomes of a frame at time `t`, which its class lets out or not, and which was withheld
    /// when it was stored or not.
    pub open spec fn after(self, t: i64, class_ok: bool, gated: bool) -> (Pager, Paged) {
        let p = Pager { next: (self.next + 1) as u64, ..self };
        if self.next < self.from {
            (p, Paged::Skip)
        } else if self.to_t matches Some(end) && t > end {
            (Pager { past: true, ..p }, Paged::Stop)
        } else {
            (
                Pager { taken: (self.taken + 1) as u64, ..p },
                Paged::Take { shown: shown(self.stream_ok, class_ok, gated) },
            )
        }
    }

    /// [`Pager::after`].
    pub fn see(&mut self, t: i64, class_ok: bool, gated: bool) -> (r: Paged)
        requires
            old(self).wants_more(),
        ensures
            (*final(self), r) == old(self).after(t, class_ok, gated),
    {
        let index = self.next;
        self.next = index + 1;
        if index < self.from {
            return Paged::Skip;
        }
        if let Some(end) = self.to_t {
            if t > end {
                self.past = true;
                return Paged::Stop;
            }
        }
        self.taken = self.taken + 1;
        Paged::Take { shown: self.stream_ok && class_ok && !gated }
    }

    /// Where the next page starts, in a recording of `total` frames.
    pub open spec fn next_page(self, total: u64) -> Option<u64> {
        let next = if self.from + self.taken <= u64::MAX {
            (self.from + self.taken) as u64
        } else {
            u64::MAX
        };
        if !self.past && self.taken == self.limit && next < total {
            Some(next)
        } else {
            None
        }
    }

    /// [`Pager::next_page`].
    pub fn next_from(&self, total: u64) -> (r: Option<u64>)
        ensures
            r == self.next_page(total),
    {
        let next = if self.from <= u64::MAX - self.taken {
            self.from + self.taken
        } else {
            u64::MAX
        };
        if !self.past && self.taken == self.limit && next < total {
            Some(next)
        } else {
            None
        }
    }
}

/// The pager after frames at these times, each let out by its class or not, and withheld when it
/// was stored or not.
pub open spec fn paged(p: Pager, frames: Seq<(i64, bool, bool)>) -> Pager
    decreases frames.len(),
{
    if frames.len() == 0 {
        p
    } else {
        let b = paged(p, frames.drop_last());
        if b.wants_more() {
            b.after(frames.last().0, frames.last().1, frames.last().2).0
        } else {
            b
        }
    }
}

/// A page never holds more than its size, nor a frame past its time, and the frames on it are the
/// ones from its start on, without a gap: after them comes the next page.
pub proof fn pages_have_no_gaps(start: Pager, frames: Seq<(i64, bool, bool)>)
    requires
        start.next <= start.from,
        start.taken == 0,
        !start.past,
        start.from + frames.len() < u64::MAX,
    ensures
        ({
            let p = paged(start, frames);
            &&& p.taken <= p.limit
            &&& p == (Pager { next: p.next, taken: p.taken, past: p.past, ..start })
            &&& p.next <= start.next + frames.len()
            &&& !p.past ==> (if p.next <= p.from {
                p.taken == 0
            } else {
                p.taken == p.next - p.from
            })
        }),
    decreases frames.len(),
{
    if frames.len() > 0 {
        pages_have_no_gaps(start, frames.drop_last());
    }
}

/// Frames are served fail closed: a frame on the page is served as it was stored exactly where the
/// stream's class and its own let it out and it was not withheld. Any other is served without
/// content and says so.
pub proof fn frames_fail_closed(p: Pager, t: i64, class_ok: bool, gated: bool, record: JsonV)
    ensures
        p.after(t, class_ok, gated).0.stream_ok == p.stream_ok,
        p.after(t, class_ok, gated).1 matches Paged::Take { shown } ==> {
            let served = served_v(record, shown);
            if p.stream_ok && class_ok && !gated {
                served == record
            } else {
                &&& at(served, "content"@) is None
                &&& record is Object ==> at(served, "gated"@) == Some(JsonV::Bool(true))
            }
        },
{
    withheld_records_carry_no_content(record, "t"@);
}

/// A page of frames.
pub fn page(
    id: &str,
    info: &CaptureInfo,
    stream: Json,
    total: Option<u64>,
    pager: &Pager,
    frames: Vec<Json>,
) -> (r: Json)
    ensures
        r.view() == JsonV::Object(
            no_fields().push(("capture_id"@, text_v(id@))).push(
                ("capture"@, info.json.view()),
            ).push(("stream"@, stream.view())).push(
                ("total_frames"@, uint_v(total_of(total, *info) as int)),
            ).push(("from_frame"@, uint_v(pager.from as int))).push(
                ("limit"@, uint_v(pager.limit as int)),
            ).push(
                ("next_from_frame"@, opt_uint_v(pager.next_page(total_of(total, *info)))),
            ).push(("frames"@, JsonV::Array(items_view(frames@)))),
        ),
{
    let all = match total {
        Some(n) => n,
        None => info.frames,
    };
    let mut f = Fields::new();
    f.put("capture_id", Json::text(id));
    f.put("capture", info.json.copy());
    f.put("stream", stream);
    f.put("total_frames", Json::uint(all));
    f.put("from_frame", Json::uint(pager.from));
    f.put("limit", Json::uint(pager.limit));
    f.put("next_from_frame", Json::opt_uint(pager.next_from(all)));
    f.put("frames", Json::Array(frames));
    f.object()
}

/// How many frames a recording has: what the cursor says, else what is known of it.
pub open spec fn total_of(total: Option<u64>, info: CaptureInfo) -> u64 {
    match total {
        Some(n) => n,
        None => info.frames,
    }
}

/// A page of frames is asked for as the query writes it: from a frame or from a time, not both, up to
/// a time, and as many as the limit, of between one and five hundred; a hundred where none is given.
pub proof fn frames_are_asked_for_as_written(
    q: Seq<(Seq<char>, Seq<char>)>,
    id: Seq<char>,
    from_ns: i64,
    to_ns: i64,
)
    ensures
        frames_query_of(q, id, from_ns, to_ns) matches Ok(p) ==> {
            &&& capture_id(id)
            &&& p.from_frame is None <==> value_of(q, "from_frame"@) is None
            &&& p.from_frame matches Some(n) ==> unsigned(
                value_of(q, "from_frame"@)->0,
                u64::MAX as nat,
            ) == Some(n as nat)
            &&& p.from_t is None <==> value_of(q, "from_t"@) is None
            &&& p.from_t is Some ==> p.from_t == Some(from_ns) && text_real(
                value_of(q, "from_t"@)->0,
            ) is Some
            &&& p.to_t is None <==> value_of(q, "to_t"@) is None
            &&& p.to_t is Some ==> p.to_t == Some(to_ns) && text_real(value_of(q, "to_t"@)->0) is Some
            &&& !(p.from_frame is Some && p.from_t is Some)
            &&& 1 <= p.limit <= 500
            &&& value_of(q, "limit"@) is None ==> p.limit == 100
            &&& value_of(q, "limit"@) matches Some(l) ==> unsigned(l, u64::MAX as nat) == Some(
                p.limit as nat,
            )
        },
        frames_query_of(q, id, from_ns, to_ns) matches Err(f) ==> f.status == 400,
{
}

/// What becomes of a frame: one before the first that is asked for is passed over; one past the time
/// asked for ends the page; every other is taken. The next frame is the next.
pub proof fn frames_are_taken_from_the_first_to_the_last(
    p: Pager,
    t: i64,
    class_ok: bool,
    gated: bool,
)
    requires
        p.wants_more(),
    ensures
        ({
            let (next, what) = p.after(t, class_ok, gated);
            &&& next.next == p.next + 1
            &&& (next.from, next.to_t, next.limit) == (p.from, p.to_t, p.limit)
            &&& p.next < p.from ==> what is Skip && next.taken == p.taken && next.past == p.past
            &&& p.next >= p.from && (p.to_t matches Some(end) && t > end) ==> what is Stop
                && next.past && next.taken == p.taken
            &&& p.next >= p.from && !(p.to_t matches Some(end) && t > end) ==> what is Take
                && next.taken == p.taken + 1 && next.past == p.past
        }),
        p.taken < p.limit && !p.past,
{
}

/// Where the next page starts: behind this one, where this one is full, did not end by time, and
/// there are frames behind it; else there is none.
pub proof fn the_next_page_follows(p: Pager, total: u64)
    requires
        p.from + p.taken <= u64::MAX,
    ensures
        p.next_page(total) is Some <==> !p.past && p.taken == p.limit && p.from + p.taken < total,
        p.next_page(total) matches Some(n) ==> n == p.from + p.taken,
{
}

/// Where a page starts, and what is answered for a recording that is not to be had.
pub proof fn recordings_are_looked_up(
    p: FramesQuery,
    at_time: Result<Option<u64>, bool>,
    id: Seq<char>,
    present: bool,
    info: Result<Option<CaptureInfo>, bool>,
)
    ensures
        p.from_t is None && p.from_frame is None ==> start_of(p, at_time) == Ok::<u64, FailV>(0),
        p.from_t is None ==> (p.from_frame matches Some(n) ==> start_of(p, at_time) == Ok::<
            u64,
            FailV,
        >(n)),
        p.from_t is Some ==> (at_time matches Ok(Some(n)) ==> start_of(p, at_time) == Ok::<
            u64,
            FailV,
        >(n)),
        p.from_t is Some && at_time == Ok::<Option<u64>, bool>(None) ==> (start_of(
            p,
            at_time,
        ) matches Err(f) && f.status == 404),
        !capture_id(id) ==> (info_of(id, present, info) matches Err(f) && f.status == 400),
        capture_id(id) && !present ==> (info_of(id, present, info) matches Err(f) && f.status
            == 503),
        capture_id(id) && present ==> (match info {
            Ok(Some(x)) => info_of(id, present, info) == Ok::<CaptureInfo, FailV>(x),
            Ok(None) => info_of(id, present, info) matches Err(f) && f.status == 404,
            Err(unsupported) => info_of(id, present, info) matches Err(f) && f.status == (
            if unsupported {
                503u16
            } else {
                500u16
            }),
        }),
{
}

/// A recording is deleted where nothing is sent with the request and it is there; a store that cannot
/// do what is asked of it says so, and one that fails says that.
pub proof fn only_a_recording_that_is_there_is_deleted(
    name: Seq<char>,
    v: JsonV,
    id: Seq<char>,
    present: bool,
    info: Result<Option<CaptureInfo>, bool>,
)
    ensures
        deletion_of(seq![(name, v)], id, present, info) matches Err(f) && f.status == 400,
        deletion_of(Seq::empty(), id, present, info) == info_of(id, present, info),
        io_fail_of(true).status == 503 && io_fail_of(false).status == 500,
{
    only_allowed_members_pass(seq![(name, v)], Seq::empty());
    let b = seq![(name, v)];
    assert(!Seq::<Seq<char>>::empty().contains(b[0].0));
}

} // verus!
