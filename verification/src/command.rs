//! Commands: what a control body asks for, and what its outcome answers.

use vstd::prelude::*;

use crate::body::{
    fail_v, integer, integer_of, invalid_v, no_fields as no_members, nullable_number,
    nullable_number_of, number, number_of, numbers_are_read_as_written, only,
    only_allowed_members_pass, only_of, outcome, required, required_of, text, text_of, writes, Fail,
    FailV,
};
use crate::control::{Action, DisplayUpdate, Id, NamedGain, Span};
use crate::double::{parse_real, text_real, Real};
use crate::json::{
    as_real, as_uint, at, fields_view, fields_view_each, find, member, member_index_is_first,
    member_is_the_first, no_fields, opt_real_v, opt_text_v, real_v, seconds_v, text_v, Fields, Json,
    JsonV, ToJson,
};
use crate::request::{find_value, pairs, value_of};
use crate::text::{
    byte_len, debug, debug_text, decimal, number as decimal_number, opt_string, opt_text, same,
    texts, trim, trimmed,
};
use vstd::utf8::encode_utf8;

verus! {

// ---------------------------------------------------------------------------------------------
// What a command holds
// ---------------------------------------------------------------------------------------------

/// How far a sweep steps.
#[derive(Clone, Copy, Debug, PartialEq, Eq, Structural)]
pub enum ScanStep {
    /// Steps that overlap.
    Fine,
    /// Steps of a whole window.
    Coarse,
}

/// A sweep asked for: everything that is left out is the runner's to choose.
#[derive(Clone, Copy, Debug, PartialEq, Eq, Structural)]
pub struct ScanRequest {
    /// The range to sweep.
    pub freq: Option<Span>,
    /// How long to stay at each step, s.
    pub dwell_s: Option<Real>,
    /// How far to step.
    pub step: Option<ScanStep>,
}

/// What a bookmark marks.
#[derive(Clone, Copy, Debug, PartialEq, Eq, Structural)]
pub enum BookmarkKind {
    /// A marker.
    Marker,
    /// A bookmark.
    Bookmark,
}

impl BookmarkKind {
    /// The wire name.
    pub open spec fn wire(self) -> Seq<char> {
        match self {
            BookmarkKind::Marker => "marker"@,
            BookmarkKind::Bookmark => "bookmark"@,
        }
    }

    /// The wire name.
    pub fn as_str(self) -> (r: &'static str)
        ensures
            r@ == self.wire(),
    {
        match self {
            BookmarkKind::Marker => "marker",
            BookmarkKind::Bookmark => "bookmark",
        }
    }
}

/// A bookmark to create; without a kind the store's default stands.
#[derive(Debug)]
pub struct NewBookmark {
    /// What it marks.
    pub kind: Option<BookmarkKind>,
    /// Its name.
    pub name: String,
    /// Its centre, Hz.
    pub f_center_hz: Real,
    /// Its width, Hz.
    pub bandwidth_hz: Option<Real>,
    /// A note.
    pub note: Option<String>,
}

/// What a [`NewBookmark`] holds.
#[verifier::ext_equal]
pub struct NewBookmarkV {
    /// What it marks.
    pub kind: Option<BookmarkKind>,
    /// Its name.
    pub name: Seq<char>,
    /// Its centre, Hz.
    pub f_center_hz: Real,
    /// Its width, Hz.
    pub bandwidth_hz: Option<Real>,
    /// A note.
    pub note: Option<Seq<char>>,
}

/// A stored bookmark.
#[derive(Debug)]
pub struct Bookmark {
    /// Its identity, as text.
    pub id: String,
    /// What it marks.
    pub kind: BookmarkKind,
    /// Its name.
    pub name: String,
    /// Its centre, Hz.
    pub f_center_hz: Real,
    /// Its width, Hz.
    pub bandwidth_hz: Option<Real>,
    /// A note.
    pub note: Option<String>,
    /// When it was created, ns.
    pub created_at: i64,
    /// When it last changed, ns.
    pub updated_at: i64,
}

/// What a [`Bookmark`] holds.
#[verifier::ext_equal]
pub struct BookmarkV {
    /// Its identity, as text.
    pub id: Seq<char>,
    /// What it marks.
    pub kind: BookmarkKind,
    /// Its name.
    pub name: Seq<char>,
    /// Its centre, Hz.
    pub f_center_hz: Real,
    /// Its width, Hz.
    pub bandwidth_hz: Option<Real>,
    /// A note.
    pub note: Option<Seq<char>>,
    /// When it was created, ns.
    pub created_at: i64,
    /// When it last changed, ns.
    pub updated_at: i64,
}

impl Bookmark {
    /// What the bookmark holds.
    pub open spec fn view(&self) -> BookmarkV {
        BookmarkV {
            id: self.id@,
            kind: self.kind,
            name: self.name@,
            f_center_hz: self.f_center_hz,
            bandwidth_hz: self.bandwidth_hz,
            note: opt_string(self.note),
            created_at: self.created_at,
            updated_at: self.updated_at,
        }
    }
}

impl ToJson for Bookmark {
    open spec fn json_v(self) -> JsonV {
        JsonV::Object(
            no_fields().push(("id"@, text_v(self.id@))).push(
                ("kind"@, text_v(self.kind.wire())),
            ).push(("name"@, text_v(self.name@))).push(
                ("f_center_hz"@, real_v(self.f_center_hz)),
            ).push(("bandwidth_hz"@, opt_real_v(self.bandwidth_hz))).push(
                ("note"@, opt_text_v(opt_string(self.note))),
            ).push(("created_s"@, seconds_v(self.created_at))).push(
                ("updated_s"@, seconds_v(self.updated_at)),
            ),
        )
    }

    fn to_json(&self) -> (r: Json) {
        let mut f = Fields::new();
        f.put("id", Json::text(self.id.as_str()));
        f.put("kind", Json::text(self.kind.as_str()));
        f.put("name", Json::text(self.name.as_str()));
        f.put("f_center_hz", Json::double(self.f_center_hz));
        f.put("bandwidth_hz", Json::opt_double(self.bandwidth_hz));
        f.put("note", Json::opt_text(&self.note));
        f.put("created_s", Json::seconds(self.created_at));
        f.put("updated_s", Json::seconds(self.updated_at));
        f.object()
    }
}

/// What the server is asked to do, ready to be carried out.
pub enum Command {
    /// Set the centre frequency, Hz.
    Center(Real),
    /// Set the sample rate, Hz.
    Rate(Real),
    /// Set centre and rate as one action.
    Window(Real, Real),
    /// Set these gains.
    Gains(Vec<NamedGain>),
    /// Switch the bias tee.
    BiasTee(bool),
    /// Set the baseband filter, Hz.
    BasebandFilter(Real),
    /// Start this sweep.
    ScanStart(ScanRequest),
    /// Resume the sweep that yielded.
    ScanResume,
    /// Stop the sweep, where one can run.
    ScanStop,
    /// Change the display.
    Display(DisplayUpdate),
    /// Start a recording, with a label and a longest duration.
    RecordStart(Option<String>, Option<Real>),
    /// Stop the recording.
    RecordStop,
    /// Store this bookmark.
    CreateBookmark(NewBookmark),
    /// Read this bookmark, for [`updated_bookmark`].
    UpdateBookmark(Id),
    /// Delete this bookmark.
    DeleteBookmark(Id),
}

/// What a [`DisplayUpdate`] holds.
#[verifier::ext_equal]
pub struct DisplayUpdateV {
    /// New FFT size.
    pub fft_size: Option<usize>,
    /// New averaging.
    pub averaging: Option<u32>,
    /// New row rate.
    pub rows_per_s: Option<Real>,
    /// New analysis window.
    pub window: Option<Seq<char>>,
}

/// What a [`Command`] holds.
#[verifier::ext_equal]
pub enum CommandV {
    /// Set the centre frequency, Hz.
    Center(Real),
    /// Set the sample rate, Hz.
    Rate(Real),
    /// Set centre and rate as one action.
    Window(Real, Real),
    /// Set these gains.
    Gains(Seq<(Seq<char>, Real)>),
    /// Switch the bias tee.
    BiasTee(bool),
    /// Set the baseband filter, Hz.
    BasebandFilter(Real),
    /// Start this sweep.
    ScanStart(ScanRequest),
    /// Resume the sweep that yielded.
    ScanResume,
    /// Stop the sweep.
    ScanStop,
    /// Change the display.
    Display(DisplayUpdateV),
    /// Start a recording, with a label and a longest duration.
    RecordStart(Option<Seq<char>>, Option<Real>),
    /// Stop the recording.
    RecordStop,
    /// Store this bookmark.
    CreateBookmark(NewBookmarkV),
    /// Read this bookmark, to change it.
    UpdateBookmark(Id),
    /// Delete this bookmark.
    DeleteBookmark(Id),
}

/// Stages with gains.
pub open spec fn gains_view(v: Seq<NamedGain>) -> Seq<(Seq<char>, Real)> {
    v.map_values(|g: NamedGain| (g.stage@, g.db))
}

/// What an update of the display holds.
pub open spec fn display_update_view(u: DisplayUpdate) -> DisplayUpdateV {
    DisplayUpdateV {
        fft_size: u.fft_size,
        averaging: u.averaging,
        rows_per_s: u.rows_per_s,
        window: opt_string(u.window),
    }
}

/// What a new bookmark holds.
pub open spec fn new_bookmark_view(b: NewBookmark) -> NewBookmarkV {
    NewBookmarkV {
        kind: b.kind,
        name: b.name@,
        f_center_hz: b.f_center_hz,
        bandwidth_hz: b.bandwidth_hz,
        note: opt_string(b.note),
    }
}

impl Command {
    /// What the command holds.
    pub open spec fn view(&self) -> CommandV {
        match *self {
            Command::Center(hz) => CommandV::Center(hz),
            Command::Rate(hz) => CommandV::Rate(hz),
            Command::Window(c, r) => CommandV::Window(c, r),
            Command::Gains(g) => CommandV::Gains(gains_view(g@)),
            Command::BiasTee(b) => CommandV::BiasTee(b),
            Command::BasebandFilter(hz) => CommandV::BasebandFilter(hz),
            Command::ScanStart(r) => CommandV::ScanStart(r),
            Command::ScanResume => CommandV::ScanResume,
            Command::ScanStop => CommandV::ScanStop,
            Command::Display(u) => CommandV::Display(display_update_view(u)),
            Command::RecordStart(l, m) => CommandV::RecordStart(opt_string(l), m),
            Command::RecordStop => CommandV::RecordStop,
            Command::CreateBookmark(b) => CommandV::CreateBookmark(new_bookmark_view(b)),
            Command::UpdateBookmark(id) => CommandV::UpdateBookmark(id),
            Command::DeleteBookmark(id) => CommandV::DeleteBookmark(id),
        }
    }
}

/// What the server has.
#[derive(Clone, Copy, Debug, PartialEq, Eq, Structural)]
pub struct Available {
    /// A live front end.
    pub live: bool,
    /// A running pipeline.
    pub run: bool,
    /// A sweep runner.
    pub scan: bool,
    /// A bookmark store.
    pub bookmarks: bool,
}

/// A planned command, or why there is none.
pub open spec fn plan_view(r: Result<Command, Fail>) -> Result<CommandV, FailV> {
    match r {
        Ok(c) => Ok(c@),
        Err(f) => Err(f@),
    }
}

// ---------------------------------------------------------------------------------------------
// Refusals
// ---------------------------------------------------------------------------------------------

/// There is no live source.
pub open spec fn not_live_v() -> FailV {
    fail_v(
        409,
        "not_live"@,
        "device settings apply to a live source; this server is not running one (a replayed recording accepts display, recording and bookmark requests only)"@,
    )
}

/// Refuses where there is no live source.
pub fn live(present: bool) -> (r: Result<(), Fail>)
    ensures
        outcome(r) == (if present {
            Ok(())
        } else {
            Err(not_live_v())
        }),
{
    if present {
        Ok(())
    } else {
        Err(
            Fail::of(
                409,
                "not_live",
                "device settings apply to a live source; this server is not running one (a replayed recording accepts display, recording and bookmark requests only)",
            ),
        )
    }
}

/// There is no running pipeline.
pub open spec fn no_run_v() -> FailV {
    fail_v(503, "unavailable"@, "no running pipeline on this server"@)
}

/// Refuses where no pipeline runs.
pub fn run(present: bool) -> (r: Result<(), Fail>)
    ensures
        outcome(r) == (if present {
            Ok(())
        } else {
            Err(no_run_v())
        }),
{
    if present {
        Ok(())
    } else {
        Err(Fail::of(503, "unavailable", "no running pipeline on this server"))
    }
}

/// There is no bookmark store.
pub open spec fn no_bookmarks_v() -> FailV {
    fail_v(503, "unavailable"@, "no bookmark store on this server"@)
}

/// Refuses where there is no bookmark store.
pub fn bookmarks(present: bool) -> (r: Result<(), Fail>)
    ensures
        outcome(r) == (if present {
            Ok(())
        } else {
            Err(no_bookmarks_v())
        }),
{
    if present {
        Ok(())
    } else {
        Err(Fail::of(503, "unavailable", "no bookmark store on this server"))
    }
}

/// Why there is no sweep runner.
pub open spec fn scan_runner_of(server: Available) -> Result<(), FailV> {
    if !server.live {
        Err(
            fail_v(
                409,
                "not_live"@,
                "the source is a recording: there is no front end to sweep"@,
            ),
        )
    } else if !server.scan {
        Err(fail_v(503, "unavailable"@, "this server was composed without a scan runner"@))
    } else {
        Ok(())
    }
}

/// [`scan_runner_of`].
pub fn scan_runner(server: Available) -> (r: Result<(), Fail>)
    ensures
        outcome(r) == scan_runner_of(server),
{
    if !server.live {
        Err(
            Fail::of(
                409,
                "not_live",
                "the source is a recording: there is no front end to sweep",
            ),
        )
    } else if !server.scan {
        Err(Fail::of(503, "unavailable", "this server was composed without a scan runner"))
    } else {
        Ok(())
    }
}

/// What a store says went wrong.
#[derive(Debug)]
pub enum RepoError {
    /// The row is refused.
    Invalid(String),
    /// There is no such row.
    NotFound,
    /// Anything else, in words.
    Other(String),
}

/// What a bookmark store's error is answered with.
pub open spec fn repo_fail_of(e: RepoError) -> FailV {
    match e {
        RepoError::Invalid(m) => invalid_v(m@),
        RepoError::NotFound => fail_v(404, "not_found"@, "no such bookmark"@),
        RepoError::Other(m) => fail_v(500, "failed"@, "bookmark store: "@ + m@),
    }
}

/// [`repo_fail_of`].
pub fn repo_fail(e: RepoError) -> (r: Fail)
    ensures
        r@ == repo_fail_of(e),
{
    match e {
        RepoError::Invalid(m) => Fail::new(400, "invalid", m),
        RepoError::NotFound => Fail::of(404, "not_found", "no such bookmark"),
        RepoError::Other(m) => {
            let m = String::from_str("bookmark store: ").concat(m.as_str());
            Fail::new(500, "failed", m)
        },
    }
}

// ---------------------------------------------------------------------------------------------
// Sweeps
// ---------------------------------------------------------------------------------------------

/// What a sweep refuses.
#[derive(Debug)]
pub struct ScanError {
    /// The HTTP status.
    pub status: u16,
    /// A machine code.
    pub code: &'static str,
    /// What went wrong, in words.
    pub message: String,
}

/// What a sweep's refusal is answered with.
pub fn scan_fail(e: ScanError) -> (r: Fail)
    ensures
        r@ == fail_v(e.status, e.code@, e.message@),
{
    Fail::new(e.status, e.code, e.message)
}

/// A step by name.
pub open spec fn scan_step_of(v: Seq<char>) -> Result<ScanStep, FailV> {
    if v == "fine"@ {
        Ok(ScanStep::Fine)
    } else if v == "coarse"@ {
        Ok(ScanStep::Coarse)
    } else {
        Err(
            invalid_v(
                "step must be \"fine\" or \"coarse\", got "@ + debug_text(v)
                    + "; omit it for fine"@,
            ),
        )
    }
}

/// [`scan_step_of`].
pub fn scan_step(v: &str) -> (r: Result<ScanStep, Fail>)
    ensures
        outcome(r) == scan_step_of(v@),
{
    if same(v, "fine") {
        Ok(ScanStep::Fine)
    } else if same(v, "coarse") {
        Ok(ScanStep::Coarse)
    } else {
        let q = debug(v);
        let m = String::from_str("step must be \"fine\" or \"coarse\", got ").concat(
            q.as_str(),
        ).concat("; omit it for fine");
        Err(Fail::new(400, "invalid", m))
    }
}

/// An optional finite number in a query.
pub open spec fn query_number_of(query: Seq<(Seq<char>, Seq<char>)>, key: Seq<char>) -> Result<
    Option<Real>,
    FailV,
> {
    match value_of(query, key) {
        None => Ok(None),
        Some(v) => match text_real(v) {
            Some(x) => Ok(Some(x)),
            None => Err(invalid_v(key + " must be a finite number"@)),
        },
    }
}

/// [`query_number_of`].
pub fn query_number(query: &[(String, String)], key: &str) -> (r: Result<Option<Real>, Fail>)
    ensures
        outcome(r) == query_number_of(pairs(query@), key@),
{
    match find_value(query, key) {
        None => Ok(None),
        Some(v) => match parse_real(v) {
            Some(x) => Ok(Some(x)),
            None => {
                let m = String::from_str(key).concat(" must be a finite number");
                Err(Fail::new(400, "invalid", m))
            },
        },
    }
}

/// The sweep that a query proposes, where it proposes one: the ends of a range go together.
pub open spec fn scan_proposal_of(query: Seq<(Seq<char>, Seq<char>)>) -> Result<
    Option<ScanRequest>,
    FailV,
> {
    match (
        query_number_of(query, "f_lo_hz"@),
        query_number_of(query, "f_hi_hz"@),
        query_number_of(query, "dwell_s"@),
    ) {
        (Err(f), _, _) => Err(f),
        (Ok(_), Err(f), _) => Err(f),
        (Ok(_), Ok(_), Err(f)) => Err(f),
        (Ok(lo), Ok(hi), Ok(dwell_s)) => {
            let step = match value_of(query, "step"@) {
                None => Ok(None),
                Some(v) => match scan_step_of(v) {
                    Ok(s) => Ok(Some(s)),
                    Err(f) => Err(f),
                },
            };
            match (step, lo, hi) {
                (Err(f), _, _) => Err(f),
                (Ok(step), Some(lo), Some(hi)) => Ok(
                    Some(ScanRequest { freq: Some(Span { lo, hi }), dwell_s, step }),
                ),
                (Ok(step), None, None) => if dwell_s is Some || step is Some {
                    Ok(Some(ScanRequest { freq: None, dwell_s, step }))
                } else {
                    Ok(None)
                },
                _ => Err(
                    invalid_v(
                        "f_lo_hz and f_hi_hz go together; omit both to price a sweep of everything this front end can tune"@,
                    ),
                ),
            }
        },
    }
}

/// [`scan_proposal_of`].
pub fn scan_proposal(query: &[(String, String)]) -> (r: Result<Option<ScanRequest>, Fail>)
    ensures
        outcome(r) == scan_proposal_of(pairs(query@)),
{
    let lo = match query_number(query, "f_lo_hz") {
        Ok(x) => x,
        Err(f) => return Err(f),
    };
    let hi = match query_number(query, "f_hi_hz") {
        Ok(x) => x,
        Err(f) => return Err(f),
    };
    let dwell_s = match query_number(query, "dwell_s") {
        Ok(x) => x,
        Err(f) => return Err(f),
    };
    let step = match find_value(query, "step") {
        None => None,
        Some(v) => match scan_step(v) {
            Ok(s) => Some(s),
            Err(f) => return Err(f),
        },
    };
    let freq = match (lo, hi) {
        (Some(lo), Some(hi)) => Some(Span { lo, hi }),
        (None, None) => None,
        _ => return Err(
            Fail::invalid(
                "f_lo_hz and f_hi_hz go together; omit both to price a sweep of everything this front end can tune",
            ),
        ),
    };
    if freq.is_some() || dwell_s.is_some() || step.is_some() {
        Ok(Some(ScanRequest { freq, dwell_s, step }))
    } else {
        Ok(None)
    }
}

/// The range of a sweep's body: both ends or neither.
pub open spec fn scan_range_of(body: Seq<(Seq<char>, JsonV)>) -> Result<Option<Span>, FailV> {
    match (member(body, "f_lo_hz"@), member(body, "f_hi_hz"@)) {
        (None, None) => Ok(None),
        (Some(_), Some(_)) => match (required_of(body, "f_lo_hz"@), required_of(body, "f_hi_hz"@)) {
            (Err(f), _) => Err(f),
            (Ok(_), Err(f)) => Err(f),
            (Ok(lo), Ok(hi)) => Ok(Some(Span { lo, hi })),
        },
        _ => Err(
            invalid_v(
                "f_lo_hz and f_hi_hz go together; omit both to sweep everything this front end can tune"@,
            ),
        ),
    }
}

fn scan_range(body: &Vec<(String, Json)>) -> (r: Result<Option<Span>, Fail>)
    ensures
        outcome(r) == scan_range_of(fields_view(body@)),
{
    match (find(body, "f_lo_hz"), find(body, "f_hi_hz")) {
        (None, None) => Ok(None),
        (Some(_), Some(_)) => {
            let lo = match required(body, "f_lo_hz") {
                Ok(x) => x,
                Err(f) => return Err(f),
            };
            let hi = match required(body, "f_hi_hz") {
                Ok(x) => x,
                Err(f) => return Err(f),
            };
            Ok(Some(Span { lo, hi }))
        },
        _ => Err(
            Fail::invalid(
                "f_lo_hz and f_hi_hz go together; omit both to sweep everything this front end can tune",
            ),
        ),
    }
}

/// The step of a sweep's body.
pub open spec fn body_step_of(body: Seq<(Seq<char>, JsonV)>) -> Result<Option<ScanStep>, FailV> {
    match member(body, "step"@) {
        None => Ok(None),
        Some(JsonV::Text(v)) => match scan_step_of(v) {
            Ok(s) => Ok(Some(s)),
            Err(f) => Err(f),
        },
        Some(_) => Err(invalid_v("step must be \"fine\" or \"coarse\"; omit it for fine"@)),
    }
}

fn body_step(body: &Vec<(String, Json)>) -> (r: Result<Option<ScanStep>, Fail>)
    ensures
        outcome(r) == body_step_of(fields_view(body@)),
{
    match find(body, "step") {
        None => Ok(None),
        Some(Json::Text(v)) => match scan_step(v.as_str()) {
            Ok(s) => Ok(Some(s)),
            Err(f) => Err(f),
        },
        Some(_) => Err(Fail::invalid("step must be \"fine\" or \"coarse\"; omit it for fine")),
    }
}

/// The members of a sweep's body.
pub open spec fn scan_members() -> Seq<Seq<char>> {
    seq!["f_lo_hz"@, "f_hi_hz"@, "dwell_s"@, "step"@, "resume"@]
}

/// The sweep that a body asks for, or the one it resumes: resuming takes nothing else.
pub open spec fn scan_start_of(body: Seq<(Seq<char>, JsonV)>, server: Available) -> Result<
    CommandV,
    FailV,
> {
    match (only_of(body, scan_members()), scan_runner_of(server), member(body, "resume"@)) {
        (Err(f), _, _) => Err(f),
        (Ok(_), Err(f), _) => Err(f),
        (Ok(_), Ok(_), Some(JsonV::Bool(true))) => if body.len() > 1 {
            Err(
                invalid_v(
                    "resume takes no range and no dwell: it continues the sweep that yielded, at the step it stopped on. Start a new one to change either."@,
                ),
            )
        } else {
            Ok(CommandV::ScanResume)
        },
        (Ok(_), Ok(_), None) | (Ok(_), Ok(_), Some(JsonV::Bool(false))) => {
            let dwell = match member(body, "dwell_s"@) {
                None => Ok(None),
                Some(_) => match required_of(body, "dwell_s"@) {
                    Ok(x) => Ok(Some(x)),
                    Err(f) => Err(f),
                },
            };
            match (scan_range_of(body), dwell, body_step_of(body)) {
                (Err(f), _, _) => Err(f),
                (Ok(_), Err(f), _) => Err(f),
                (Ok(_), Ok(_), Err(f)) => Err(f),
                (Ok(freq), Ok(dwell_s), Ok(step)) => Ok(
                    CommandV::ScanStart(ScanRequest { freq, dwell_s, step }),
                ),
            }
        },
        _ => Err(invalid_v("resume must be true or false"@)),
    }
}

/// [`scan_start_of`].
pub fn plan_scan_start(body: &Vec<(String, Json)>, server: Available) -> (r: Result<Command, Fail>)
    ensures
        plan_view(r) == scan_start_of(fields_view(body@), server),
{
    let allowed = ["f_lo_hz", "f_hi_hz", "dwell_s", "step", "resume"];
    assert(texts(allowed@) =~= scan_members());
    match only(body, &allowed) {
        Ok(_) => {},
        Err(f) => return Err(f),
    }
    match scan_runner(server) {
        Ok(_) => {},
        Err(f) => return Err(f),
    }
    let resume = match find(body, "resume") {
        None => false,
        Some(Json::Bool(b)) => *b,
        Some(_) => return Err(Fail::invalid("resume must be true or false")),
    };
    if resume {
        proof {
            fields_view_each(body@);
        }
        if body.len() > 1 {
            return Err(
                Fail::invalid(
                    "resume takes no range and no dwell: it continues the sweep that yielded, at the step it stopped on. Start a new one to change either.",
                ),
            );
        }
        return Ok(Command::ScanResume);
    }
    let freq = match scan_range(body) {
        Ok(x) => x,
        Err(f) => return Err(f),
    };
    let dwell_s = match find(body, "dwell_s") {
        None => None,
        Some(_) => match required(body, "dwell_s") {
            Ok(x) => Some(x),
            Err(f) => return Err(f),
        },
    };
    let step = match body_step(body) {
        Ok(x) => x,
        Err(f) => return Err(f),
    };
    Ok(Command::ScanStart(ScanRequest { freq, dwell_s, step }))
}

// ---------------------------------------------------------------------------------------------
// Gains
// ---------------------------------------------------------------------------------------------

/// The longest stage name, bytes.
pub const MAX_STAGE_BYTES: usize = 32;

/// One member of a gains object.
pub open spec fn gain_of(stage: Seq<char>, v: JsonV) -> Result<(Seq<char>, Real), FailV> {
    let n = encode_utf8(stage).len();
    match as_real(v) {
        Some(db) if stage.len() > 0 && n <= MAX_STAGE_BYTES => Ok((stage, db)),
        _ => Err(
            invalid_v(
                "gain "@ + debug_text(stage)
                    + " must be a finite number of dB for a stage name of 1..=32 characters"@,
            ),
        ),
    }
}

/// The members of a gains object, in order; the first that is no gain refuses them all.
pub open spec fn gain_list_of(o: Seq<(Seq<char>, JsonV)>) -> Result<Seq<(Seq<char>, Real)>, FailV>
    decreases o.len(),
{
    if o.len() == 0 {
        Ok(Seq::empty())
    } else {
        match gain_list_of(o.drop_last()) {
            Err(f) => Err(f),
            Ok(before) => match gain_of(o.last().0, o.last().1) {
                Ok(g) => Ok(before.push(g)),
                Err(f) => Err(f),
            },
        }
    }
}

/// A refused gain refuses every longer list.
proof fn refused_gain(o: Seq<(Seq<char>, JsonV)>, i: int, f: FailV)
    requires
        0 <= i <= o.len(),
        gain_list_of(o.take(i)) == Err::<Seq<(Seq<char>, Real)>, FailV>(f),
    ensures
        gain_list_of(o) == Err::<Seq<(Seq<char>, Real)>, FailV>(f),
    decreases o.len() - i,
{
    if i < o.len() {
        assert(o.take(i + 1).drop_last() =~= o.take(i));
        refused_gain(o, i + 1, f);
    } else {
        assert(o.take(i) =~= o);
    }
}

/// The gains that a body asks for.
pub open spec fn gains_of(body: Seq<(Seq<char>, JsonV)>) -> Result<Seq<(Seq<char>, Real)>, FailV> {
    match member(body, "gains"@) {
        Some(JsonV::Object(o)) if o.len() > 0 => gain_list_of(o),
        _ => Err(invalid_v("gains must be a non-empty object of stage name to dB"@)),
    }
}

/// What a list of gains holds.
pub open spec fn gains_result(r: Result<Vec<NamedGain>, Fail>) -> Result<
    Seq<(Seq<char>, Real)>,
    FailV,
> {
    match r {
        Ok(v) => Ok(gains_view(v@)),
        Err(f) => Err(f@),
    }
}

/// [`gains_of`].
pub fn read_gains(body: &Vec<(String, Json)>) -> (r: Result<Vec<NamedGain>, Fail>)
    ensures
        gains_result(r) == gains_of(fields_view(body@)),
{
    let o = match find(body, "gains") {
        Some(Json::Object(o)) => o,
        _ => return Err(Fail::invalid("gains must be a non-empty object of stage name to dB")),
    };
    let ghost f = fields_view(o@);
    proof {
        fields_view_each(o@);
        assert(f.take(0) =~= Seq::empty());
    }
    if o.len() == 0 {
        return Err(Fail::invalid("gains must be a non-empty object of stage name to dB"));
    }
    let mut out: Vec<NamedGain> = Vec::new();
    assert(gains_view(out@) =~= Seq::empty());
    let mut i: usize = 0;
    while i < o.len()
        invariant
            f == fields_view(o@),
            f.len() == o@.len(),
            forall|k: int| 0 <= k < o@.len() ==> f[k] == ((#[trigger] o@[k]).0@, o@[k].1.view()),
            i <= o@.len(),
            gain_list_of(f.take(i as int)) == Ok::<Seq<(Seq<char>, Real)>, FailV>(gains_view(out@)),
            gains_of(fields_view(body@)) == gain_list_of(f),
        decreases o@.len() - i,
    {
        let stage = o[i].0.as_str();
        let db = o[i].1.as_double();
        proof {
            assert(f.take(i + 1).drop_last() =~= f.take(i as int));
            assert(f.take(i + 1).last() == f[i as int]);
            assert(f[i as int] == (o@[i as int].0@, o@[i as int].1.view()));
        }
        let ok = !stage.is_empty() && byte_len(stage) <= MAX_STAGE_BYTES;
        match db {
            Some(db) if ok => {
                let g = NamedGain { stage: stage.to_owned(), db };
                let ghost before = out@;
                out.push(g);
                assert(gains_view(out@) =~= gains_view(before).push((stage@, db)));
            },
            _ => {
                let q = debug(stage);
                let m = String::from_str("gain ").concat(q.as_str()).concat(
                    " must be a finite number of dB for a stage name of 1..=32 characters",
                );
                let fail = Fail::new(400, "invalid", m);
                proof {
                    refused_gain(f, i + 1, fail@);
                }
                return Err(fail);
            },
        }
        i += 1;
    }
    assert(f.take(o@.len() as int) =~= f);
    Ok(out)
}

// ---------------------------------------------------------------------------------------------
// Display and bookmarks
// ---------------------------------------------------------------------------------------------

/// The largest FFT size that can be asked for.
pub const MAX_FFT_SIZE: u64 = 1_048_576;

/// The members of a display update.
pub open spec fn display_members() -> Seq<Seq<char>> {
    seq!["fft_size"@, "averaging"@, "rows_per_s"@, "window"@]
}

/// The display update that a body asks for: at least one of its members.
pub open spec fn display_of(body: Seq<(Seq<char>, JsonV)>) -> Result<DisplayUpdateV, FailV> {
    let window = match text_of(body, "window"@) {
        Err(f) => Err(f),
        Ok(None) => Ok(None),
        Ok(Some(None)) => Err(invalid_v("window must be a string, not null"@)),
        Ok(Some(Some(s))) => Ok(Some(s)),
    };
    match (
        window,
        integer_of(body, "fft_size"@, MAX_FFT_SIZE),
        integer_of(body, "averaging"@, u32::MAX as u64),
        number_of(body, "rows_per_s"@),
    ) {
        (Err(f), _, _, _) => Err(f),
        (Ok(_), Err(f), _, _) => Err(f),
        (Ok(_), Ok(_), Err(f), _) => Err(f),
        (Ok(_), Ok(_), Ok(_), Err(f)) => Err(f),
        (Ok(window), Ok(fft), Ok(avg), Ok(rows_per_s)) => if window is None && fft is None
            && avg is None && rows_per_s is None {
            Err(invalid_v("give at least one of fft_size, averaging, rows_per_s, window"@))
        } else {
            Ok(
                DisplayUpdateV {
                    fft_size: match fft {
                        Some(n) => Some(n as usize),
                        None => None,
                    },
                    averaging: match avg {
                        Some(n) => Some(n as u32),
                        None => None,
                    },
                    rows_per_s,
                    window,
                },
            )
        },
    }
}

/// What a display update holds.
pub open spec fn display_result(r: Result<DisplayUpdate, Fail>) -> Result<DisplayUpdateV, FailV> {
    match r {
        Ok(u) => Ok(display_update_view(u)),
        Err(f) => Err(f@),
    }
}

/// [`display_of`].
pub fn read_display(body: &Vec<(String, Json)>) -> (r: Result<DisplayUpdate, Fail>)
    ensures
        display_result(r) == display_of(fields_view(body@)),
{
    let window = match text(body, "window") {
        Err(f) => return Err(f),
        Ok(None) => None,
        Ok(Some(None)) => return Err(Fail::invalid("window must be a string, not null")),
        Ok(Some(Some(s))) => Some(s.to_owned()),
    };
    let fft = match integer(body, "fft_size", MAX_FFT_SIZE) {
        Ok(x) => x,
        Err(f) => return Err(f),
    };
    let avg = match integer(body, "averaging", u32::MAX as u64) {
        Ok(x) => x,
        Err(f) => return Err(f),
    };
    let rows_per_s = match number(body, "rows_per_s") {
        Ok(x) => x,
        Err(f) => return Err(f),
    };
    if window.is_none() && fft.is_none() && avg.is_none() && rows_per_s.is_none() {
        return Err(
            Fail::invalid("give at least one of fft_size, averaging, rows_per_s, window"),
        );
    }
    let fft_size = match fft {
        Some(n) => Some(n as usize),
        None => None,
    };
    let averaging = match avg {
        Some(n) => Some(n as u32),
        None => None,
    };
    Ok(DisplayUpdate { fft_size, averaging, rows_per_s, window })
}

/// A bookmark's kind by name; absent and `null` say nothing.
pub open spec fn kind_of(v: Option<Option<Seq<char>>>) -> Result<Option<BookmarkKind>, FailV> {
    match v {
        None | Some(None) => Ok(None),
        Some(Some(k)) => if k == "marker"@ {
            Ok(Some(BookmarkKind::Marker))
        } else if k == "bookmark"@ {
            Ok(Some(BookmarkKind::Bookmark))
        } else {
            Err(
                invalid_v(
                    "kind "@ + debug_text(k) + " must be \"marker\" or \"bookmark\""@,
                ),
            )
        },
    }
}

/// The characters of an optional optional string.
pub open spec fn opt_opt_text(v: Option<Option<&str>>) -> Option<Option<Seq<char>>> {
    match v {
        None => None,
        Some(s) => Some(opt_text(s)),
    }
}

/// [`kind_of`].
pub fn kind(v: Option<Option<&str>>) -> (r: Result<Option<BookmarkKind>, Fail>)
    ensures
        outcome(r) == kind_of(opt_opt_text(v)),
{
    match v {
        None | Some(None) => Ok(None),
        Some(Some(k)) => {
            if same(k, "marker") {
                Ok(Some(BookmarkKind::Marker))
            } else if same(k, "bookmark") {
                Ok(Some(BookmarkKind::Bookmark))
            } else {
                let q = debug(k);
                let m = String::from_str("kind ").concat(q.as_str()).concat(
                    " must be \"marker\" or \"bookmark\"",
                );
                Err(Fail::new(400, "invalid", m))
            }
        },
    }
}

/// A name of one to `max` characters, white space around it aside.
pub open spec fn name_of(v: Option<Seq<char>>, max: usize) -> Result<Seq<char>, FailV> {
    let n = match v {
        Some(s) => trimmed(s),
        None => Seq::empty(),
    };
    if 1 <= n.len() <= max {
        Ok(n)
    } else {
        Err(invalid_v("name must be 1..="@ + decimal(max as nat) + " characters"@))
    }
}

/// What a name holds.
pub open spec fn name_result(r: Result<String, Fail>) -> Result<Seq<char>, FailV> {
    match r {
        Ok(s) => Ok(s@),
        Err(f) => Err(f@),
    }
}

/// [`name_of`].
pub fn name(v: Option<&str>, max: usize) -> (r: Result<String, Fail>)
    ensures
        name_result(r) == name_of(opt_text(v), max),
{
    let n = match v {
        Some(s) => trim(s).to_owned(),
        None => String::new(),
    };
    let len = n.as_str().unicode_len();
    if len == 0 || len > max {
        let d = decimal_number(max as u64);
        let m = String::from_str("name must be 1..=").concat(d.as_str()).concat(" characters");
        return Err(Fail::new(400, "invalid", m));
    }
    Ok(n)
}

/// The members of a bookmark's body.
pub open spec fn bookmark_members() -> Seq<Seq<char>> {
    seq!["kind"@, "name"@, "f_center_hz"@, "bandwidth_hz"@, "note"@]
}

/// Refuses a body that is no bookmark's.
fn only_bookmark(body: &Vec<(String, Json)>) -> (r: Result<(), Fail>)
    ensures
        outcome(r) == only_of(fields_view(body@), bookmark_members()),
{
    let allowed = ["kind", "name", "f_center_hz", "bandwidth_hz", "note"];
    assert(texts(allowed@) =~= bookmark_members());
    only(body, &allowed)
}

/// The inner value of an optional optional one.
pub open spec fn flat<T>(v: Option<Option<T>>) -> Option<T> {
    match v {
        Some(x) => x,
        None => None,
    }
}

/// The bookmark that a body asks to create. The errors come in the order of the reads: centre,
/// kind, name, width, note.
pub open spec fn new_bookmark_of(body: Seq<(Seq<char>, JsonV)>, name_max: usize) -> Result<
    NewBookmarkV,
    FailV,
> {
    let kind = match text_of(body, "kind"@) {
        Err(f) => Err(f),
        Ok(v) => kind_of(v),
    };
    let name = match text_of(body, "name"@) {
        Err(f) => Err(f),
        Ok(v) => name_of(flat(v), name_max),
    };
    match (
        required_of(body, "f_center_hz"@),
        kind,
        name,
        nullable_number_of(body, "bandwidth_hz"@),
        text_of(body, "note"@),
    ) {
        (Err(f), _, _, _, _) => Err(f),
        (Ok(_), Err(f), _, _, _) => Err(f),
        (Ok(_), Ok(_), Err(f), _, _) => Err(f),
        (Ok(_), Ok(_), Ok(_), Err(f), _) => Err(f),
        (Ok(_), Ok(_), Ok(_), Ok(_), Err(f)) => Err(f),
        (Ok(f_center_hz), Ok(kind), Ok(name), Ok(bw), Ok(note)) => Ok(
            NewBookmarkV { kind, name, f_center_hz, bandwidth_hz: flat(bw), note: flat(note) },
        ),
    }
}

/// What a new bookmark holds.
pub open spec fn new_bookmark_result(r: Result<NewBookmark, Fail>) -> Result<NewBookmarkV, FailV> {
    match r {
        Ok(b) => Ok(new_bookmark_view(b)),
        Err(f) => Err(f@),
    }
}

/// [`new_bookmark_of`].
pub fn read_new_bookmark(body: &Vec<(String, Json)>, name_max: usize) -> (r: Result<
    NewBookmark,
    Fail,
>)
    ensures
        new_bookmark_result(r) == new_bookmark_of(fields_view(body@), name_max),
{
    let f_center_hz = match required(body, "f_center_hz") {
        Ok(x) => x,
        Err(f) => return Err(f),
    };
    let k = match text(body, "kind") {
        Ok(v) => match kind(v) {
            Ok(k) => k,
            Err(f) => return Err(f),
        },
        Err(f) => return Err(f),
    };
    let n = match text(body, "name") {
        Ok(v) => {
            let inner = match v {
                Some(x) => x,
                None => None,
            };
            match name(inner, name_max) {
                Ok(n) => n,
                Err(f) => return Err(f),
            }
        },
        Err(f) => return Err(f),
    };
    let bandwidth_hz = match nullable_number(body, "bandwidth_hz") {
        Ok(Some(x)) => x,
        Ok(None) => None,
        Err(f) => return Err(f),
    };
    let note = match text(body, "note") {
        Ok(Some(Some(s))) => Some(s.to_owned()),
        Ok(_) => None,
        Err(f) => return Err(f),
    };
    Ok(NewBookmark { kind: k, name: n, f_center_hz, bandwidth_hz, note })
}

/// `v`, or `old` where there is none.
pub open spec fn or_old<T>(v: Option<T>, old_value: T) -> T {
    match v {
        Some(x) => x,
        None => old_value,
    }
}

/// A stored bookmark as a body changes it at `now`: members that are absent change nothing, and
/// the change is never before the creation.
pub open spec fn updated_of(
    stored: BookmarkV,
    body: Seq<(Seq<char>, JsonV)>,
    name_max: usize,
    now: i64,
) -> Result<BookmarkV, FailV> {
    let kind = match text_of(body, "kind"@) {
        Err(f) => Err(f),
        Ok(v) => kind_of(v),
    };
    let name = match text_of(body, "name"@) {
        Err(f) => Err(f),
        Ok(None) => Ok(stored.name),
        Ok(Some(v)) => name_of(v, name_max),
    };
    match (
        kind,
        name,
        number_of(body, "f_center_hz"@),
        nullable_number_of(body, "bandwidth_hz"@),
        text_of(body, "note"@),
    ) {
        (Err(f), _, _, _, _) => Err(f),
        (Ok(_), Err(f), _, _, _) => Err(f),
        (Ok(_), Ok(_), Err(f), _, _) => Err(f),
        (Ok(_), Ok(_), Ok(_), Err(f), _) => Err(f),
        (Ok(_), Ok(_), Ok(_), Ok(_), Err(f)) => Err(f),
        (Ok(kind), Ok(name), Ok(center), Ok(bw), Ok(note)) => Ok(
            BookmarkV {
                kind: or_old(kind, stored.kind),
                name,
                f_center_hz: or_old(center, stored.f_center_hz),
                bandwidth_hz: or_old(bw, stored.bandwidth_hz),
                note: or_old(note, stored.note),
                updated_at: if now >= stored.created_at {
                    now
                } else {
                    stored.created_at
                },
                ..stored
            },
        ),
    }
}

/// What an updated bookmark holds.
pub open spec fn bookmark_result(r: Result<Bookmark, Fail>) -> Result<BookmarkV, FailV> {
    match r {
        Ok(b) => Ok(b@),
        Err(f) => Err(f@),
    }
}

/// [`updated_of`].
pub fn updated_bookmark(
    stored: &Bookmark,
    body: &Vec<(String, Json)>,
    name_max: usize,
    now: i64,
) -> (r: Result<Bookmark, Fail>)
    ensures
        bookmark_result(r) == updated_of(stored@, fields_view(body@), name_max, now),
{
    let k = match text(body, "kind") {
        Ok(v) => match kind(v) {
            Ok(Some(k)) => k,
            Ok(None) => stored.kind,
            Err(f) => return Err(f),
        },
        Err(f) => return Err(f),
    };
    let n = match text(body, "name") {
        Ok(None) => stored.name.clone(),
        Ok(Some(v)) => match name(v, name_max) {
            Ok(n) => n,
            Err(f) => return Err(f),
        },
        Err(f) => return Err(f),
    };
    let f_center_hz = match number(body, "f_center_hz") {
        Ok(Some(x)) => x,
        Ok(None) => stored.f_center_hz,
        Err(f) => return Err(f),
    };
    let bandwidth_hz = match nullable_number(body, "bandwidth_hz") {
        Ok(Some(x)) => x,
        Ok(None) => stored.bandwidth_hz,
        Err(f) => return Err(f),
    };
    let note = match text(body, "note") {
        Ok(Some(Some(s))) => Some(s.to_owned()),
        Ok(Some(None)) => None,
        Ok(None) => stored.note.clone(),
        Err(f) => return Err(f),
    };
    let updated_at = if now >= stored.created_at {
        now
    } else {
        stored.created_at
    };
    Ok(
        Bookmark {
            id: stored.id.clone(),
            kind: k,
            name: n,
            f_center_hz,
            bandwidth_hz,
            note,
            created_at: stored.created_at,
            updated_at,
        },
    )
}

/// A body without members changes nothing of a bookmark but the time of the change.
pub proof fn empty_update_keeps_the_bookmark(stored: BookmarkV, name_max: usize, now: i64)
    ensures
        updated_of(stored, Seq::empty(), name_max, now) == Ok::<BookmarkV, FailV>(
            BookmarkV {
                updated_at: if now >= stored.created_at {
                    now
                } else {
                    stored.created_at
                },
                ..stored
            },
        ),
{
}

// ---------------------------------------------------------------------------------------------
// Planning
// ---------------------------------------------------------------------------------------------

/// `Ok` of the first three, or the first refusal among them.
pub open spec fn device_plan(
    allowed: Result<(), FailV>,
    read: Result<CommandV, FailV>,
    is_live: bool,
) -> Result<CommandV, FailV> {
    match (allowed, read) {
        (Err(f), _) => Err(f),
        (Ok(_), Err(f)) => Err(f),
        (Ok(_), Ok(c)) => if is_live {
            Ok(c)
        } else {
            Err(not_live_v())
        },
    }
}

/// The command of a read value.
pub open spec fn hz_command(r: Result<Real, FailV>, center: bool) -> Result<CommandV, FailV> {
    match r {
        Ok(hz) => Ok(
            if center {
                CommandV::Center(hz)
            } else {
                CommandV::Rate(hz)
            },
        ),
        Err(f) => Err(f),
    }
}

/// The command that an action's body asks for, or why it is refused: unknown members first, then
/// the members that the action reads, then what the server lacks.
pub open spec fn planned(
    action: Action,
    body: Seq<(Seq<char>, JsonV)>,
    server: Available,
    name_max: usize,
) -> Result<CommandV, FailV> {
    match action {
        Action::Center => device_plan(
            only_of(body, seq!["center_hz"@]),
            hz_command(required_of(body, "center_hz"@), true),
            server.live,
        ),
        Action::Rate => device_plan(
            only_of(body, seq!["sample_rate_hz"@]),
            hz_command(required_of(body, "sample_rate_hz"@), false),
            server.live,
        ),
        Action::Window => device_plan(
            only_of(body, seq!["center_hz"@, "sample_rate_hz"@]),
            match (required_of(body, "center_hz"@), required_of(body, "sample_rate_hz"@)) {
                (Err(f), _) => Err(f),
                (Ok(_), Err(f)) => Err(f),
                (Ok(c), Ok(r)) => Ok(CommandV::Window(c, r)),
            },
            server.live,
        ),
        Action::Gains => device_plan(
            only_of(body, seq!["gains"@]),
            match gains_of(body) {
                Ok(g) => Ok(CommandV::Gains(g)),
                Err(f) => Err(f),
            },
            server.live,
        ),
        Action::BiasTee => device_plan(
            only_of(body, seq!["enabled"@]),
            match member(body, "enabled"@) {
                Some(JsonV::Bool(b)) => Ok(CommandV::BiasTee(b)),
                _ => Err(invalid_v("enabled must be true or false"@)),
            },
            server.live,
        ),
        Action::BasebandFilter => device_plan(
            only_of(body, seq!["bandwidth_hz"@]),
            match required_of(body, "bandwidth_hz"@) {
                Ok(hz) => Ok(CommandV::BasebandFilter(hz)),
                Err(f) => Err(f),
            },
            server.live,
        ),
        Action::ScanStart => scan_start_of(body, server),
        Action::ScanStop => match only_of(body, Seq::empty()) {
            Err(f) => Err(f),
            Ok(_) => Ok(CommandV::ScanStop),
        },
        Action::Display => match (only_of(body, display_members()), display_of(body)) {
            (Err(f), _) => Err(f),
            (Ok(_), Err(f)) => Err(f),
            (Ok(_), Ok(u)) => if server.run {
                Ok(CommandV::Display(u))
            } else {
                Err(no_run_v())
            },
        },
        Action::RecordStart => match (
            only_of(body, seq!["label"@, "max_s"@]),
            text_of(body, "label"@),
            number_of(body, "max_s"@),
        ) {
            (Err(f), _, _) => Err(f),
            (Ok(_), Err(f), _) => Err(f),
            (Ok(_), Ok(_), Err(f)) => Err(f),
            (Ok(_), Ok(label), Ok(max_s)) => if server.run {
                Ok(CommandV::RecordStart(flat(label), max_s))
            } else {
                Err(no_run_v())
            },
        },
        Action::RecordStop => match only_of(body, Seq::empty()) {
            Err(f) => Err(f),
            Ok(_) => if server.run {
                Ok(CommandV::RecordStop)
            } else {
                Err(no_run_v())
            },
        },
        Action::CreateBookmark => match (
            only_of(body, bookmark_members()),
            new_bookmark_of(body, name_max),
        ) {
            (Err(f), _) => Err(f),
            (Ok(_), Err(f)) => Err(f),
            (Ok(_), Ok(b)) => if server.bookmarks {
                Ok(CommandV::CreateBookmark(b))
            } else {
                Err(no_bookmarks_v())
            },
        },
        Action::UpdateBookmark(id) => match only_of(body, bookmark_members()) {
            Err(f) => Err(f),
            Ok(_) => if server.bookmarks {
                Ok(CommandV::UpdateBookmark(id))
            } else {
                Err(no_bookmarks_v())
            },
        },
        Action::DeleteBookmark(id) => match only_of(body, Seq::empty()) {
            Err(f) => Err(f),
            Ok(_) => if server.bookmarks {
                Ok(CommandV::DeleteBookmark(id))
            } else {
                Err(no_bookmarks_v())
            },
        },
        Action::State
        | Action::ScanState
        | Action::ListBookmarks
        | Action::GetBookmark(_) => Err(fail_v(500, "failed"@, "not a control action"@)),
    }
}

/// The plan of an action on the device.
fn plan_device(action: Action, body: &Vec<(String, Json)>, server: Available) -> (r: Result<
    Command,
    Fail,
>)
    requires
        action.performs() is Some,
    ensures
        forall|name_max: usize|
            plan_view(r) == #[trigger] planned(action, fields_view(body@), server, name_max),
{
    let command = match action {
        Action::Center => {
            let allowed = ["center_hz"];
            assert(texts(allowed@) =~= seq!["center_hz"@]);
            match only(body, &allowed) {
                Ok(_) => {},
                Err(f) => return Err(f),
            }
            match required(body, "center_hz") {
                Ok(hz) => Command::Center(hz),
                Err(f) => return Err(f),
            }
        },
        Action::Rate => {
            let allowed = ["sample_rate_hz"];
            assert(texts(allowed@) =~= seq!["sample_rate_hz"@]);
            match only(body, &allowed) {
                Ok(_) => {},
                Err(f) => return Err(f),
            }
            match required(body, "sample_rate_hz") {
                Ok(hz) => Command::Rate(hz),
                Err(f) => return Err(f),
            }
        },
        Action::Window => {
            let allowed = ["center_hz", "sample_rate_hz"];
            assert(texts(allowed@) =~= seq!["center_hz"@, "sample_rate_hz"@]);
            match only(body, &allowed) {
                Ok(_) => {},
                Err(f) => return Err(f),
            }
            let center = match required(body, "center_hz") {
                Ok(hz) => hz,
                Err(f) => return Err(f),
            };
            match required(body, "sample_rate_hz") {
                Ok(hz) => Command::Window(center, hz),
                Err(f) => return Err(f),
            }
        },
        Action::Gains => {
            let allowed = ["gains"];
            assert(texts(allowed@) =~= seq!["gains"@]);
            match only(body, &allowed) {
                Ok(_) => {},
                Err(f) => return Err(f),
            }
            match read_gains(body) {
                Ok(g) => Command::Gains(g),
                Err(f) => return Err(f),
            }
        },
        Action::BiasTee => {
            let allowed = ["enabled"];
            assert(texts(allowed@) =~= seq!["enabled"@]);
            match only(body, &allowed) {
                Ok(_) => {},
                Err(f) => return Err(f),
            }
            match find(body, "enabled") {
                Some(Json::Bool(b)) => Command::BiasTee(*b),
                _ => return Err(Fail::invalid("enabled must be true or false")),
            }
        },
        _ => {
            let allowed = ["bandwidth_hz"];
            assert(texts(allowed@) =~= seq!["bandwidth_hz"@]);
            match only(body, &allowed) {
                Ok(_) => {},
                Err(f) => return Err(f),
            }
            match required(body, "bandwidth_hz") {
                Ok(hz) => Command::BasebandFilter(hz),
                Err(f) => return Err(f),
            }
        },
    };
    match live(server.live) {
        Ok(_) => Ok(command),
        Err(f) => Err(f),
    }
}

/// [`planned`].
pub fn plan(action: Action, body: &Vec<(String, Json)>, server: Available, name_max: usize) -> (r:
    Result<Command, Fail>)
    ensures
        plan_view(r) == planned(action, fields_view(body@), server, name_max),
{
    if action.device_action().is_some() {
        return plan_device(action, body, server);
    }
    match action {
        Action::ScanStart => plan_scan_start(body, server),
        Action::ScanStop => match no_members(body) {
            Ok(_) => Ok(Command::ScanStop),
            Err(f) => Err(f),
        },
        Action::Display => {
            let allowed = ["fft_size", "averaging", "rows_per_s", "window"];
            assert(texts(allowed@) =~= display_members());
            match only(body, &allowed) {
                Ok(_) => {},
                Err(f) => return Err(f),
            }
            let update = match read_display(body) {
                Ok(u) => u,
                Err(f) => return Err(f),
            };
            match run(server.run) {
                Ok(_) => Ok(Command::Display(update)),
                Err(f) => Err(f),
            }
        },
        Action::RecordStart => {
            let allowed = ["label", "max_s"];
            assert(texts(allowed@) =~= seq!["label"@, "max_s"@]);
            match only(body, &allowed) {
                Ok(_) => {},
                Err(f) => return Err(f),
            }
            let label = match text(body, "label") {
                Ok(Some(Some(s))) => Some(s.to_owned()),
                Ok(_) => None,
                Err(f) => return Err(f),
            };
            let max_s = match number(body, "max_s") {
                Ok(x) => x,
                Err(f) => return Err(f),
            };
            match run(server.run) {
                Ok(_) => Ok(Command::RecordStart(label, max_s)),
                Err(f) => Err(f),
            }
        },
        Action::RecordStop => {
            match no_members(body) {
                Ok(_) => {},
                Err(f) => return Err(f),
            }
            match run(server.run) {
                Ok(_) => Ok(Command::RecordStop),
                Err(f) => Err(f),
            }
        },
        Action::CreateBookmark => {
            match only_bookmark(body) {
                Ok(_) => {},
                Err(f) => return Err(f),
            }
            let b = match read_new_bookmark(body, name_max) {
                Ok(b) => b,
                Err(f) => return Err(f),
            };
            match bookmarks(server.bookmarks) {
                Ok(_) => Ok(Command::CreateBookmark(b)),
                Err(f) => Err(f),
            }
        },
        Action::UpdateBookmark(id) => {
            match only_bookmark(body) {
                Ok(_) => {},
                Err(f) => return Err(f),
            }
            match bookmarks(server.bookmarks) {
                Ok(_) => Ok(Command::UpdateBookmark(id)),
                Err(f) => Err(f),
            }
        },
        Action::DeleteBookmark(id) => {
            match no_members(body) {
                Ok(_) => {},
                Err(f) => return Err(f),
            }
            match bookmarks(server.bookmarks) {
                Ok(_) => Ok(Command::DeleteBookmark(id)),
                Err(f) => Err(f),
            }
        },
        _ => Err(Fail::of(500, "failed", "not a control action")),
    }
}

/// What a read asks for.
#[derive(Clone, Copy, Debug, PartialEq, Eq, Structural)]
pub enum ReadCommand {
    /// The state.
    State,
    /// Where the sweep is, and what this one would cost without starting it.
    Scan(Option<ScanRequest>),
    /// All bookmarks.
    Bookmarks,
    /// One bookmark.
    Bookmark(Id),
}

/// What a read asks for, or why it is refused.
pub open spec fn read_planned(
    action: Action,
    query: Seq<(Seq<char>, Seq<char>)>,
    server: Available,
) -> Result<ReadCommand, FailV> {
    match action {
        Action::State => Ok(ReadCommand::State),
        Action::ScanState => match (scan_runner_of(server), scan_proposal_of(query)) {
            (Err(f), _) => Err(f),
            (Ok(_), Err(f)) => Err(f),
            (Ok(_), Ok(p)) => Ok(ReadCommand::Scan(p)),
        },
        Action::ListBookmarks => if server.bookmarks {
            Ok(ReadCommand::Bookmarks)
        } else {
            Err(no_bookmarks_v())
        },
        Action::GetBookmark(id) => if server.bookmarks {
            Ok(ReadCommand::Bookmark(id))
        } else {
            Err(no_bookmarks_v())
        },
        _ => Err(fail_v(500, "failed"@, "not a read"@)),
    }
}

/// [`read_planned`].
pub fn plan_read(action: Action, query: &[(String, String)], server: Available) -> (r: Result<
    ReadCommand,
    Fail,
>)
    ensures
        outcome(r) == read_planned(action, pairs(query@), server),
{
    match action {
        Action::State => Ok(ReadCommand::State),
        Action::ScanState => {
            match scan_runner(server) {
                Ok(_) => {},
                Err(f) => return Err(f),
            }
            match scan_proposal(query) {
                Ok(p) => Ok(ReadCommand::Scan(p)),
                Err(f) => Err(f),
            }
        },
        Action::ListBookmarks => match bookmarks(server.bookmarks) {
            Ok(_) => Ok(ReadCommand::Bookmarks),
            Err(f) => Err(f),
        },
        Action::GetBookmark(id) => match bookmarks(server.bookmarks) {
            Ok(_) => Ok(ReadCommand::Bookmark(id)),
            Err(f) => Err(f),
        },
        _ => Err(Fail::of(500, "failed", "not a read")),
    }
}

/// Where the sweep is, and what the proposed one would cost.
pub fn scan_state_json(scan: Json, proposed: Json) -> (r: Json)
    ensures
        r.view() == JsonV::Object(
            no_fields().push(("scan"@, scan.view())).push(("proposed"@, proposed.view())),
        ),
{
    let mut f = Fields::new();
    f.put("scan", scan);
    f.put("proposed", proposed);
    f.object()
}

/// All bookmarks.
pub fn bookmarks_json(all: &Vec<Bookmark>) -> (r: Json)
    ensures
        r.view() == JsonV::Object(
            no_fields().push(("bookmarks"@, JsonV::Array(crate::json::list_v(all@)))),
        ),
{
    let mut f = Fields::new();
    f.put("bookmarks", crate::json::list(all));
    f.object()
}

/// A command that moves the front end.
pub open spec fn moves_the_front_end(c: CommandV) -> bool {
    c is Center || c is Rate || c is Window || c is Gains || c is BiasTee || c is BasebandFilter
}

/// A command moves the front end exactly where the action it was planned from performs a device
/// action, and only where there is a live source.
pub proof fn only_device_actions_move_the_front_end(
    action: Action,
    body: Seq<(Seq<char>, JsonV)>,
    server: Available,
    name_max: usize,
    c: CommandV,
)
    requires
        planned(action, body, server, name_max) == Ok::<CommandV, FailV>(c),
    ensures
        moves_the_front_end(c) == (action.performs() is Some),
        moves_the_front_end(c) ==> server.live,
{
}

/// Stopping a sweep surrenders the radio and is never refused, whatever the server has: only a body
/// that is not empty is.
pub proof fn stopping_is_never_refused(body: Seq<(Seq<char>, JsonV)>, server: Available, n: usize)
    ensures
        body.len() == 0 ==> planned(Action::ScanStop, body, server, n) == Ok::<CommandV, FailV>(
            CommandV::ScanStop,
        ),
        body.len() > 0 ==> (planned(Action::ScanStop, body, server, n) matches Err(f) && f.status
            == 400),
{
}

/// A sweep that is started covers what its body says: exactly the range from the one number to the
/// other where both are given, and everything only where neither is; for the dwell and at the step
/// given, or the usual ones. It is started on a live front end with something that sweeps, and never
/// by a body that resumes one.
pub proof fn a_sweep_covers_the_range_given(
    body: Seq<(Seq<char>, JsonV)>,
    server: Available,
    name_max: usize,
    r: ScanRequest,
)
    ensures
        planned(Action::ScanStart, body, server, name_max) == Ok::<CommandV, FailV>(
            CommandV::ScanStart(r),
        ) ==> {
            &&& server.live && server.scan
            &&& member(body, "resume"@) is None || member(body, "resume"@) == Some(
                JsonV::Bool(false),
            )
            &&& r.freq is None <==> member(body, "f_lo_hz"@) is None
            &&& r.freq is None <==> member(body, "f_hi_hz"@) is None
            &&& r.freq matches Some(f) ==> writes(body, "f_lo_hz"@, f.lo) && writes(
                body,
                "f_hi_hz"@,
                f.hi,
            )
            &&& r.dwell_s is None <==> member(body, "dwell_s"@) is None
            &&& r.dwell_s matches Some(x) ==> writes(body, "dwell_s"@, x)
            &&& r.step is None <==> member(body, "step"@) is None
            &&& r.step == Some(ScanStep::Fine) <==> member(body, "step"@) == Some(
                JsonV::Text("fine"@),
            )
            &&& r.step == Some(ScanStep::Coarse) <==> member(body, "step"@) == Some(
                JsonV::Text("coarse"@),
            )
        },
{
    reveal_strlit("fine");
    reveal_strlit("coarse");
    assert("fine"@.len() != "coarse"@.len());
    if let Some(v) = member(body, "f_lo_hz"@) {
        if let Some(x) = as_real(v) {
            numbers_are_read_as_written(body, "f_lo_hz"@, x);
        }
    }
    if let Some(v) = member(body, "f_hi_hz"@) {
        if let Some(x) = as_real(v) {
            numbers_are_read_as_written(body, "f_hi_hz"@, x);
        }
    }
}

/// When a sweep is started: always where the server can, the body has no member that it does not
/// know and does not resume, both ends of a range are numbers or neither is there, and its dwell and
/// step are what they must be. A range with one end is refused.
pub proof fn a_good_sweep_is_started(
    body: Seq<(Seq<char>, JsonV)>,
    server: Available,
    name_max: usize,
    lo: Real,
    hi: Real,
)
    requires
        server.live,
        server.scan,
        only_of(body, scan_members()) is Ok,
        member(body, "resume"@) is None,
        member(body, "dwell_s"@) is None,
        member(body, "step"@) is None,
    ensures
        writes(body, "f_lo_hz"@, lo) && writes(body, "f_hi_hz"@, hi) ==> planned(
            Action::ScanStart,
            body,
            server,
            name_max,
        ) == Ok::<CommandV, FailV>(
            CommandV::ScanStart(
                ScanRequest { freq: Some(Span { lo, hi }), dwell_s: None, step: None },
            ),
        ),
        member(body, "f_lo_hz"@) is None && member(body, "f_hi_hz"@) is None ==> planned(
            Action::ScanStart,
            body,
            server,
            name_max,
        ) == Ok::<CommandV, FailV>(
            CommandV::ScanStart(ScanRequest { freq: None, dwell_s: None, step: None }),
        ),
        (member(body, "f_lo_hz"@) is None) != (member(body, "f_hi_hz"@) is None) ==> (planned(
            Action::ScanStart,
            body,
            server,
            name_max,
        ) matches Err(f) && f.status == 400),
{
}

/// A sweep is resumed by a body that says so and nothing else, where there is something to resume it
/// on; where there is not, a sweep is neither started nor resumed.
pub proof fn resuming_takes_nothing_else(
    body: Seq<(Seq<char>, JsonV)>,
    server: Available,
    name_max: usize,
)
    ensures
        planned(Action::ScanStart, body, server, name_max) == Ok::<CommandV, FailV>(
            CommandV::ScanResume,
        ) <==> server.live && server.scan && body.len() == 1 && body[0] == (
            "resume"@,
            JsonV::Bool(true),
        ),
        only_of(body, scan_members()) is Ok && !server.live ==> (planned(
            Action::ScanStart,
            body,
            server,
            name_max,
        ) matches Err(f) && f.status == 409),
        only_of(body, scan_members()) is Ok && server.live && !server.scan ==> (planned(
            Action::ScanStart,
            body,
            server,
            name_max,
        ) matches Err(f) && f.status == 503),
{
    only_allowed_members_pass(body, scan_members());
    member_index_is_first(body, "resume"@);
    assert(scan_members()[4] == "resume"@);
    if body.len() == 1 && body[0] == ("resume"@, JsonV::Bool(true)) {
        member_is_the_first(body, "resume"@, 0);
        assert forall|i: int| 0 <= i < body.len() implies scan_members().contains(
            (#[trigger] body[i]).0,
        ) by {
            assert(scan_members().contains(scan_members()[4]));
        }
    }
}

/// What a device is told: exactly the numbers that the body writes, where a front end is live and the
/// body has no other member.
pub proof fn device_commands_carry_what_was_written(
    body: Seq<(Seq<char>, JsonV)>,
    server: Available,
    name_max: usize,
    x: Real,
    y: Real,
    on: bool,
)
    ensures
        planned(Action::Center, body, server, name_max) == Ok::<CommandV, FailV>(
            CommandV::Center(x),
        ) <==> server.live && only_of(body, seq!["center_hz"@]) is Ok && writes(
            body,
            "center_hz"@,
            x,
        ),
        planned(Action::Rate, body, server, name_max) == Ok::<CommandV, FailV>(CommandV::Rate(x))
            <==> server.live && only_of(body, seq!["sample_rate_hz"@]) is Ok && writes(
            body,
            "sample_rate_hz"@,
            x,
        ),
        planned(Action::Window, body, server, name_max) == Ok::<CommandV, FailV>(
            CommandV::Window(x, y),
        ) <==> server.live && only_of(body, seq!["center_hz"@, "sample_rate_hz"@]) is Ok && writes(
            body,
            "center_hz"@,
            x,
        ) && writes(body, "sample_rate_hz"@, y),
        planned(Action::BasebandFilter, body, server, name_max) == Ok::<CommandV, FailV>(
            CommandV::BasebandFilter(x),
        ) <==> server.live && only_of(body, seq!["bandwidth_hz"@]) is Ok && writes(
            body,
            "bandwidth_hz"@,
            x,
        ),
        planned(Action::BiasTee, body, server, name_max) == Ok::<CommandV, FailV>(
            CommandV::BiasTee(on),
        ) <==> server.live && only_of(body, seq!["enabled"@]) is Ok && member(body, "enabled"@)
            == Some(JsonV::Bool(on)),
{
}

/// A good device command is refused as not live where no front end is, and as nothing else.
pub proof fn a_recording_takes_no_device_command(
    body: Seq<(Seq<char>, JsonV)>,
    server: Available,
    name_max: usize,
    x: Real,
)
    requires
        !server.live,
    ensures
        only_of(body, seq!["center_hz"@]) is Ok && writes(body, "center_hz"@, x) ==> (planned(
            Action::Center,
            body,
            server,
            name_max,
        ) matches Err(f) && f.status == 409 && f.code == "not_live"@),
        !(planned(Action::Center, body, server, name_max) is Ok),
        !(planned(Action::Rate, body, server, name_max) is Ok),
        !(planned(Action::Window, body, server, name_max) is Ok),
        !(planned(Action::Gains, body, server, name_max) is Ok),
        !(planned(Action::BiasTee, body, server, name_max) is Ok),
        !(planned(Action::BasebandFilter, body, server, name_max) is Ok),
{
}

proof fn gain_lists_are_the_members(o: Seq<(Seq<char>, JsonV)>)
    ensures
        gain_list_of(o) matches Ok(g) ==> g.len() == o.len() && forall|i: int|
            0 <= i < o.len() ==> (#[trigger] g[i]).0 == o[i].0 && as_real(o[i].1) == Some(g[i].1)
                && o[i].0.len() > 0 && encode_utf8(o[i].0).len() <= 32,
        gain_list_of(o) is Ok <==> forall|i: int|
            0 <= i < o.len() ==> as_real((#[trigger] o[i]).1) is Some && o[i].0.len() > 0
                && encode_utf8(o[i].0).len() <= 32,
        gain_list_of(o) matches Err(f) ==> f.status == 400,
    decreases o.len(),
{
    if o.len() > 0 {
        let b = o.drop_last();
        gain_lists_are_the_members(b);
        assert(o[o.len() - 1] == o.last());
        assert forall|i: int| 0 <= i < b.len() implies b[i] == #[trigger] o[i] by {}
        if let Ok(g) = gain_list_of(o) {
            assert forall|i: int| 0 <= i < o.len() implies (#[trigger] g[i]).0 == o[i].0 && as_real(
                o[i].1,
            ) == Some(g[i].1) && o[i].0.len() > 0 && encode_utf8(o[i].0).len() <= 32 by {
                if i < b.len() {
                    assert(gain_list_of(b)->Ok_0[i] == g[i]);
                    assert(b[i] == o[i]);
                }
            }
            assert forall|i: int| 0 <= i < o.len() implies as_real((#[trigger] o[i]).1) is Some
                && o[i].0.len() > 0 && encode_utf8(o[i].0).len() <= 32 by {
                assert(g[i].0 == o[i].0);
            }
        } else if gain_list_of(b) is Err {
            let k = choose|k: int|
                0 <= k < b.len() && !(as_real((#[trigger] b[k]).1) is Some && b[k].0.len() > 0
                    && encode_utf8(b[k].0).len() <= 32);
            assert(o[k] == b[k]);
        }
    }
}

/// The gains of a command are those of the body, stage by stage and in order, each a number of dB for
/// a stage with a name of at most 32 bytes; one that is not refuses them all, and so does none.
pub proof fn gains_are_set_as_written(body: Seq<(Seq<char>, JsonV)>, server: Available, n: usize)
    ensures
        planned(Action::Gains, body, server, n) matches Ok(c) ==> {
            &&& c is Gains
            &&& server.live
            &&& member(body, "gains"@) matches Some(JsonV::Object(o)) && o.len() > 0
                && c->Gains_0.len() == o.len() && forall|i: int|
                0 <= i < o.len() ==> (#[trigger] c->Gains_0[i]).0 == o[i].0 && as_real(o[i].1)
                    == Some(c->Gains_0[i].1) && o[i].0.len() > 0 && encode_utf8(o[i].0).len() <= 32
        },
        server.live && only_of(body, seq!["gains"@]) is Ok ==> (member(
            body,
            "gains"@,
        ) matches Some(JsonV::Object(o)) ==> (o.len() > 0 && (forall|i: int|
            0 <= i < o.len() ==> as_real((#[trigger] o[i]).1) is Some && o[i].0.len() > 0
                && encode_utf8(o[i].0).len() <= 32) ==> planned(
            Action::Gains,
            body,
            server,
            n,
        ) is Ok)),
{
    if let Some(JsonV::Object(o)) = member(body, "gains"@) {
        gain_lists_are_the_members(o);
    }
}

/// What the display is told: each setting that the body writes, within its bounds, and no other; at
/// least one.
pub proof fn display_settings_are_those_written(body: Seq<(Seq<char>, JsonV)>)
    ensures
        display_of(body) matches Ok(u) ==> {
            &&& u.fft_size is None <==> member(body, "fft_size"@) is None
            &&& u.fft_size matches Some(n) ==> n <= 1_048_576 && (member(
                body,
                "fft_size"@,
            ) matches Some(v) && as_uint(v) == Some(n as u64))
            &&& u.averaging is None <==> member(body, "averaging"@) is None
            &&& u.averaging matches Some(n) ==> (member(body, "averaging"@) matches Some(v)
                && as_uint(v) == Some(n as u64))
            &&& u.rows_per_s is None <==> member(body, "rows_per_s"@) is None
            &&& u.rows_per_s matches Some(x) ==> writes(body, "rows_per_s"@, x)
            &&& u.window is None <==> member(body, "window"@) is None
            &&& u.window matches Some(w) ==> member(body, "window"@) == Some(JsonV::Text(w))
            &&& !(u.fft_size is None && u.averaging is None && u.rows_per_s is None
                && u.window is None)
        },
        display_of(body) matches Err(f) ==> f.status == 400,
{
}

/// A display setting and a recording need a running pipeline, and nothing more once they are read; a
/// recording has the label and the length given.
pub proof fn the_pipeline_is_told_what_was_written(
    body: Seq<(Seq<char>, JsonV)>,
    server: Available,
    n: usize,
)
    ensures
        only_of(body, display_members()) is Ok ==> (display_of(body) matches Ok(u) ==> (
        if server.run {
            planned(Action::Display, body, server, n) == Ok::<CommandV, FailV>(CommandV::Display(u))
        } else {
            planned(Action::Display, body, server, n) matches Err(f) && f.status == 503
        })),
        planned(Action::RecordStart, body, server, n) matches Ok(c) ==> {
            &&& server.run
            &&& c is RecordStart
            &&& c->RecordStart_0 is None <==> member(body, "label"@) is None || member(
                body,
                "label"@,
            ) == Some(JsonV::Null)
            &&& c->RecordStart_0 matches Some(l) ==> member(body, "label"@) == Some(JsonV::Text(l))
            &&& c->RecordStart_1 is None <==> member(body, "max_s"@) is None
            &&& c->RecordStart_1 matches Some(x) ==> writes(body, "max_s"@, x)
        },
        body.len() == 0 ==> (planned(Action::RecordStop, body, server, n) is Ok <==> server.run),
{
}

/// A new bookmark is what the body says: a centre, a name without the white space round it of
/// between one and the most characters, and, where they are there and not null, a kind, a bandwidth
/// and a note.
pub proof fn a_new_bookmark_is_what_was_written(
    body: Seq<(Seq<char>, JsonV)>,
    server: Available,
    name_max: usize,
)
    ensures
        planned(Action::CreateBookmark, body, server, name_max) matches Ok(c) ==> {
            let b = c->CreateBookmark_0;
            &&& c is CreateBookmark
            &&& server.bookmarks
            &&& writes(body, "f_center_hz"@, b.f_center_hz)
            &&& member(body, "name"@) matches Some(JsonV::Text(t)) && b.name == trimmed(t)
            &&& 1 <= b.name.len() <= name_max
            &&& b.kind == Some(BookmarkKind::Marker) <==> member(body, "kind"@) == Some(
                JsonV::Text("marker"@),
            )
            &&& b.kind == Some(BookmarkKind::Bookmark) <==> member(body, "kind"@) == Some(
                JsonV::Text("bookmark"@),
            )
            &&& b.bandwidth_hz is None <==> member(body, "bandwidth_hz"@) is None || member(
                body,
                "bandwidth_hz"@,
            ) == Some(JsonV::Null)
            &&& b.bandwidth_hz matches Some(x) ==> writes(body, "bandwidth_hz"@, x)
            &&& b.note is None <==> member(body, "note"@) is None || member(body, "note"@) == Some(
                JsonV::Null,
            )
            &&& b.note matches Some(t) ==> member(body, "note"@) == Some(JsonV::Text(t))
        },
        only_of(body, bookmark_members()) is Ok && new_bookmark_of(body, name_max) is Ok
            && !server.bookmarks ==> (planned(
            Action::CreateBookmark,
            body,
            server,
            name_max,
        ) matches Err(f) && f.status == 503),
{
    reveal_strlit("marker");
    reveal_strlit("bookmark");
    assert("marker"@.len() != "bookmark"@.len());
}

/// A changed bookmark has what the body writes and keeps the rest; who it is and when it was made
/// never change, and it was changed now, or when it was made where that is later.
pub proof fn an_update_changes_what_was_written(
    stored: BookmarkV,
    body: Seq<(Seq<char>, JsonV)>,
    name_max: usize,
    now: i64,
)
    ensures
        updated_of(stored, body, name_max, now) matches Ok(b) ==> {
            &&& b.id == stored.id
            &&& b.created_at == stored.created_at
            &&& b.updated_at >= now && b.updated_at >= stored.created_at && (b.updated_at == now
                || b.updated_at == stored.created_at)
            &&& member(body, "name"@) is None ==> b.name == stored.name
            &&& member(body, "name"@) matches Some(JsonV::Text(t)) ==> b.name == trimmed(t) && 1
                <= b.name.len() <= name_max
            &&& member(body, "f_center_hz"@) is None ==> b.f_center_hz == stored.f_center_hz
            &&& member(body, "f_center_hz"@) is Some ==> writes(body, "f_center_hz"@, b.f_center_hz)
            &&& member(body, "bandwidth_hz"@) is None ==> b.bandwidth_hz == stored.bandwidth_hz
            &&& member(body, "bandwidth_hz"@) == Some(JsonV::Null) ==> b.bandwidth_hz is None
            &&& member(body, "bandwidth_hz"@) is Some && member(body, "bandwidth_hz"@) != Some(
                JsonV::Null,
            ) ==> b.bandwidth_hz is Some && writes(body, "bandwidth_hz"@, b.bandwidth_hz->0)
            &&& member(body, "note"@) is None ==> b.note == stored.note
            &&& member(body, "note"@) == Some(JsonV::Null) ==> b.note is None
            &&& member(body, "note"@) matches Some(JsonV::Text(t)) ==> b.note == Some(t)
            &&& member(body, "kind"@) is None ==> b.kind == stored.kind
            &&& member(body, "kind"@) == Some(JsonV::Text("marker"@)) ==> b.kind is Marker
            &&& member(body, "kind"@) == Some(JsonV::Text("bookmark"@)) ==> b.kind is Bookmark
        },
{
    reveal_strlit("marker");
    reveal_strlit("bookmark");
    assert("marker"@.len() != "bookmark"@.len());
}

/// A sweep that is priced is the one that the query writes; a query that says nothing prices none,
/// and one that gives one end of a range is refused.
pub proof fn a_proposal_is_what_the_query_writes(query: Seq<(Seq<char>, Seq<char>)>)
    ensures
        scan_proposal_of(query) matches Ok(p) ==> {
            let lo = value_of(query, "f_lo_hz"@);
            let hi = value_of(query, "f_hi_hz"@);
            let dwell = value_of(query, "dwell_s"@);
            let step = value_of(query, "step"@);
            &&& lo is Some <==> hi is Some
            &&& p is None <==> lo is None && hi is None && dwell is None && step is None
            &&& p matches Some(r) ==> {
                &&& r.freq is None <==> lo is None
                &&& r.freq matches Some(f) ==> text_real(lo->0) == Some(f.lo) && text_real(hi->0)
                    == Some(f.hi)
                &&& r.dwell_s is None <==> dwell is None
                &&& r.dwell_s matches Some(x) ==> text_real(dwell->0) == Some(x)
                &&& r.step is None <==> step is None
                &&& r.step == Some(ScanStep::Fine) <==> step == Some("fine"@)
                &&& r.step == Some(ScanStep::Coarse) <==> step == Some("coarse"@)
            }
        },
        scan_proposal_of(query) matches Err(f) ==> f.status == 400,
{
    reveal_strlit("fine");
    reveal_strlit("coarse");
    assert("fine"@.len() != "coarse"@.len());
}

/// A read of bookmarks needs their store; the state of the server needs nothing; what a store refuses
/// is answered by what it is.
pub proof fn reads_need_their_store(
    query: Seq<(Seq<char>, Seq<char>)>,
    server: Available,
    id: Id,
    e: RepoError,
)
    ensures
        read_planned(Action::State, query, server) is Ok,
        read_planned(Action::ListBookmarks, query, server) is Ok <==> server.bookmarks,
        read_planned(Action::GetBookmark(id), query, server) == (if server.bookmarks {
            Ok::<ReadCommand, FailV>(ReadCommand::Bookmark(id))
        } else {
            Err(no_bookmarks_v())
        }),
        no_bookmarks_v().status == 503,
        no_run_v().status == 503,
        not_live_v().status == 409,
        repo_fail_of(e).status == (match e {
            RepoError::Invalid(_) => 400u16,
            RepoError::NotFound => 404u16,
            RepoError::Other(_) => 500u16,
        }),
        e matches RepoError::Invalid(m) ==> repo_fail_of(e).message == m@,
{
}

/// What a reader finds of a bookmark.
pub proof fn a_bookmark_is_written_whole(b: Bookmark)
    ensures
        at(b.json_v(), "id"@) == Some(text_v(b.id@)),
        at(b.json_v(), "kind"@) == Some(text_v(b.kind.wire())),
        at(b.json_v(), "name"@) == Some(text_v(b.name@)),
        at(b.json_v(), "f_center_hz"@) == Some(real_v(b.f_center_hz)),
        at(b.json_v(), "bandwidth_hz"@) == Some(opt_real_v(b.bandwidth_hz)),
        at(b.json_v(), "note"@) == Some(opt_text_v(opt_string(b.note))),
        at(b.json_v(), "created_s"@) == Some(seconds_v(b.created_at)),
        at(b.json_v(), "updated_s"@) == Some(seconds_v(b.updated_at)),
{
    let f = b.json_v()->Object_0;
    member_is_the_first(f, "id"@, 0);
    assert("id"@ != "kind"@) by {
        reveal_strlit("id");
        reveal_strlit("kind");
        assert("id"@.len() != "kind"@.len());
    }
    member_is_the_first(f, "kind"@, 1);
    assert("id"@ != "name"@) by {
        reveal_strlit("id");
        reveal_strlit("name");
        assert("id"@.len() != "name"@.len());
    }
    assert("kind"@ != "name"@) by {
        reveal_strlit("kind");
        reveal_strlit("name");
        assert("kind"@[0] != "name"@[0]);
    }
    member_is_the_first(f, "name"@, 2);
    assert("id"@ != "f_center_hz"@) by {
        reveal_strlit("id");
        reveal_strlit("f_center_hz");
        assert("id"@.len() != "f_center_hz"@.len());
    }
    assert("kind"@ != "f_center_hz"@) by {
        reveal_strlit("kind");
        reveal_strlit("f_center_hz");
        assert("kind"@.len() != "f_center_hz"@.len());
    }
    assert("name"@ != "f_center_hz"@) by {
        reveal_strlit("name");
        reveal_strlit("f_center_hz");
        assert("name"@.len() != "f_center_hz"@.len());
    }
    member_is_the_first(f, "f_center_hz"@, 3);
    assert("id"@ != "bandwidth_hz"@) by {
        reveal_strlit("id");
        reveal_strlit("bandwidth_hz");
        assert("id"@.len() != "bandwidth_hz"@.len());
    }
    assert("kind"@ != "bandwidth_hz"@) by {
        reveal_strlit("kind");
        reveal_strlit("bandwidth_hz");
        assert("kind"@.len() != "bandwidth_hz"@.len());
    }
    assert("name"@ != "bandwidth_hz"@) by {
        reveal_strlit("name");
        reveal_strlit("bandwidth_hz");
        assert("name"@.len() != "bandwidth_hz"@.len());
    }
    assert("f_center_hz"@ != "bandwidth_hz"@) by {
        reveal_strlit("f_center_hz");
        reveal_strlit("bandwidth_hz");
        assert("f_center_hz"@.len() != "bandwidth_hz"@.len());
    }
    member_is_the_first(f, "bandwidth_hz"@, 4);
    assert("id"@ != "note"@) by {
        reveal_strlit("id");
        reveal_strlit("note");
        assert("id"@.len() != "note"@.len());
    }
    assert("kind"@ != "note"@) by {
        reveal_strlit("kind");
        reveal_strlit("note");
        assert("kind"@[0] != "note"@[0]);
    }
    assert("name"@ != "note"@) by {
        reveal_strlit("name");
        reveal_strlit("note");
        assert("name"@[1] != "note"@[1]);
    }
    assert("f_center_hz"@ != "note"@) by {
        reveal_strlit("f_center_hz");
        reveal_strlit("note");
        assert("f_center_hz"@.len() != "note"@.len());
    }
    assert("bandwidth_hz"@ != "note"@) by {
        reveal_strlit("bandwidth_hz");
        reveal_strlit("note");
        assert("bandwidth_hz"@.len() != "note"@.len());
    }
    member_is_the_first(f, "note"@, 5);
    assert("id"@ != "created_s"@) by {
        reveal_strlit("id");
        reveal_strlit("created_s");
        assert("id"@.len() != "created_s"@.len());
    }
    assert("kind"@ != "created_s"@) by {
        reveal_strlit("kind");
        reveal_strlit("created_s");
        assert("kind"@.len() != "created_s"@.len());
    }
    assert("name"@ != "created_s"@) by {
        reveal_strlit("name");
        reveal_strlit("created_s");
        assert("name"@.len() != "created_s"@.len());
    }
    assert("f_center_hz"@ != "created_s"@) by {
        reveal_strlit("f_center_hz");
        reveal_strlit("created_s");
        assert("f_center_hz"@.len() != "created_s"@.len());
    }
    assert("bandwidth_hz"@ != "created_s"@) by {
        reveal_strlit("bandwidth_hz");
        reveal_strlit("created_s");
        assert("bandwidth_hz"@.len() != "created_s"@.len());
    }
    assert("note"@ != "created_s"@) by {
        reveal_strlit("note");
        reveal_strlit("created_s");
        assert("note"@.len() != "created_s"@.len());
    }
    member_is_the_first(f, "created_s"@, 6);
    assert("id"@ != "updated_s"@) by {
        reveal_strlit("id");
        reveal_strlit("updated_s");
        assert("id"@.len() != "updated_s"@.len());
    }
    assert("kind"@ != "updated_s"@) by {
        reveal_strlit("kind");
        reveal_strlit("updated_s");
        assert("kind"@.len() != "updated_s"@.len());
    }
    assert("name"@ != "updated_s"@) by {
        reveal_strlit("name");
        reveal_strlit("updated_s");
        assert("name"@.len() != "updated_s"@.len());
    }
    assert("f_center_hz"@ != "updated_s"@) by {
        reveal_strlit("f_center_hz");
        reveal_strlit("updated_s");
        assert("f_center_hz"@.len() != "updated_s"@.len());
    }
    assert("bandwidth_hz"@ != "updated_s"@) by {
        reveal_strlit("bandwidth_hz");
        reveal_strlit("updated_s");
        assert("bandwidth_hz"@.len() != "updated_s"@.len());
    }
    assert("note"@ != "updated_s"@) by {
        reveal_strlit("note");
        reveal_strlit("updated_s");
        assert("note"@.len() != "updated_s"@.len());
    }
    assert("created_s"@ != "updated_s"@) by {
        reveal_strlit("created_s");
        reveal_strlit("updated_s");
        assert("created_s"@[0] != "updated_s"@[0]);
    }
    member_is_the_first(f, "updated_s"@, 7);
}

} // verus!
