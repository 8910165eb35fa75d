//! The control API: device, display, recording and bookmark actions.
//!
//! **Receive only**: no action reaches a transmit path, and the state says so.
//!
//! A request resolves to an [`Action`]; a mutating one is planned into a [`Command`] from its body
//! and what the server has, the embedding program carries the command out, and the outcome becomes
//! an answer and an audit entry. [`Action::reach`] says what an action does to the front end:
//! performs a device action, commissions a programme of them, or changes the view only.

use vstd::prelude::*;

use crate::body::{only, text};
use crate::double::Real;
use crate::json::{
    at, list, list_v, member, member_is_the_first, member_set, no_fields, opt_real_v, opt_text_v,
    opt_uint_v, other_members_stay, real_v, text_v, uint_v, with_member, Fields, Items, Json, JsonV,
    ToJson,
};
use crate::routes::{route_table, routes, table_view};
use crate::text::{
    a_remainder_is_what_else_is_there, begins, opt_string, opt_text, same, starts_with,
    strip_prefix, without_prefix,
};

verus! {

/// The identity of a stored row.
#[derive(Clone, Copy, Debug, PartialEq, Eq, Structural)]
pub struct Id {
    /// The 128 bits.
    pub value: u128,
}

// ---------------------------------------------------------------------------------------------
// Actions
// ---------------------------------------------------------------------------------------------

/// What may be done to a front end.
#[derive(Clone, Copy, Debug, PartialEq, Eq, Structural)]
pub enum DeviceAction {
    /// Another centre frequency.
    Retune,
    /// Another sample rate.
    Rate,
    /// Centre and rate together.
    Window,
    /// Other gains.
    Gains,
    /// The bias tee.
    BiasTee,
    /// The baseband filter.
    BasebandFilter,
}

impl DeviceAction {
    /// The wire name.
    pub open spec fn wire(self) -> Seq<char> {
        match self {
            DeviceAction::Retune => "retune"@,
            DeviceAction::Rate => "rate"@,
            DeviceAction::Window => "window"@,
            DeviceAction::Gains => "gains"@,
            DeviceAction::BiasTee => "bias_tee"@,
            DeviceAction::BasebandFilter => "baseband_filter"@,
        }
    }

    /// The wire name.
    pub fn as_str(self) -> (r: &'static str)
        ensures
            r@ == self.wire(),
    {
        match self {
            DeviceAction::Retune => "retune",
            DeviceAction::Rate => "rate",
            DeviceAction::Window => "window",
            DeviceAction::Gains => "gains",
            DeviceAction::BiasTee => "bias_tee",
            DeviceAction::BasebandFilter => "baseband_filter",
        }
    }
}

/// A control action.
#[derive(Clone, Copy, Debug, PartialEq, Eq, Structural)]
pub enum Action {
    /// Read the state.
    State,
    /// Set the centre frequency.
    Center,
    /// Set the sample rate.
    Rate,
    /// Centre and rate as one device action.
    Window,
    /// Set gains.
    Gains,
    /// Switch the bias tee.
    BiasTee,
    /// Set the baseband filter.
    BasebandFilter,
    /// Change the display.
    Display,
    /// Read where the sweep is.
    ScanState,
    /// Start or resume a sweep.
    ScanStart,
    /// Stop the sweep.
    ScanStop,
    /// Start a recording.
    RecordStart,
    /// Stop the recording.
    RecordStop,
    /// List the bookmarks.
    ListBookmarks,
    /// Create a bookmark.
    CreateBookmark,
    /// Read a bookmark.
    GetBookmark(Id),
    /// Change a bookmark.
    UpdateBookmark(Id),
    /// Delete a bookmark.
    DeleteBookmark(Id),
}

/// What a control action does to the front end.
#[derive(Clone, Copy, Debug, PartialEq, Eq, Structural)]
pub enum Reach {
    /// Performs this device action within the call.
    Device(DeviceAction),
    /// Performs none itself, but commits the front end to a programme of this action.
    Commissions(DeviceAction),
    /// Changes only what is shown or stored.
    View,
}

impl Action {
    /// The name in the audit log.
    pub open spec fn audit_name(self) -> Seq<char> {
        match self {
            Action::State => "state"@,
            Action::Center => "center"@,
            Action::Rate => "rate"@,
            Action::Window => "window"@,
            Action::Gains => "gains"@,
            Action::BiasTee => "bias_tee"@,
            Action::BasebandFilter => "baseband_filter"@,
            Action::Display => "display"@,
            Action::ScanState => "scan_state"@,
            Action::ScanStart => "scan_start"@,
            Action::ScanStop => "scan_stop"@,
            Action::RecordStart => "record_start"@,
            Action::RecordStop => "record_stop"@,
            Action::ListBookmarks => "bookmarks_list"@,
            Action::CreateBookmark => "bookmark_create"@,
            Action::GetBookmark(_) => "bookmark_get"@,
            Action::UpdateBookmark(_) => "bookmark_update"@,
            Action::DeleteBookmark(_) => "bookmark_delete"@,
        }
    }

    /// The name in the audit log.
    pub fn name(self) -> (r: &'static str)
        ensures
            r@ == self.audit_name(),
    {
        match self {
            Action::State => "state",
            Action::Center => "center",
            Action::Rate => "rate",
            Action::Window => "window",
            Action::Gains => "gains",
            Action::BiasTee => "bias_tee",
            Action::BasebandFilter => "baseband_filter",
            Action::Display => "display",
            Action::ScanState => "scan_state",
            Action::ScanStart => "scan_start",
            Action::ScanStop => "scan_stop",
            Action::RecordStart => "record_start",
            Action::RecordStop => "record_stop",
            Action::ListBookmarks => "bookmarks_list",
            Action::CreateBookmark => "bookmark_create",
            Action::GetBookmark(_) => "bookmark_get",
            Action::UpdateBookmark(_) => "bookmark_update",
            Action::DeleteBookmark(_) => "bookmark_delete",
        }
    }

    /// The action only reads.
    pub open spec fn reads(self) -> bool {
        self is State || self is ScanState || self is ListBookmarks || self is GetBookmark
    }

    /// Every action but a read changes something.
    pub fn mutating(self) -> (r: bool)
        ensures
            r == !self.reads(),
    {
        match self {
            Action::State | Action::ScanState | Action::ListBookmarks | Action::GetBookmark(_) => {
                false
            },
            _ => true,
        }
    }

    /// What the action does to the front end.
    pub open spec fn reach_of(self) -> Reach {
        match self {
            Action::Center => Reach::Device(DeviceAction::Retune),
            Action::Rate => Reach::Device(DeviceAction::Rate),
            Action::Window => Reach::Device(DeviceAction::Window),
            Action::Gains => Reach::Device(DeviceAction::Gains),
            Action::BiasTee => Reach::Device(DeviceAction::BiasTee),
            Action::BasebandFilter => Reach::Device(DeviceAction::BasebandFilter),
            Action::ScanStart => Reach::Commissions(DeviceAction::Retune),
            _ => Reach::View,
        }
    }

    /// [`Action::reach_of`]. Every action has to choose a side.
    pub fn reach(self) -> (r: Reach)
        ensures
            r == self.reach_of(),
    {
        match self {
            Action::Center => Reach::Device(DeviceAction::Retune),
            Action::Rate => Reach::Device(DeviceAction::Rate),
            Action::Window => Reach::Device(DeviceAction::Window),
            Action::Gains => Reach::Device(DeviceAction::Gains),
            Action::BiasTee => Reach::Device(DeviceAction::BiasTee),
            Action::BasebandFilter => Reach::Device(DeviceAction::BasebandFilter),
            Action::ScanStart => Reach::Commissions(DeviceAction::Retune),
            Action::ScanStop
            | Action::ScanState
            | Action::State
            | Action::Display
            | Action::RecordStart
            | Action::RecordStop
            | Action::ListBookmarks
            | Action::CreateBookmark
            | Action::GetBookmark(_)
            | Action::UpdateBookmark(_)
            | Action::DeleteBookmark(_) => Reach::View,
        }
    }

    /// The device action that the action performs within the call.
    pub open spec fn performs(self) -> Option<DeviceAction> {
        match self.reach_of() {
            Reach::Device(d) => Some(d),
            _ => None,
        }
    }

    /// [`Action::performs`]: to commission actions for later is not to perform one.
    pub fn device_action(self) -> (r: Option<DeviceAction>)
        ensures
            r == self.performs(),
    {
        match self.reach() {
            Reach::Device(a) => Some(a),
            Reach::Commissions(_) | Reach::View => None,
        }
    }
}

/// What a method and path resolve to: an action, the methods that the path takes, or no endpoint.
pub type Resolved = Result<Action, Option<&'static str>>;

/// The action where `method` is the one that the path takes, else what it takes.
pub open spec fn picked(method: Seq<char>, allow: Seq<char>, action: Action) -> Result<
    Action,
    Option<Seq<char>>,
> {
    if method == allow {
        Ok(action)
    } else {
        Err(Some(allow))
    }
}

/// What stands behind `/api/control/` resolves to.
pub open spec fn control_action(method: Seq<char>, rest: Seq<char>) -> Result<
    Action,
    Option<Seq<char>>,
> {
    if rest == "state"@ {
        picked(method, "GET"@, Action::State)
    } else if rest == "center"@ {
        picked(method, "POST"@, Action::Center)
    } else if rest == "rate"@ {
        picked(method, "POST"@, Action::Rate)
    } else if rest == "window"@ {
        picked(method, "POST"@, Action::Window)
    } else if rest == "gains"@ {
        picked(method, "POST"@, Action::Gains)
    } else if rest == "bias_tee"@ {
        picked(method, "POST"@, Action::BiasTee)
    } else if rest == "baseband_filter"@ {
        picked(method, "POST"@, Action::BasebandFilter)
    } else if rest == "display"@ {
        picked(method, "POST"@, Action::Display)
    } else if rest == "scan"@ {
        if method == "GET"@ {
            Ok(Action::ScanState)
        } else if method == "POST"@ {
            Ok(Action::ScanStart)
        } else {
            Err(Some("GET, POST"@))
        }
    } else if rest == "scan/stop"@ {
        picked(method, "POST"@, Action::ScanStop)
    } else if rest == "record/start"@ {
        picked(method, "POST"@, Action::RecordStart)
    } else if rest == "record/stop"@ {
        picked(method, "POST"@, Action::RecordStop)
    } else {
        Err(None)
    }
}

/// The text in a path that should be the identity of a bookmark.
pub open spec fn path_id_of(path: Seq<char>) -> Option<Seq<char>> {
    without_prefix(path, "/api/bookmarks/"@)
}

/// [`path_id_of`].
pub fn path_id(path: &str) -> (r: Option<&str>)
    ensures
        opt_text(r) == path_id_of(path@),
{
    strip_prefix(path, "/api/bookmarks/")
}

/// What `(method, path)` resolves to; `None` where `path` is not a control path. `id` is the
/// bookmark that the text of [`path_id_of`] names, where it names one.
pub open spec fn resolved(method: Seq<char>, path: Seq<char>, id: Option<Id>) -> Option<
    Result<Action, Option<Seq<char>>>,
> {
    match without_prefix(path, "/api/control/"@) {
        Some(rest) => Some(control_action(method, rest)),
        None => if path == "/api/bookmarks"@ {
            Some(
                if method == "GET"@ {
                    Ok(Action::ListBookmarks)
                } else if method == "POST"@ {
                    Ok(Action::CreateBookmark)
                } else {
                    Err(Some("GET, POST"@))
                },
            )
        } else if begins(path, "/api/bookmarks/"@) {
            Some(
                match id {
                    None => Err(None),
                    Some(id) => if method == "GET"@ {
                        Ok(Action::GetBookmark(id))
                    } else if method == "PUT"@ {
                        Ok(Action::UpdateBookmark(id))
                    } else if method == "DELETE"@ {
                        Ok(Action::DeleteBookmark(id))
                    } else {
                        Err(Some("GET, PUT, DELETE"@))
                    },
                },
            )
        } else if path == "/api/control"@ {
            Some(Err(None))
        } else {
            None
        },
    }
}

/// What a resolution holds.
pub open spec fn resolved_view(r: Option<Resolved>) -> Option<Result<Action, Option<Seq<char>>>> {
    match r {
        None => None,
        Some(Ok(a)) => Some(Ok(a)),
        Some(Err(allow)) => Some(Err(opt_text(allow))),
    }
}

fn pick(method: &str, allow: &'static str, action: Action) -> (r: Resolved)
    ensures
        resolved_view(Some(r)) == Some(picked(method@, allow@, action)),
{
    if same(method, allow) {
        Ok(action)
    } else {
        Err(Some(allow))
    }
}

fn resolve_control(method: &str, rest: &str) -> (r: Resolved)
    ensures
        resolved_view(Some(r)) == Some(control_action(method@, rest@)),
{
    if same(rest, "state") {
        pick(method, "GET", Action::State)
    } else if same(rest, "center") {
        pick(method, "POST", Action::Center)
    } else if same(rest, "rate") {
        pick(method, "POST", Action::Rate)
    } else if same(rest, "window") {
        pick(method, "POST", Action::Window)
    } else if same(rest, "gains") {
        pick(method, "POST", Action::Gains)
    } else if same(rest, "bias_tee") {
        pick(method, "POST", Action::BiasTee)
    } else if same(rest, "baseband_filter") {
        pick(method, "POST", Action::BasebandFilter)
    } else if same(rest, "display") {
        pick(method, "POST", Action::Display)
    } else if same(rest, "scan") {
        if same(method, "GET") {
            Ok(Action::ScanState)
        } else if same(method, "POST") {
            Ok(Action::ScanStart)
        } else {
            Err(Some("GET, POST"))
        }
    } else if same(rest, "scan/stop") {
        pick(method, "POST", Action::ScanStop)
    } else if same(rest, "record/start") {
        pick(method, "POST", Action::RecordStart)
    } else if same(rest, "record/stop") {
        pick(method, "POST", Action::RecordStop)
    } else {
        Err(None)
    }
}

/// [`resolved`].
pub fn resolve(method: &str, path: &str, id: Option<Id>) -> (r: Option<Resolved>)
    ensures
        resolved_view(r) == resolved(method@, path@, id),
{
    if let Some(rest) = strip_prefix(path, "/api/control/") {
        return Some(resolve_control(method, rest));
    }
    if same(path, "/api/bookmarks") {
        return Some(
            if same(method, "GET") {
                Ok(Action::ListBookmarks)
            } else if same(method, "POST") {
                Ok(Action::CreateBookmark)
            } else {
                Err(Some("GET, POST"))
            },
        );
    }
    if starts_with(path, "/api/bookmarks/") {
        return Some(
            match id {
                None => Err(None),
                Some(id) => if same(method, "GET") {
                    Ok(Action::GetBookmark(id))
                } else if same(method, "PUT") {
                    Ok(Action::UpdateBookmark(id))
                } else if same(method, "DELETE") {
                    Ok(Action::DeleteBookmark(id))
                } else {
                    Err(Some("GET, PUT, DELETE"))
                },
            },
        );
    }
    if same(path, "/api/control") {
        return Some(Err(None));
    }
    None
}

/// A control path.
pub fn is_control_path(path: &str) -> (r: bool)
    ensures
        r == (begins(path@, "/api/control/"@) || path@ == "/api/bookmarks"@ || begins(
            path@,
            "/api/bookmarks/"@,
        )),
{
    starts_with(path, "/api/control/") || same(path, "/api/bookmarks") || starts_with(
        path,
        "/api/bookmarks/",
    )
}

/// Exactly six paths reach the front end, each by POST, each with its own device action; the rest
/// of the control API performs none.
pub proof fn six_routes_reach_the_front_end(
    method: Seq<char>,
    path: Seq<char>,
    id: Option<Id>,
    a: Action,
    d: DeviceAction,
)
    requires
        resolved(method, path, id) == Some(Ok::<Action, Option<Seq<char>>>(a)),
        a.performs() == Some(d),
    ensures
        method == "POST"@,
        path == "/api/control/"@ + (match d {
            DeviceAction::Retune => "center"@,
            DeviceAction::Rate => "rate"@,
            DeviceAction::Window => "window"@,
            DeviceAction::Gains => "gains"@,
            DeviceAction::BiasTee => "bias_tee"@,
            DeviceAction::BasebandFilter => "baseband_filter"@,
        }),
{
    let p = "/api/control/"@;
    assert(begins(path, p));
    assert(path =~= p + path.skip(p.len() as int));
}

/// Only starting a sweep commissions device actions, by POST on its own path, and it performs none
/// itself.
pub proof fn only_a_sweep_commissions(
    method: Seq<char>,
    path: Seq<char>,
    id: Option<Id>,
    a: Action,
)
    requires
        resolved(method, path, id) == Some(Ok::<Action, Option<Seq<char>>>(a)),
        a.reach_of() is Commissions,
    ensures
        a == Action::ScanStart,
        method == "POST"@,
        path == "/api/control/"@ + "scan"@,
        a.performs() is None,
{
    let p = "/api/control/"@;
    assert(begins(path, p));
    assert(path =~= p + path.skip(p.len() as int));
}

/// A read performs nothing and commissions nothing: whatever reaches the front end is mutating,
/// hence needs the header token and the audit log.
pub proof fn reads_never_reach_the_front_end(a: Action)
    ensures
        a.reads() ==> a.reach_of() is View,
        !(a.reach_of() is View) ==> !a.reads(),
{
}

// ---------------------------------------------------------------------------------------------
// State
// ---------------------------------------------------------------------------------------------

/// Display settings of the spectrum stream.
#[derive(Debug)]
pub struct DisplayState {
    /// Bins per row.
    pub fft_size: usize,
    /// Rows in the exponential average (1 = off).
    pub averaging: u32,
    /// Requested rows per second.
    pub rows_per_s: Real,
    /// Analysis window for the published spectrum.
    pub window: String,
}

impl ToJson for DisplayState {
    open spec fn json_v(self) -> JsonV {
        JsonV::Object(
            no_fields().push(("fft_size"@, uint_v(self.fft_size as int))).push(
                ("averaging"@, uint_v(self.averaging as int)),
            ).push(("rows_per_s"@, real_v(self.rows_per_s))).push(
                ("window"@, text_v(self.window@)),
            ),
        )
    }

    fn to_json(&self) -> (r: Json) {
        let mut f = Fields::new();
        f.put("fft_size", Json::uint(self.fft_size as u64));
        f.put("averaging", Json::uint(self.averaging as u64));
        f.put("rows_per_s", Json::double(self.rows_per_s));
        f.put("window", Json::text(self.window.as_str()));
        f.object()
    }
}

/// A partial display update.
#[derive(Debug)]
pub struct DisplayUpdate {
    /// New FFT size.
    pub fft_size: Option<usize>,
    /// New averaging.
    pub averaging: Option<u32>,
    /// New row rate.
    pub rows_per_s: Option<Real>,
    /// New analysis window, by name; the pipeline validates it.
    pub window: Option<String>,
}

/// Bounds on the fields of a [`DisplayUpdate`].
#[derive(Debug)]
pub struct DisplayLimits {
    /// Smallest FFT size.
    pub fft_size_min: usize,
    /// Largest FFT size.
    pub fft_size_max: usize,
    /// Largest averaging.
    pub averaging_max: u32,
    /// Smallest row rate.
    pub rows_per_s_min: Real,
    /// Largest row rate.
    pub rows_per_s_max: Real,
    /// Accepted window names.
    pub windows: Vec<String>,
}

impl ToJson for DisplayLimits {
    open spec fn json_v(self) -> JsonV {
        JsonV::Object(
            no_fields().push(("fft_size_min"@, uint_v(self.fft_size_min as int))).push(
                ("fft_size_max"@, uint_v(self.fft_size_max as int)),
            ).push(("averaging_max"@, uint_v(self.averaging_max as int))).push(
                ("rows_per_s_min"@, real_v(self.rows_per_s_min)),
            ).push(("rows_per_s_max"@, real_v(self.rows_per_s_max))).push(
                ("windows"@, JsonV::Array(list_v(self.windows@))),
            ),
        )
    }

    fn to_json(&self) -> (r: Json) {
        let mut f = Fields::new();
        f.put("fft_size_min", Json::uint(self.fft_size_min as u64));
        f.put("fft_size_max", Json::uint(self.fft_size_max as u64));
        f.put("averaging_max", Json::uint(self.averaging_max as u64));
        f.put("rows_per_s_min", Json::double(self.rows_per_s_min));
        f.put("rows_per_s_max", Json::double(self.rows_per_s_max));
        f.put("windows", list(&self.windows));
        f.object()
    }
}

/// A manual recording's state.
#[derive(Debug)]
pub struct RecordingState {
    /// Still recording.
    pub active: bool,
    /// Recording id.
    pub id: Option<String>,
    /// User label.
    pub label: Option<String>,
    /// Centre, Hz.
    pub center_hz: Option<Real>,
    /// Sample rate, Hz.
    pub sample_rate_hz: Option<Real>,
    /// Samples written.
    pub samples: u64,
    /// Samples lost while recording.
    pub lost_samples: u64,
    /// Requested maximum, s.
    pub max_s: Real,
    /// The recording's row was stored.
    pub stored: bool,
    /// Why it ended.
    pub ended: Option<String>,
}

impl ToJson for RecordingState {
    open spec fn json_v(self) -> JsonV {
        JsonV::Object(
            no_fields().push(("active"@, JsonV::Bool(self.active))).push(
                ("id"@, opt_text_v(opt_string(self.id))),
            ).push(("label"@, opt_text_v(opt_string(self.label)))).push(
                ("center_hz"@, opt_real_v(self.center_hz)),
            ).push(("sample_rate_hz"@, opt_real_v(self.sample_rate_hz))).push(
                ("samples"@, uint_v(self.samples as int)),
            ).push(("lost_samples"@, uint_v(self.lost_samples as int))).push(
                ("max_s"@, real_v(self.max_s)),
            ).push(("stored"@, JsonV::Bool(self.stored))).push(
                ("ended"@, opt_text_v(opt_string(self.ended))),
            ),
        )
    }

    fn to_json(&self) -> (r: Json) {
        let mut f = Fields::new();
        f.put("active", Json::Bool(self.active));
        f.put("id", Json::opt_text(&self.id));
        f.put("label", Json::opt_text(&self.label));
        f.put("center_hz", Json::opt_double(self.center_hz));
        f.put("sample_rate_hz", Json::opt_double(self.sample_rate_hz));
        f.put("samples", Json::uint(self.samples));
        f.put("lost_samples", Json::uint(self.lost_samples));
        f.put("max_s", Json::double(self.max_s));
        f.put("stored", Json::Bool(self.stored));
        f.put("ended", Json::opt_text(&self.ended));
        f.object()
    }
}

/// Whether a run's front end is delivering samples.
#[derive(Clone, Copy, Debug, PartialEq, Eq, Structural)]
pub enum CaptureStatus {
    /// Samples are arriving.
    Running,
    /// Capture failed and is being restarted; the edge is not advancing.
    Recovering,
    /// The run has ended; nothing more will arrive.
    Ended,
}

impl Default for CaptureStatus {
    fn default() -> (r: Self)
        ensures
            r == CaptureStatus::Running,
    {
        CaptureStatus::Running
    }
}

impl CaptureStatus {
    /// The wire name.
    pub open spec fn wire(self) -> Seq<char> {
        match self {
            CaptureStatus::Running => "running"@,
            CaptureStatus::Recovering => "recovering"@,
            CaptureStatus::Ended => "ended"@,
        }
    }

    /// The wire name.
    pub fn as_str(self) -> (r: &'static str)
        ensures
            r@ == self.wire(),
    {
        match self {
            CaptureStatus::Running => "running",
            CaptureStatus::Recovering => "recovering",
            CaptureStatus::Ended => "ended",
        }
    }
}

/// The running pipeline as the control API sees it.
#[derive(Debug)]
pub struct RunState {
    /// Device settings can change (a live source).
    pub live: bool,
    /// The wire name of the content class in force.
    pub content_class: Option<String>,
    /// The class permits content.
    pub content_permitted: bool,
    /// Requested centre, Hz.
    pub center_hz: Real,
    /// Requested sample rate, Hz.
    pub sample_rate_hz: Real,
    /// Segment number (increments at every re-plumb).
    pub segment: u64,
    /// A re-plumb is in progress.
    pub replumbing: bool,
    /// The run has finished.
    pub finished: bool,
    /// Whether the front end is delivering samples.
    pub capture: CaptureStatus,
    /// Why capture is recovering or has ended.
    pub capture_note: Option<String>,
    /// Display settings.
    pub display: DisplayState,
    /// The current or last manual recording.
    pub recording: RecordingState,
}

impl ToJson for RunState {
    open spec fn json_v(self) -> JsonV {
        JsonV::Object(
            no_fields().push(("live"@, JsonV::Bool(self.live))).push(
                ("content_class"@, opt_text_v(opt_string(self.content_class))),
            ).push(("content_permitted"@, JsonV::Bool(self.content_permitted))).push(
                ("center_hz"@, real_v(self.center_hz)),
            ).push(("sample_rate_hz"@, real_v(self.sample_rate_hz))).push(
                ("segment"@, uint_v(self.segment as int)),
            ).push(("replumbing"@, JsonV::Bool(self.replumbing))).push(
                ("finished"@, JsonV::Bool(self.finished)),
            ).push(("capture"@, text_v(self.capture.wire()))).push(
                ("capture_note"@, opt_text_v(opt_string(self.capture_note))),
            ).push(("display"@, self.display.json_v())).push(
                ("recording"@, self.recording.json_v()),
            ),
        )
    }

    fn to_json(&self) -> (r: Json) {
        let mut f = Fields::new();
        f.put("live", Json::Bool(self.live));
        f.put("content_class", Json::opt_text(&self.content_class));
        f.put("content_permitted", Json::Bool(self.content_permitted));
        f.put("center_hz", Json::double(self.center_hz));
        f.put("sample_rate_hz", Json::double(self.sample_rate_hz));
        f.put("segment", Json::uint(self.segment));
        f.put("replumbing", Json::Bool(self.replumbing));
        f.put("finished", Json::Bool(self.finished));
        f.put("capture", Json::text(self.capture.as_str()));
        f.put("capture_note", Json::opt_text(&self.capture_note));
        f.put("display", self.display.to_json());
        f.put("recording", self.recording.to_json());
        f.object()
    }
}

/// A gain stage's setting.
#[derive(Debug, PartialEq, Eq)]
pub struct NamedGain {
    /// The stage.
    pub stage: String,
    /// The gain, dB.
    pub db: Real,
}

/// Whether the bias tee is on, where the device says.
#[derive(Clone, Copy, Debug, PartialEq, Eq, Structural)]
pub enum BiasTee {
    /// Nothing said.
    Unknown,
    /// Off.
    Off,
    /// On.
    On,
}

impl BiasTee {
    /// The wire name: three states, never a truth value that reads "nothing said" as "off".
    pub open spec fn wire(self) -> Seq<char> {
        match self {
            BiasTee::Unknown => "unknown"@,
            BiasTee::Off => "off"@,
            BiasTee::On => "on"@,
        }
    }

    /// The wire name.
    pub fn as_str(self) -> (r: &'static str)
        ensures
            r@ == self.wire(),
    {
        match self {
            BiasTee::Unknown => "unknown",
            BiasTee::Off => "off",
            BiasTee::On => "on",
        }
    }
}

/// The tuning in force.
#[derive(Debug)]
pub struct LiveTuning {
    /// Centre, Hz.
    pub center_hz: Real,
    /// Sample rate, Hz.
    pub sample_rate_hz: Real,
    /// Gains per stage.
    pub gains: Vec<NamedGain>,
    /// The bias tee.
    pub bias_tee: BiasTee,
    /// Baseband filter bandwidth, Hz.
    pub baseband_filter_hz: Option<Real>,
}

/// The gains as an object of stage to dB; of two settings of a stage the later stands.
pub open spec fn gains_fields(v: Seq<NamedGain>) -> Seq<(Seq<char>, JsonV)>
    decreases v.len(),
{
    if v.len() == 0 {
        Seq::empty()
    } else {
        with_member(gains_fields(v.drop_last()), v.last().stage@, real_v(v.last().db))
    }
}

fn gains_json(v: &Vec<NamedGain>) -> (r: Json)
    ensures
        r.view() == JsonV::Object(gains_fields(v@)),
{
    let mut out = Fields::new();
    let mut i: usize = 0;
    assert(v@.take(0) =~= Seq::empty());
    while i < v.len()
        invariant
            i <= v@.len(),
            out@ == gains_fields(v@.take(i as int)),
        decreases v@.len() - i,
    {
        assert(v@.take(i + 1).drop_last() =~= v@.take(i as int));
        out.set(v[i].stage.clone(), Json::double(v[i].db));
        i += 1;
    }
    assert(v@.take(v@.len() as int) =~= v@);
    out.object()
}

impl ToJson for LiveTuning {
    open spec fn json_v(self) -> JsonV {
        JsonV::Object(
            no_fields().push(("center_hz"@, real_v(self.center_hz))).push(
                ("sample_rate_hz"@, real_v(self.sample_rate_hz)),
            ).push(("gains"@, JsonV::Object(gains_fields(self.gains@)))).push(
                ("bias_tee"@, text_v(self.bias_tee.wire())),
            ).push(("baseband_filter_hz"@, opt_real_v(self.baseband_filter_hz))),
        )
    }

    fn to_json(&self) -> (r: Json) {
        let mut f = Fields::new();
        f.put("center_hz", Json::double(self.center_hz));
        f.put("sample_rate_hz", Json::double(self.sample_rate_hz));
        f.put("gains", gains_json(&self.gains));
        f.put("bias_tee", Json::text(self.bias_tee.as_str()));
        f.put("baseband_filter_hz", Json::opt_double(self.baseband_filter_hz));
        f.object()
    }
}

/// A range of values or a list of them.
#[derive(Debug)]
pub enum Choices {
    /// Anything between the two.
    Continuous(Real, Real),
    /// One of these.
    Discrete(Vec<Real>),
}

/// The choices under the member names given.
pub open spec fn choices_v(
    c: Choices,
    min: Seq<char>,
    max: Seq<char>,
    values: Seq<char>,
) -> JsonV {
    match c {
        Choices::Continuous(lo, hi) => JsonV::Object(
            no_fields().push((min, real_v(lo))).push((max, real_v(hi))),
        ),
        Choices::Discrete(v) => JsonV::Object(
            no_fields().push((values, JsonV::Array(list_v(v@)))),
        ),
    }
}

fn choices_json(c: &Choices, min: &str, max: &str, values: &str) -> (r: Json)
    ensures
        r.view() == choices_v(*c, min@, max@, values@),
{
    let mut f = Fields::new();
    match c {
        Choices::Continuous(lo, hi) => {
            f.put(min, Json::double(*lo));
            f.put(max, Json::double(*hi));
        },
        Choices::Discrete(v) => {
            f.put(values, list(v));
        },
    }
    f.object()
}

/// One frequency range, Hz.
#[derive(Clone, Copy, Debug, PartialEq, Eq, Structural)]
pub struct Span {
    /// The lower end.
    pub lo: Real,
    /// The upper end.
    pub hi: Real,
}

impl Span {
    /// Some frequency is inside both: touching at an end is no overlap.
    pub open spec fn overlaps_band(self, other: Span) -> bool {
        self.lo.below(other.hi) && other.lo.below(self.hi)
    }

    /// [`Span::overlaps_band`].
    pub fn overlaps(&self, other: &Span) -> (r: bool)
        ensures
            r == self.overlaps_band(*other),
    {
        self.lo.lt(other.hi) && other.lo.lt(self.hi)
    }
}

impl ToJson for Span {
    open spec fn json_v(self) -> JsonV {
        JsonV::Array(Seq::empty().push(real_v(self.lo)).push(real_v(self.hi)))
    }

    fn to_json(&self) -> (r: Json) {
        let mut a = Items::new();
        a.push(Json::double(self.lo));
        a.push(Json::double(self.hi));
        a.array()
    }
}

/// One gain stage of a device.
#[derive(Debug)]
pub struct GainStage {
    /// The stage.
    pub name: String,
    /// Least gain, dB.
    pub min_db: Real,
    /// Most gain, dB.
    pub max_db: Real,
    /// Step, dB.
    pub step_db: Real,
}

impl ToJson for GainStage {
    open spec fn json_v(self) -> JsonV {
        JsonV::Object(
            no_fields().push(("name"@, text_v(self.name@))).push(
                ("min_db"@, real_v(self.min_db)),
            ).push(("max_db"@, real_v(self.max_db))).push(("step_db"@, real_v(self.step_db))),
        )
    }

    fn to_json(&self) -> (r: Json) {
        let mut f = Fields::new();
        f.put("name", Json::text(self.name.as_str()));
        f.put("min_db", Json::double(self.min_db));
        f.put("max_db", Json::double(self.max_db));
        f.put("step_db", Json::double(self.step_db));
        f.object()
    }
}

/// What a source can do.
#[derive(Debug)]
pub struct SourceCapabilities {
    /// The driver.
    pub driver: String,
    /// Hardware; else a replay.
    pub hardware: bool,
    /// Settings can change.
    pub controllable: bool,
    /// The frequencies it tunes.
    pub frequency_ranges: Vec<Span>,
    /// The sample rates it takes.
    pub sample_rates: Choices,
    /// What it says of its tuning step.
    pub tuning_step: String,
    /// The step, where it is known.
    pub tuning_step_hz: Option<Real>,
    /// Its gain stages.
    pub gain_stages: Vec<GainStage>,
    /// It has a bias tee.
    pub bias_tee: bool,
    /// Its baseband filter.
    pub baseband_filter: Option<Choices>,
    /// Converter bits.
    pub adc_bits: Option<u64>,
    /// A hardware descriptor only: the API has no transmit operation.
    pub tx_capable: bool,
}

impl SourceCapabilities {
    /// The source's capabilities, with its provenance identity where it reports one.
    pub open spec fn device_v(self, id: Option<Seq<char>>) -> JsonV {
        JsonV::Object(
            no_fields().push(("device_id"@, opt_text_v(id))).push(
                ("driver"@, text_v(self.driver@)),
            ).push(
                (
                    "kind"@,
                    text_v(
                        if self.hardware {
                            "hardware"@
                        } else {
                            "replay"@
                        },
                    ),
                ),
            ).push(("controllable"@, JsonV::Bool(self.controllable))).push(
                ("frequency_ranges_hz"@, JsonV::Array(list_v(self.frequency_ranges@))),
            ).push(
                ("sample_rates_hz"@, choices_v(self.sample_rates, "min"@, "max"@, "values"@)),
            ).push(("tuning_step"@, text_v(self.tuning_step@))).push(
                ("tuning_step_hz"@, opt_real_v(self.tuning_step_hz)),
            ).push(("gain_stages"@, JsonV::Array(list_v(self.gain_stages@)))).push(
                ("bias_tee"@, JsonV::Bool(self.bias_tee)),
            ).push(
                (
                    "baseband_filter"@,
                    match self.baseband_filter {
                        Some(c) => choices_v(c, "min_hz"@, "max_hz"@, "values_hz"@),
                        None => JsonV::Null,
                    },
                ),
            ).push(("adc_bits"@, opt_uint_v(self.adc_bits))).push(
                ("tx_capable_hardware"@, JsonV::Bool(self.tx_capable)),
            ),
        )
    }

    /// [`SourceCapabilities::device_v`].
    pub fn device_json(&self, id: &Option<String>) -> (r: Json)
        ensures
            r.view() == self.device_v(opt_string(*id)),
    {
        let mut f = Fields::new();
        f.put("device_id", Json::opt_text(id));
        f.put("driver", Json::text(self.driver.as_str()));
        f.put(
            "kind",
            Json::text(
                if self.hardware {
                    "hardware"
                } else {
                    "replay"
                },
            ),
        );
        f.put("controllable", Json::Bool(self.controllable));
        f.put("frequency_ranges_hz", list(&self.frequency_ranges));
        f.put("sample_rates_hz", choices_json(&self.sample_rates, "min", "max", "values"));
        f.put("tuning_step", Json::text(self.tuning_step.as_str()));
        f.put("tuning_step_hz", Json::opt_double(self.tuning_step_hz));
        f.put("gain_stages", list(&self.gain_stages));
        f.put("bias_tee", Json::Bool(self.bias_tee));
        f.put(
            "baseband_filter",
            match &self.baseband_filter {
                Some(c) => choices_json(c, "min_hz", "max_hz", "values_hz"),
                None => Json::Null,
            },
        );
        f.put("adc_bits", Json::opt_uint(self.adc_bits));
        f.put("tx_capable_hardware", Json::Bool(self.tx_capable));
        f.object()
    }
}

/// One row of the route table.
pub open spec fn route_v(row: (Seq<char>, Seq<char>)) -> JsonV {
    JsonV::Object(no_fields().push(("method"@, text_v(row.0))).push(("path"@, text_v(row.1))))
}

/// The route table.
pub open spec fn routes_v() -> Seq<JsonV> {
    route_table().map_values(|row: (Seq<char>, Seq<char>)| route_v(row))
}

fn routes_json() -> (r: Json)
    ensures
        r.view() == JsonV::Array(routes_v()),
{
    let t = routes();
    let mut out = Items::new();
    let mut i: usize = 0;
    let ghost all = table_view(t@);
    let ghost want = all.map_values(|row: (Seq<char>, Seq<char>)| route_v(row));
    assert(want.take(0) =~= Seq::empty());
    while i < t.len()
        invariant
            all == table_view(t@),
            want == all.map_values(|row: (Seq<char>, Seq<char>)| route_v(row)),
            i <= t@.len(),
            out@ == want.take(i as int),
        decreases t@.len() - i,
    {
        let mut f = Fields::new();
        f.put("method", Json::text(t[i].0));
        f.put("path", Json::text(t[i].1));
        assert(want[i as int] == route_v((t@[i as int].0@, t@[i as int].1@)));
        assert(want.take(i + 1) =~= want.take(i as int).push(want[i as int]));
        out.push(f.object());
        i += 1;
    }
    assert(want.take(t@.len() as int) =~= want);
    out.array()
}

/// What the server runs, as its state says it.
pub struct Snapshot {
    /// The front end's identity where it reports one, its capabilities and its tuning, where there
    /// is a front end.
    pub live: Option<(Option<String>, SourceCapabilities, LiveTuning)>,
    /// The pipeline's state and display limits, where one runs.
    pub run: Option<(RunState, DisplayLimits)>,
    /// The sweep's state, where one can run.
    pub scan: Option<Json>,
    /// There is an audit log.
    pub audit: bool,
}

/// An optional value, or `null`.
pub open spec fn opt_json_v(j: Option<Json>) -> JsonV {
    match j {
        Some(j) => j.view(),
        None => JsonV::Null,
    }
}

fn opt_json(j: &Option<Json>) -> (r: Json)
    ensures
        r.view() == opt_json_v(*j),
{
    match j {
        Some(j) => j.copy(),
        None => Json::Null,
    }
}

impl ToJson for Snapshot {
    open spec fn json_v(self) -> JsonV {
        JsonV::Object(
            no_fields().push(("live"@, JsonV::Bool(self.live is Some))).push(
                (
                    "device"@,
                    match self.live {
                        Some((id, c, _)) => c.device_v(opt_string(id)),
                        None => JsonV::Null,
                    },
                ),
            ).push(
                (
                    "tuning"@,
                    match self.live {
                        Some((_, _, t)) => t.json_v(),
                        None => JsonV::Null,
                    },
                ),
            ).push(
                (
                    "run"@,
                    match self.run {
                        Some((r, _)) => r.json_v(),
                        None => JsonV::Null,
                    },
                ),
            ).push(("scan"@, opt_json_v(self.scan))).push(
                (
                    "display_limits"@,
                    match self.run {
                        Some((_, l)) => l.json_v(),
                        None => JsonV::Null,
                    },
                ),
            ).push(
                (
                    "transmit"@,
                    JsonV::Object(
                        no_fields().push(("available"@, JsonV::Bool(false))).push(
                            (
                                "reason"@,
                                text_v(
                                    "receive only: the control API has no transmit operation (C37 gated)"@,
                                ),
                            ),
                        ),
                    ),
                ),
            ).push(("audit"@, JsonV::Bool(self.audit))).push(
                ("routes"@, JsonV::Array(routes_v())),
            ),
        )
    }

    /// The `/api/control/state` body.
    fn to_json(&self) -> (r: Json) {
        let mut f = Fields::new();
        f.put("live", Json::Bool(self.live.is_some()));
        f.put(
            "device",
            match &self.live {
                Some((id, c, _)) => c.device_json(id),
                None => Json::Null,
            },
        );
        f.put(
            "tuning",
            match &self.live {
                Some((_, _, t)) => t.to_json(),
                None => Json::Null,
            },
        );
        f.put(
            "run",
            match &self.run {
                Some((r, _)) => r.to_json(),
                None => Json::Null,
            },
        );
        f.put("scan", opt_json(&self.scan));
        f.put(
            "display_limits",
            match &self.run {
                Some((_, l)) => l.to_json(),
                None => Json::Null,
            },
        );
        let mut tx = Fields::new();
        tx.put("available", Json::Bool(false));
        tx.put(
            "reason",
            Json::text("receive only: the control API has no transmit operation (C37 gated)"),
        );
        f.put("transmit", tx.object());
        f.put("audit", Json::Bool(self.audit));
        f.put("routes", routes_json());
        f.object()
    }
}

/// Whatever the server runs, its state says that it cannot transmit.
pub proof fn state_says_receive_only(s: Snapshot)
    ensures
        s.json_v() is Object,
        s.json_v()->Object_0[6].0 == "transmit"@,
        s.json_v()->Object_0[6].1->Object_0[0] == ("available"@, JsonV::Bool(false)),
{
}

/// Every control is at a path of its own and takes one method; the sweep's takes two.
pub proof fn controls_are_at_their_paths(method: Seq<char>, rest: Seq<char>)
    ensures
        control_action(method, rest) matches Ok(a) ==> {
            match a {
                Action::State => rest == "state"@ && method == "GET"@,
                Action::Center => rest == "center"@ && method == "POST"@,
                Action::Rate => rest == "rate"@ && method == "POST"@,
                Action::Window => rest == "window"@ && method == "POST"@,
                Action::Gains => rest == "gains"@ && method == "POST"@,
                Action::BiasTee => rest == "bias_tee"@ && method == "POST"@,
                Action::BasebandFilter => rest == "baseband_filter"@ && method == "POST"@,
                Action::Display => rest == "display"@ && method == "POST"@,
                Action::ScanStop => rest == "scan/stop"@ && method == "POST"@,
                Action::RecordStart => rest == "record/start"@ && method == "POST"@,
                Action::RecordStop => rest == "record/stop"@ && method == "POST"@,
                Action::ScanState => rest == "scan"@ && method == "GET"@,
                Action::ScanStart => rest == "scan"@ && method == "POST"@,
                _ => false,
            }
        },
        control_action("GET"@, "state"@) is Ok,
        control_action("POST"@, "center"@) is Ok,
        control_action("POST"@, "rate"@) is Ok,
        control_action("POST"@, "window"@) is Ok,
        control_action("POST"@, "gains"@) is Ok,
        control_action("POST"@, "bias_tee"@) is Ok,
        control_action("POST"@, "baseband_filter"@) is Ok,
        control_action("POST"@, "display"@) is Ok,
        control_action("POST"@, "scan/stop"@) is Ok,
        control_action("POST"@, "record/start"@) is Ok,
        control_action("POST"@, "record/stop"@) is Ok,
        control_action("GET"@, "scan"@) is Ok && control_action("POST"@, "scan"@) is Ok,
        method == "GET"@ || method == "POST"@ ==> (control_action(method, rest) matches Err(Some(m))
            ==> m != method),
{
    reveal_strlit("GET");
    reveal_strlit("POST");
    reveal_strlit("GET, POST");
    assert("GET"@.len() == 3 && "POST"@.len() == 4 && "GET, POST"@.len() == 9);
    assert("state"@ != "scan"@) by {
        reveal_strlit("state");
        reveal_strlit("scan");
        assert("state"@.len() != "scan"@.len());
    }
    assert("center"@ != "scan"@) by {
        reveal_strlit("center");
        reveal_strlit("scan");
        assert("center"@.len() != "scan"@.len());
    }
    assert("rate"@ != "scan"@) by {
        reveal_strlit("rate");
        reveal_strlit("scan");
        assert("rate"@[0] != "scan"@[0]);
    }
    assert("window"@ != "scan"@) by {
        reveal_strlit("window");
        reveal_strlit("scan");
        assert("window"@.len() != "scan"@.len());
    }
    assert("gains"@ != "scan"@) by {
        reveal_strlit("gains");
        reveal_strlit("scan");
        assert("gains"@.len() != "scan"@.len());
    }
    assert("bias_tee"@ != "scan"@) by {
        reveal_strlit("bias_tee");
        reveal_strlit("scan");
        assert("bias_tee"@.len() != "scan"@.len());
    }
    assert("baseband_filter"@ != "scan"@) by {
        reveal_strlit("baseband_filter");
        reveal_strlit("scan");
        assert("baseband_filter"@.len() != "scan"@.len());
    }
    assert("display"@ != "scan"@) by {
        reveal_strlit("display");
        reveal_strlit("scan");
        assert("display"@.len() != "scan"@.len());
    }
    assert("state"@ != "center"@) by {
        reveal_strlit("state");
        reveal_strlit("center");
        assert("state"@.len() != "center"@.len());
    }
    assert("state"@ != "rate"@) by {
        reveal_strlit("state");
        reveal_strlit("rate");
        assert("state"@.len() != "rate"@.len());
    }
    assert("center"@ != "rate"@) by {
        reveal_strlit("center");
        reveal_strlit("rate");
        assert("center"@.len() != "rate"@.len());
    }
    assert("state"@ != "window"@) by {
        reveal_strlit("state");
        reveal_strlit("window");
        assert("state"@.len() != "window"@.len());
    }
    assert("center"@ != "window"@) by {
        reveal_strlit("center");
        reveal_strlit("window");
        assert("center"@[0] != "window"@[0]);
    }
    assert("rate"@ != "window"@) by {
        reveal_strlit("rate");
        reveal_strlit("window");
        assert("rate"@.len() != "window"@.len());
    }
    assert("state"@ != "gains"@) by {
        reveal_strlit("state");
        reveal_strlit("gains");
        assert("state"@[0] != "gains"@[0]);
    }
    assert("center"@ != "gains"@) by {
        reveal_strlit("center");
        reveal_strlit("gains");
        assert("center"@.len() != "gains"@.len());
    }
    assert("rate"@ != "gains"@) by {
        reveal_strlit("rate");
        reveal_strlit("gains");
        assert("rate"@.len() != "gains"@.len());
    }
    assert("window"@ != "gains"@) by {
        reveal_strlit("window");
        reveal_strlit("gains");
        assert("window"@.len() != "gains"@.len());
    }
    assert("state"@ != "bias_tee"@) by {
        reveal_strlit("state");
        reveal_strlit("bias_tee");
        assert("state"@.len() != "bias_tee"@.len());
    }
    assert("center"@ != "bias_tee"@) by {
        reveal_strlit("center");
        reveal_strlit("bias_tee");
        assert("center"@.len() != "bias_tee"@.len());
    }
    assert("rate"@ != "bias_tee"@) by {
        reveal_strlit("rate");
        reveal_strlit("bias_tee");
        assert("rate"@.len() != "bias_tee"@.len());
    }
    assert("window"@ != "bias_tee"@) by {
        reveal_strlit("window");
        reveal_strlit("bias_tee");
        assert("window"@.len() != "bias_tee"@.len());
    }
    assert("gains"@ != "bias_tee"@) by {
        reveal_strlit("gains");
        reveal_strlit("bias_tee");
        assert("gains"@.len() != "bias_tee"@.len());
    }
    assert("state"@ != "baseband_filter"@) by {
        reveal_strlit("state");
        reveal_strlit("baseband_filter");
        assert("state"@.len() != "baseband_filter"@.len());
    }
    assert("center"@ != "baseband_filter"@) by {
        reveal_strlit("center");
        reveal_strlit("baseband_filter");
        assert("center"@.len() != "baseband_filter"@.len());
    }
    assert("rate"@ != "baseband_filter"@) by {
        reveal_strlit("rate");
        reveal_strlit("baseband_filter");
        assert("rate"@.len() != "baseband_filter"@.len());
    }
    assert("window"@ != "baseband_filter"@) by {
        reveal_strlit("window");
        reveal_strlit("baseband_filter");
        assert("window"@.len() != "baseband_filter"@.len());
    }
    assert("gains"@ != "baseband_filter"@) by {
        reveal_strlit("gains");
        reveal_strlit("baseband_filter");
        assert("gains"@.len() != "baseband_filter"@.len());
    }
    assert("bias_tee"@ != "baseband_filter"@) by {
        reveal_strlit("bias_tee");
        reveal_strlit("baseband_filter");
        assert("bias_tee"@.len() != "baseband_filter"@.len());
    }
    assert("state"@ != "display"@) by {
        reveal_strlit("state");
        reveal_strlit("display");
        assert("state"@.len() != "display"@.len());
    }
    assert("center"@ != "display"@) by {
        reveal_strlit("center");
        reveal_strlit("display");
        assert("center"@.len() != "display"@.len());
    }
    assert("rate"@ != "display"@) by {
        reveal_strlit("rate");
        reveal_strlit("display");
        assert("rate"@.len() != "display"@.len());
    }
    assert("window"@ != "display"@) by {
        reveal_strlit("window");
        reveal_strlit("display");
        assert("window"@.len() != "display"@.len());
    }
    assert("gains"@ != "display"@) by {
        reveal_strlit("gains");
        reveal_strlit("display");
        assert("gains"@.len() != "display"@.len());
    }
    assert("bias_tee"@ != "display"@) by {
        reveal_strlit("bias_tee");
        reveal_strlit("display");
        assert("bias_tee"@.len() != "display"@.len());
    }
    assert("baseband_filter"@ != "display"@) by {
        reveal_strlit("baseband_filter");
        reveal_strlit("display");
        assert("baseband_filter"@.len() != "display"@.len());
    }
    assert("state"@ != "scan/stop"@) by {
        reveal_strlit("state");
        reveal_strlit("scan/stop");
        assert("state"@.len() != "scan/stop"@.len());
    }
    assert("center"@ != "scan/stop"@) by {
        reveal_strlit("center");
        reveal_strlit("scan/stop");
        assert("center"@.len() != "scan/stop"@.len());
    }
    assert("rate"@ != "scan/stop"@) by {
        reveal_strlit("rate");
        reveal_strlit("scan/stop");
        assert("rate"@.len() != "scan/stop"@.len());
    }
    assert("window"@ != "scan/stop"@) by {
        reveal_strlit("window");
        reveal_strlit("scan/stop");
        assert("window"@.len() != "scan/stop"@.len());
    }
    assert("gains"@ != "scan/stop"@) by {
        reveal_strlit("gains");
        reveal_strlit("scan/stop");
        assert("gains"@.len() != "scan/stop"@.len());
    }
    assert("bias_tee"@ != "scan/stop"@) by {
        reveal_strlit("bias_tee");
        reveal_strlit("scan/stop");
        assert("bias_tee"@.len() != "scan/stop"@.len());
    }
    assert("baseband_filter"@ != "scan/stop"@) by {
        reveal_strlit("baseband_filter");
        reveal_strlit("scan/stop");
        assert("baseband_filter"@.len() != "scan/stop"@.len());
    }
    assert("display"@ != "scan/stop"@) by {
        reveal_strlit("display");
        reveal_strlit("scan/stop");
        assert("display"@.len() != "scan/stop"@.len());
    }
    assert("state"@ != "record/start"@) by {
        reveal_strlit("state");
        reveal_strlit("record/start");
        assert("state"@.len() != "record/start"@.len());
    }
    assert("center"@ != "record/start"@) by {
        reveal_strlit("center");
        reveal_strlit("record/start");
        assert("center"@.len() != "record/start"@.len());
    }
    assert("rate"@ != "record/start"@) by {
        reveal_strlit("rate");
        reveal_strlit("record/start");
        assert("rate"@.len() != "record/start"@.len());
    }
    assert("window"@ != "record/start"@) by {
        reveal_strlit("window");
        reveal_strlit("record/start");
        assert("window"@.len() != "record/start"@.len());
    }
    assert("gains"@ != "record/start"@) by {
        reveal_strlit("gains");
        reveal_strlit("record/start");
        assert("gains"@.len() != "record/start"@.len());
    }
    assert("bias_tee"@ != "record/start"@) by {
        reveal_strlit("bias_tee");
        reveal_strlit("record/start");
        assert("bias_tee"@.len() != "record/start"@.len());
    }
    assert("baseband_filter"@ != "record/start"@) by {
        reveal_strlit("baseband_filter");
        reveal_strlit("record/start");
        assert("baseband_filter"@.len() != "record/start"@.len());
    }
    assert("display"@ != "record/start"@) by {
        reveal_strlit("display");
        reveal_strlit("record/start");
        assert("display"@.len() != "record/start"@.len());
    }
    assert("scan/stop"@ != "record/start"@) by {
        reveal_strlit("scan/stop");
        reveal_strlit("record/start");
        assert("scan/stop"@.len() != "record/start"@.len());
    }
    assert("state"@ != "record/stop"@) by {
        reveal_strlit("state");
        reveal_strlit("record/stop");
        assert("state"@.len() != "record/stop"@.len());
    }
    assert("center"@ != "record/stop"@) by {
        reveal_strlit("center");
        reveal_strlit("record/stop");
        assert("center"@.len() != "record/stop"@.len());
    }
    assert("rate"@ != "record/stop"@) by {
        reveal_strlit("rate");
        reveal_strlit("record/stop");
        assert("rate"@.len() != "record/stop"@.len());
    }
    assert("window"@ != "record/stop"@) by {
        reveal_strlit("window");
        reveal_strlit("record/stop");
        assert("window"@.len() != "record/stop"@.len());
    }
    assert("gains"@ != "record/stop"@) by {
        reveal_strlit("gains");
        reveal_strlit("record/stop");
        assert("gains"@.len() != "record/stop"@.len());
    }
    assert("bias_tee"@ != "record/stop"@) by {
        reveal_strlit("bias_tee");
        reveal_strlit("record/stop");
        assert("bias_tee"@.len() != "record/stop"@.len());
    }
    assert("baseband_filter"@ != "record/stop"@) by {
        reveal_strlit("baseband_filter");
        reveal_strlit("record/stop");
        assert("baseband_filter"@.len() != "record/stop"@.len());
    }
    assert("display"@ != "record/stop"@) by {
        reveal_strlit("display");
        reveal_strlit("record/stop");
        assert("display"@.len() != "record/stop"@.len());
    }
    assert("scan/stop"@ != "record/stop"@) by {
        reveal_strlit("scan/stop");
        reveal_strlit("record/stop");
        assert("scan/stop"@.len() != "record/stop"@.len());
    }
    assert("record/start"@ != "record/stop"@) by {
        reveal_strlit("record/start");
        reveal_strlit("record/stop");
        assert("record/start"@.len() != "record/stop"@.len());
    }
    assert("scan"@ != "scan/stop"@) by {
        reveal_strlit("scan");
        reveal_strlit("scan/stop");
        assert("scan"@.len() != "scan/stop"@.len());
    }
    assert("scan"@ != "record/start"@) by {
        reveal_strlit("scan");
        reveal_strlit("record/start");
        assert("scan"@.len() != "record/start"@.len());
    }
    assert("scan"@ != "record/stop"@) by {
        reveal_strlit("scan");
        reveal_strlit("record/stop");
        assert("scan"@.len() != "record/stop"@.len());
    }
}

/// What a path is for: the controls, the bookmarks, or one of them by its name, each with a method of
/// its own.
pub proof fn bookmarks_are_at_their_paths(
    method: Seq<char>,
    rest: Seq<char>,
    id: Id,
    other: Option<Id>,
    path: Seq<char>,
)
    ensures
        resolved(method, "/api/control/"@ + rest, other) == Some(control_action(method, rest)),
        resolved("GET"@, "/api/bookmarks"@, other) == Some(
            Ok::<Action, Option<Seq<char>>>(Action::ListBookmarks),
        ),
        resolved("POST"@, "/api/bookmarks"@, other) == Some(
            Ok::<Action, Option<Seq<char>>>(Action::CreateBookmark),
        ),
        resolved("GET"@, "/api/bookmarks/"@ + rest, Some(id)) == Some(
            Ok::<Action, Option<Seq<char>>>(Action::GetBookmark(id)),
        ),
        resolved("PUT"@, "/api/bookmarks/"@ + rest, Some(id)) == Some(
            Ok::<Action, Option<Seq<char>>>(Action::UpdateBookmark(id)),
        ),
        resolved("DELETE"@, "/api/bookmarks/"@ + rest, Some(id)) == Some(
            Ok::<Action, Option<Seq<char>>>(Action::DeleteBookmark(id)),
        ),
        resolved(method, "/api/bookmarks/"@ + rest, None) == Some(
            Err::<Action, Option<Seq<char>>>(None),
        ),
        path_id_of("/api/bookmarks/"@ + rest) == Some(rest),
        resolved(method, path, other) is None <==> !begins(path, "/api/control/"@) && path
            != "/api/control"@ && path != "/api/bookmarks"@ && !begins(path, "/api/bookmarks/"@),
{
    reveal_strlit("GET");
    reveal_strlit("POST");
    reveal_strlit("PUT");
    reveal_strlit("DELETE");
    reveal_strlit("/api/control/");
    reveal_strlit("/api/bookmarks");
    reveal_strlit("/api/bookmarks/");
    assert("GET"@[0] != "PUT"@[0]);
    assert("GET"@.len() == 3 && "POST"@.len() == 4 && "PUT"@.len() == 3 && "DELETE"@.len() == 6);
    a_remainder_is_what_else_is_there(rest, "/api/control/"@);
    a_remainder_is_what_else_is_there(rest, "/api/bookmarks/"@);
    let p = "/api/bookmarks/"@ + rest;
    assert(p[5] == 'b' && "/api/bookmarks"@[5] == 'b' && "/api/control/"@[5] == 'c');
    if begins(p, "/api/control/"@) {
        assert(p.take(13)[5] == p[5]);
    }
    if begins("/api/bookmarks"@, "/api/control/"@) {
        assert("/api/bookmarks"@.take(13)[5] == "/api/bookmarks"@[5]);
    }
    assert(p.len() > "/api/bookmarks"@.len());
}

/// What an action is called in the log is its own name; that of a bookmark's is the same whichever it
/// is.
pub proof fn actions_have_their_own_names(a: Action, b: Action, id: Id, other: Id)
    ensures
        Action::GetBookmark(id).audit_name() == Action::GetBookmark(other).audit_name(),
        a == Action::Center <==> a.audit_name() == "center"@,
        a == Action::Rate <==> a.audit_name() == "rate"@,
        a == Action::Window <==> a.audit_name() == "window"@,
        a == Action::Gains <==> a.audit_name() == "gains"@,
        a == Action::BiasTee <==> a.audit_name() == "bias_tee"@,
        a == Action::BasebandFilter <==> a.audit_name() == "baseband_filter"@,
        a == Action::Display <==> a.audit_name() == "display"@,
        a == Action::ScanStart <==> a.audit_name() == "scan_start"@,
        a == Action::ScanStop <==> a.audit_name() == "scan_stop"@,
        a == Action::RecordStart <==> a.audit_name() == "record_start"@,
        a == Action::RecordStop <==> a.audit_name() == "record_stop"@,
        a == Action::CreateBookmark <==> a.audit_name() == "bookmark_create"@,
        a is UpdateBookmark <==> a.audit_name() == "bookmark_update"@,
        a is DeleteBookmark <==> a.audit_name() == "bookmark_delete"@,
        a.reach_of() matches Reach::Device(d) && b.reach_of() == Reach::Device(d) ==> a == b,
{
    assert("state"@ != "center"@) by {
        reveal_strlit("state");
        reveal_strlit("center");
        assert("state"@.len() != "center"@.len());
    }
    assert("state"@ != "rate"@) by {
        reveal_strlit("state");
        reveal_strlit("rate");
        assert("state"@.len() != "rate"@.len());
    }
    assert("state"@ != "window"@) by {
        reveal_strlit("state");
        reveal_strlit("window");
        assert("state"@.len() != "window"@.len());
    }
    assert("state"@ != "gains"@) by {
        reveal_strlit("state");
        reveal_strlit("gains");
        assert("state"@[0] != "gains"@[0]);
    }
    assert("state"@ != "bias_tee"@) by {
        reveal_strlit("state");
        reveal_strlit("bias_tee");
        assert("state"@.len() != "bias_tee"@.len());
    }
    assert("state"@ != "baseband_filter"@) by {
        reveal_strlit("state");
        reveal_strlit("baseband_filter");
        assert("state"@.len() != "baseband_filter"@.len());
    }
    assert("state"@ != "display"@) by {
        reveal_strlit("state");
        reveal_strlit("display");
        assert("state"@.len() != "display"@.len());
    }
    assert("state"@ != "scan_start"@) by {
        reveal_strlit("state");
        reveal_strlit("scan_start");
        assert("state"@.len() != "scan_start"@.len());
    }
    assert("state"@ != "scan_stop"@) by {
        reveal_strlit("state");
        reveal_strlit("scan_stop");
        assert("state"@.len() != "scan_stop"@.len());
    }
    assert("state"@ != "record_start"@) by {
        reveal_strlit("state");
        reveal_strlit("record_start");
        assert("state"@.len() != "record_start"@.len());
    }
    assert("state"@ != "record_stop"@) by {
        reveal_strlit("state");
        reveal_strlit("record_stop");
        assert("state"@.len() != "record_stop"@.len());
    }
    assert("state"@ != "bookmark_create"@) by {
        reveal_strlit("state");
        reveal_strlit("bookmark_create");
        assert("state"@.len() != "bookmark_create"@.len());
    }
    assert("state"@ != "bookmark_update"@) by {
        reveal_strlit("state");
        reveal_strlit("bookmark_update");
        assert("state"@.len() != "bookmark_update"@.len());
    }
    assert("state"@ != "bookmark_delete"@) by {
        reveal_strlit("state");
        reveal_strlit("bookmark_delete");
        assert("state"@.len() != "bookmark_delete"@.len());
    }
    assert("center"@ != "rate"@) by {
        reveal_strlit("center");
        reveal_strlit("rate");
        assert("center"@.len() != "rate"@.len());
    }
    assert("center"@ != "window"@) by {
        reveal_strlit("center");
        reveal_strlit("window");
        assert("center"@[0] != "window"@[0]);
    }
    assert("center"@ != "gains"@) by {
        reveal_strlit("center");
        reveal_strlit("gains");
        assert("center"@.len() != "gains"@.len());
    }
    assert("center"@ != "bias_tee"@) by {
        reveal_strlit("center");
        reveal_strlit("bias_tee");
        assert("center"@.len() != "bias_tee"@.len());
    }
    assert("center"@ != "baseband_filter"@) by {
        reveal_strlit("center");
        reveal_strlit("baseband_filter");
        assert("center"@.len() != "baseband_filter"@.len());
    }
    assert("center"@ != "display"@) by {
        reveal_strlit("center");
        reveal_strlit("display");
        assert("center"@.len() != "display"@.len());
    }
    assert("center"@ != "scan_start"@) by {
        reveal_strlit("center");
        reveal_strlit("scan_start");
        assert("center"@.len() != "scan_start"@.len());
    }
    assert("center"@ != "scan_stop"@) by {
        reveal_strlit("center");
        reveal_strlit("scan_stop");
        assert("center"@.len() != "scan_stop"@.len());
    }
    assert("center"@ != "record_start"@) by {
        reveal_strlit("center");
        reveal_strlit("record_start");
        assert("center"@.len() != "record_start"@.len());
    }
    assert("center"@ != "record_stop"@) by {
        reveal_strlit("center");
        reveal_strlit("record_stop");
        assert("center"@.len() != "record_stop"@.len());
    }
    assert("center"@ != "bookmark_create"@) by {
        reveal_strlit("center");
        reveal_strlit("bookmark_create");
        assert("center"@.len() != "bookmark_create"@.len());
    }
    assert("center"@ != "bookmark_update"@) by {
        reveal_strlit("center");
        reveal_strlit("bookmark_update");
        assert("center"@.len() != "bookmark_update"@.len());
    }
    assert("center"@ != "bookmark_delete"@) by {
        reveal_strlit("center");
        reveal_strlit("bookmark_delete");
        assert("center"@.len() != "bookmark_delete"@.len());
    }
    assert("rate"@ != "center"@) by {
        reveal_strlit("rate");
        reveal_strlit("center");
        assert("rate"@.len() != "center"@.len());
    }
    assert("rate"@ != "window"@) by {
        reveal_strlit("rate");
        reveal_strlit("window");
        assert("rate"@.len() != "window"@.len());
    }
    assert("rate"@ != "gains"@) by {
        reveal_strlit("rate");
        reveal_strlit("gains");
        assert("rate"@.len() != "gains"@.len());
    }
    assert("rate"@ != "bias_tee"@) by {
        reveal_strlit("rate");
        reveal_strlit("bias_tee");
        assert("rate"@.len() != "bias_tee"@.len());
    }
    assert("rate"@ != "baseband_filter"@) by {
        reveal_strlit("rate");
        reveal_strlit("baseband_filter");
        assert("rate"@.len() != "baseband_filter"@.len());
    }
    assert("rate"@ != "display"@) by {
        reveal_strlit("rate");
        reveal_strlit("display");
        assert("rate"@.len() != "display"@.len());
    }
    assert("rate"@ != "scan_start"@) by {
        reveal_strlit("rate");
        reveal_strlit("scan_start");
        assert("rate"@.len() != "scan_start"@.len());
    }
    assert("rate"@ != "scan_stop"@) by {
        reveal_strlit("rate");
        reveal_strlit("scan_stop");
        assert("rate"@.len() != "scan_stop"@.len());
    }
    assert("rate"@ != "record_start"@) by {
        reveal_strlit("rate");
        reveal_strlit("record_start");
        assert("rate"@.len() != "record_start"@.len());
    }
    assert("rate"@ != "record_stop"@) by {
        reveal_strlit("rate");
        reveal_strlit("record_stop");
        assert("rate"@.len() != "record_stop"@.len());
    }
    assert("rate"@ != "bookmark_create"@) by {
        reveal_strlit("rate");
        reveal_strlit("bookmark_create");
        assert("rate"@.len() != "bookmark_create"@.len());
    }
    assert("rate"@ != "bookmark_update"@) by {
        reveal_strlit("rate");
        reveal_strlit("bookmark_update");
        assert("rate"@.len() != "bookmark_update"@.len());
    }
    assert("rate"@ != "bookmark_delete"@) by {
        reveal_strlit("rate");
        reveal_strlit("bookmark_delete");
        assert("rate"@.len() != "bookmark_delete"@.len());
    }
    assert("window"@ != "center"@) by {
        reveal_strlit("window");
        reveal_strlit("center");
        assert("window"@[0] != "center"@[0]);
    }
    assert("window"@ != "rate"@) by {
        reveal_strlit("window");
        reveal_strlit("rate");
        assert("window"@.len() != "rate"@.len());
    }
    assert("window"@ != "gains"@) by {
        reveal_strlit("window");
        reveal_strlit("gains");
        assert("window"@.len() != "gains"@.len());
    }
    assert("window"@ != "bias_tee"@) by {
        reveal_strlit("window");
        reveal_strlit("bias_tee");
        assert("window"@.len() != "bias_tee"@.len());
    }
    assert("window"@ != "baseband_filter"@) by {
        reveal_strlit("window");
        reveal_strlit("baseband_filter");
        assert("window"@.len() != "baseband_filter"@.len());
    }
    assert("window"@ != "display"@) by {
        reveal_strlit("window");
        reveal_strlit("display");
        assert("window"@.len() != "display"@.len());
    }
    assert("window"@ != "scan_start"@) by {
        reveal_strlit("window");
        reveal_strlit("scan_start");
        assert("window"@.len() != "scan_start"@.len());
    }
    assert("window"@ != "scan_stop"@) by {
        reveal_strlit("window");
        reveal_strlit("scan_stop");
        assert("window"@.len() != "scan_stop"@.len());
    }
    assert("window"@ != "record_start"@) by {
        reveal_strlit("window");
        reveal_strlit("record_start");
        assert("window"@.len() != "record_start"@.len());
    }
    assert("window"@ != "record_stop"@) by {
        reveal_strlit("window");
        reveal_strlit("record_stop");
        assert("window"@.len() != "record_stop"@.len());
    }
    assert("window"@ != "bookmark_create"@) by {
        reveal_strlit("window");
        reveal_strlit("bookmark_create");
        assert("window"@.len() != "bookmark_create"@.len());
    }
    assert("window"@ != "bookmark_update"@) by {
        reveal_strlit("window");
        reveal_strlit("bookmark_update");
        assert("window"@.len() != "bookmark_update"@.len());
    }
    assert("window"@ != "bookmark_delete"@) by {
        reveal_strlit("window");
        reveal_strlit("bookmark_delete");
        assert("window"@.len() != "bookmark_delete"@.len());
    }
    assert("gains"@ != "center"@) by {
        reveal_strlit("gains");
        reveal_strlit("center");
        assert("gains"@.len() != "center"@.len());
    }
    assert("gains"@ != "rate"@) by {
        reveal_strlit("gains");
        reveal_strlit("rate");
        assert("gains"@.len() != "rate"@.len());
    }
    assert("gains"@ != "window"@) by {
        reveal_strlit("gains");
        reveal_strlit("window");
        assert("gains"@.len() != "window"@.len());
    }
    assert("gains"@ != "bias_tee"@) by {
        reveal_strlit("gains");
        reveal_strlit("bias_tee");
        assert("gains"@.len() != "bias_tee"@.len());
    }
    assert("gains"@ != "baseband_filter"@) by {
        reveal_strlit("gains");
        reveal_strlit("baseband_filter");
        assert("gains"@.len() != "baseband_filter"@.len());
    }
    assert("gains"@ != "display"@) by {
        reveal_strlit("gains");
        reveal_strlit("display");
        assert("gains"@.len() != "display"@.len());
    }
    assert("gains"@ != "scan_start"@) by {
        reveal_strlit("gains");
        reveal_strlit("scan_start");
        assert("gains"@.len() != "scan_start"@.len());
    }
    assert("gains"@ != "scan_stop"@) by {
        reveal_strlit("gains");
        reveal_strlit("scan_stop");
        assert("gains"@.len() != "scan_stop"@.len());
    }
    assert("gains"@ != "record_start"@) by {
        reveal_strlit("gains");
        reveal_strlit("record_start");
        assert("gains"@.len() != "record_start"@.len());
    }
    assert("gains"@ != "record_stop"@) by {
        reveal_strlit("gains");
        reveal_strlit("record_stop");
        assert("gains"@.len() != "record_stop"@.len());
    }
    assert("gains"@ != "bookmark_create"@) by {
        reveal_strlit("gains");
        reveal_strlit("bookmark_create");
        assert("gains"@.len() != "bookmark_create"@.len());
    }
    assert("gains"@ != "bookmark_update"@) by {
        reveal_strlit("gains");
        reveal_strlit("bookmark_update");
        assert("gains"@.len() != "bookmark_update"@.len());
    }
    assert("gains"@ != "bookmark_delete"@) by {
        reveal_strlit("gains");
        reveal_strlit("bookmark_delete");
        assert("gains"@.len() != "bookmark_delete"@.len());
    }
    assert("bias_tee"@ != "center"@) by {
        reveal_strlit("bias_tee");
        reveal_strlit("center");
        assert("bias_tee"@.len() != "center"@.len());
    }
    assert("bias_tee"@ != "rate"@) by {
        reveal_strlit("bias_tee");
        reveal_strlit("rate");
        assert("bias_tee"@.len() != "rate"@.len());
    }
    assert("bias_tee"@ != "window"@) by {
        reveal_strlit("bias_tee");
        reveal_strlit("window");
        assert("bias_tee"@.len() != "window"@.len());
    }
    assert("bias_tee"@ != "gains"@) by {
        reveal_strlit("bias_tee");
        reveal_strlit("gains");
        assert("bias_tee"@.len() != "gains"@.len());
    }
    assert("bias_tee"@ != "baseband_filter"@) by {
        reveal_strlit("bias_tee");
        reveal_strlit("baseband_filter");
        assert("bias_tee"@.len() != "baseband_filter"@.len());
    }
    assert("bias_tee"@ != "display"@) by {
        reveal_strlit("bias_tee");
        reveal_strlit("display");
        assert("bias_tee"@.len() != "display"@.len());
    }
    assert("bias_tee"@ != "scan_start"@) by {
        reveal_strlit("bias_tee");
        reveal_strlit("scan_start");
        assert("bias_tee"@.len() != "scan_start"@.len());
    }
    assert("bias_tee"@ != "scan_stop"@) by {
        reveal_strlit("bias_tee");
        reveal_strlit("scan_stop");
        assert("bias_tee"@.len() != "scan_stop"@.len());
    }
    assert("bias_tee"@ != "record_start"@) by {
        reveal_strlit("bias_tee");
        reveal_strlit("record_start");
        assert("bias_tee"@.len() != "record_start"@.len());
    }
    assert("bias_tee"@ != "record_stop"@) by {
        reveal_strlit("bias_tee");
        reveal_strlit("record_stop");
        assert("bias_tee"@.len() != "record_stop"@.len());
    }
    assert("bias_tee"@ != "bookmark_create"@) by {
        reveal_strlit("bias_tee");
        reveal_strlit("bookmark_create");
        assert("bias_tee"@.len() != "bookmark_create"@.len());
    }
    assert("bias_tee"@ != "bookmark_update"@) by {
        reveal_strlit("bias_tee");
        reveal_strlit("bookmark_update");
        assert("bias_tee"@.len() != "bookmark_update"@.len());
    }
    assert("bias_tee"@ != "bookmark_delete"@) by {
        reveal_strlit("bias_tee");
        reveal_strlit("bookmark_delete");
        assert("bias_tee"@.len() != "bookmark_delete"@.len());
    }
    assert("baseband_filter"@ != "center"@) by {
        reveal_strlit("baseband_filter");
        reveal_strlit("center");
        assert("baseband_filter"@.len() != "center"@.len());
    }
    assert("baseband_filter"@ != "rate"@) by {
        reveal_strlit("baseband_filter");
        reveal_strlit("rate");
        assert("baseband_filter"@.len() != "rate"@.len());
    }
    assert("baseband_filter"@ != "window"@) by {
        reveal_strlit("baseband_filter");
        reveal_strlit("window");
        assert("baseband_filter"@.len() != "window"@.len());
    }
    assert("baseband_filter"@ != "gains"@) by {
        reveal_strlit("baseband_filter");
        reveal_strlit("gains");
        assert("baseband_filter"@.len() != "gains"@.len());
    }
    assert("baseband_filter"@ != "bias_tee"@) by {
        reveal_strlit("baseband_filter");
        reveal_strlit("bias_tee");
        assert("baseband_filter"@.len() != "bias_tee"@.len());
    }
    assert("baseband_filter"@ != "display"@) by {
        reveal_strlit("baseband_filter");
        reveal_strlit("display");
        assert("baseband_filter"@.len() != "display"@.len());
    }
    assert("baseband_filter"@ != "scan_start"@) by {
        reveal_strlit("baseband_filter");
        reveal_strlit("scan_start");
        assert("baseband_filter"@.len() != "scan_start"@.len());
    }
    assert("baseband_filter"@ != "scan_stop"@) by {
        reveal_strlit("baseband_filter");
        reveal_strlit("scan_stop");
        assert("baseband_filter"@.len() != "scan_stop"@.len());
    }
    assert("baseband_filter"@ != "record_start"@) by {
        reveal_strlit("baseband_filter");
        reveal_strlit("record_start");
        assert("baseband_filter"@.len() != "record_start"@.len());
    }
    assert("baseband_filter"@ != "record_stop"@) by {
        reveal_strlit("baseband_filter");
        reveal_strlit("record_stop");
        assert("baseband_filter"@.len() != "record_stop"@.len());
    }
    assert("baseband_filter"@ != "bookmark_create"@) by {
        reveal_strlit("baseband_filter");
        reveal_strlit("bookmark_create");
        assert("baseband_filter"@[1] != "bookmark_create"@[1]);
    }
    assert("baseband_filter"@ != "bookmark_update"@) by {
        reveal_strlit("baseband_filter");
        reveal_strlit("bookmark_update");
        assert("baseband_filter"@[1] != "bookmark_update"@[1]);
    }
    assert("baseband_filter"@ != "bookmark_delete"@) by {
        reveal_strlit("baseband_filter");
        reveal_strlit("bookmark_delete");
        assert("baseband_filter"@[1] != "bookmark_delete"@[1]);
    }
    assert("display"@ != "center"@) by {
        reveal_strlit("display");
        reveal_strlit("center");
        assert("display"@.len() != "center"@.len());
    }
    assert("display"@ != "rate"@) by {
        reveal_strlit("display");
        reveal_strlit("rate");
        assert("display"@.len() != "rate"@.len());
    }
    assert("display"@ != "window"@) by {
        reveal_strlit("display");
        reveal_strlit("window");
        assert("display"@.len() != "window"@.len());
    }
    assert("display"@ != "gains"@) by {
        reveal_strlit("display");
        reveal_strlit("gains");
        assert("display"@.len() != "gains"@.len());
    }
    assert("display"@ != "bias_tee"@) by {
        reveal_strlit("display");
        reveal_strlit("bias_tee");
        assert("display"@.len() != "bias_tee"@.len());
    }
    assert("display"@ != "baseband_filter"@) by {
        reveal_strlit("display");
        reveal_strlit("baseband_filter");
        assert("display"@.len() != "baseband_filter"@.len());
    }
    assert("display"@ != "scan_start"@) by {
        reveal_strlit("display");
        reveal_strlit("scan_start");
        assert("display"@.len() != "scan_start"@.len());
    }
    assert("display"@ != "scan_stop"@) by {
        reveal_strlit("display");
        reveal_strlit("scan_stop");
        assert("display"@.len() != "scan_stop"@.len());
    }
    assert("display"@ != "record_start"@) by {
        reveal_strlit("display");
        reveal_strlit("record_start");
        assert("display"@.len() != "record_start"@.len());
    }
    assert("display"@ != "record_stop"@) by {
        reveal_strlit("display");
        reveal_strlit("record_stop");
        assert("display"@.len() != "record_stop"@.len());
    }
    assert("display"@ != "bookmark_create"@) by {
        reveal_strlit("display");
        reveal_strlit("bookmark_create");
        assert("display"@.len() != "bookmark_create"@.len());
    }
    assert("display"@ != "bookmark_update"@) by {
        reveal_strlit("display");
        reveal_strlit("bookmark_update");
        assert("display"@.len() != "bookmark_update"@.len());
    }
    assert("display"@ != "bookmark_delete"@) by {
        reveal_strlit("display");
        reveal_strlit("bookmark_delete");
        assert("display"@.len() != "bookmark_delete"@.len());
    }
    assert("scan_state"@ != "center"@) by {
        reveal_strlit("scan_state");
        reveal_strlit("center");
        assert("scan_state"@.len() != "center"@.len());
    }
    assert("scan_state"@ != "rate"@) by {
        reveal_strlit("scan_state");
        reveal_strlit("rate");
        assert("scan_state"@.len() != "rate"@.len());
    }
    assert("scan_state"@ != "window"@) by {
        reveal_strlit("scan_state");
        reveal_strlit("window");
        assert("scan_state"@.len() != "window"@.len());
    }
    assert("scan_state"@ != "gains"@) by {
        reveal_strlit("scan_state");
        reveal_strlit("gains");
        assert("scan_state"@.len() != "gains"@.len());
    }
    assert("scan_state"@ != "bias_tee"@) by {
        reveal_strlit("scan_state");
        reveal_strlit("bias_tee");
        assert("scan_state"@.len() != "bias_tee"@.len());
    }
    assert("scan_state"@ != "baseband_filter"@) by {
        reveal_strlit("scan_state");
        reveal_strlit("baseband_filter");
        assert("scan_state"@.len() != "baseband_filter"@.len());
    }
    assert("scan_state"@ != "display"@) by {
        reveal_strlit("scan_state");
        reveal_strlit("display");
        assert("scan_state"@.len() != "display"@.len());
    }
    assert("scan_state"@ != "scan_start"@) by {
        reveal_strlit("scan_state");
        reveal_strlit("scan_start");
        assert("scan_state"@[8] != "scan_start"@[8]);
    }
    assert("scan_state"@ != "scan_stop"@) by {
        reveal_strlit("scan_state");
        reveal_strlit("scan_stop");
        assert("scan_state"@.len() != "scan_stop"@.len());
    }
    assert("scan_state"@ != "record_start"@) by {
        reveal_strlit("scan_state");
        reveal_strlit("record_start");
        assert("scan_state"@.len() != "record_start"@.len());
    }
    assert("scan_state"@ != "record_stop"@) by {
        reveal_strlit("scan_state");
        reveal_strlit("record_stop");
        assert("scan_state"@.len() != "record_stop"@.len());
    }
    assert("scan_state"@ != "bookmark_create"@) by {
        reveal_strlit("scan_state");
        reveal_strlit("bookmark_create");
        assert("scan_state"@.len() != "bookmark_create"@.len());
    }
    assert("scan_state"@ != "bookmark_update"@) by {
        reveal_strlit("scan_state");
        reveal_strlit("bookmark_update");
        assert("scan_state"@.len() != "bookmark_update"@.len());
    }
    assert("scan_state"@ != "bookmark_delete"@) by {
        reveal_strlit("scan_state");
        reveal_strlit("bookmark_delete");
        assert("scan_state"@.len() != "bookmark_delete"@.len());
    }
    assert("scan_start"@ != "center"@) by {
        reveal_strlit("scan_start");
        reveal_strlit("center");
        assert("scan_start"@.len() != "center"@.len());
    }
    assert("scan_start"@ != "rate"@) by {
        reveal_strlit("scan_start");
        reveal_strlit("rate");
        assert("scan_start"@.len() != "rate"@.len());
    }
    assert("scan_start"@ != "window"@) by {
        reveal_strlit("scan_start");
        reveal_strlit("window");
        assert("scan_start"@.len() != "window"@.len());
    }
    assert("scan_start"@ != "gains"@) by {
        reveal_strlit("scan_start");
        reveal_strlit("gains");
        assert("scan_start"@.len() != "gains"@.len());
    }
    assert("scan_start"@ != "bias_tee"@) by {
        reveal_strlit("scan_start");
        reveal_strlit("bias_tee");
        assert("scan_start"@.len() != "bias_tee"@.len());
    }
    assert("scan_start"@ != "baseband_filter"@) by {
        reveal_strlit("scan_start");
        reveal_strlit("baseband_filter");
        assert("scan_start"@.len() != "baseband_filter"@.len());
    }
    assert("scan_start"@ != "display"@) by {
        reveal_strlit("scan_start");
        reveal_strlit("display");
        assert("scan_start"@.len() != "display"@.len());
    }
    assert("scan_start"@ != "scan_stop"@) by {
        reveal_strlit("scan_start");
        reveal_strlit("scan_stop");
        assert("scan_start"@.len() != "scan_stop"@.len());
    }
    assert("scan_start"@ != "record_start"@) by {
        reveal_strlit("scan_start");
        reveal_strlit("record_start");
        assert("scan_start"@.len() != "record_start"@.len());
    }
    assert("scan_start"@ != "record_stop"@) by {
        reveal_strlit("scan_start");
        reveal_strlit("record_stop");
        assert("scan_start"@.len() != "record_stop"@.len());
    }
    assert("scan_start"@ != "bookmark_create"@) by {
        reveal_strlit("scan_start");
        reveal_strlit("bookmark_create");
        assert("scan_start"@.len() != "bookmark_create"@.len());
    }
    assert("scan_start"@ != "bookmark_update"@) by {
        reveal_strlit("scan_start");
        reveal_strlit("bookmark_update");
        assert("scan_start"@.len() != "bookmark_update"@.len());
    }
    assert("scan_start"@ != "bookmark_delete"@) by {
        reveal_strlit("scan_start");
        reveal_strlit("bookmark_delete");
        assert("scan_start"@.len() != "bookmark_delete"@.len());
    }
    assert("scan_stop"@ != "center"@) by {
        reveal_strlit("scan_stop");
        reveal_strlit("center");
        assert("scan_stop"@.len() != "center"@.len());
    }
    assert("scan_stop"@ != "rate"@) by {
        reveal_strlit("scan_stop");
        reveal_strlit("rate");
        assert("scan_stop"@.len() != "rate"@.len());
    }
    assert("scan_stop"@ != "window"@) by {
        reveal_strlit("scan_stop");
        reveal_strlit("window");
        assert("scan_stop"@.len() != "window"@.len());
    }
    assert("scan_stop"@ != "gains"@) by {
        reveal_strlit("scan_stop");
        reveal_strlit("gains");
        assert("scan_stop"@.len() != "gains"@.len());
    }
    assert("scan_stop"@ != "bias_tee"@) by {
        reveal_strlit("scan_stop");
        reveal_strlit("bias_tee");
        assert("scan_stop"@.len() != "bias_tee"@.len());
    }
    assert("scan_stop"@ != "baseband_filter"@) by {
        reveal_strlit("scan_stop");
        reveal_strlit("baseband_filter");
        assert("scan_stop"@.len() != "baseband_filter"@.len());
    }
    assert("scan_stop"@ != "display"@) by {
        reveal_strlit("scan_stop");
        reveal_strlit("display");
        assert("scan_stop"@.len() != "display"@.len());
    }
    assert("scan_stop"@ != "scan_start"@) by {
        reveal_strlit("scan_stop");
        reveal_strlit("scan_start");
        assert("scan_stop"@.len() != "scan_start"@.len());
    }
    assert("scan_stop"@ != "record_start"@) by {
        reveal_strlit("scan_stop");
        reveal_strlit("record_start");
        assert("scan_stop"@.len() != "record_start"@.len());
    }
    assert("scan_stop"@ != "record_stop"@) by {
        reveal_strlit("scan_stop");
        reveal_strlit("record_stop");
        assert("scan_stop"@.len() != "record_stop"@.len());
    }
    assert("scan_stop"@ != "bookmark_create"@) by {
        reveal_strlit("scan_stop");
        reveal_strlit("bookmark_create");
        assert("scan_stop"@.len() != "bookmark_create"@.len());
    }
    assert("scan_stop"@ != "bookmark_update"@) by {
        reveal_strlit("scan_stop");
        reveal_strlit("bookmark_update");
        assert("scan_stop"@.len() != "bookmark_update"@.len());
    }
    assert("scan_stop"@ != "bookmark_delete"@) by {
        reveal_strlit("scan_stop");
        reveal_strlit("bookmark_delete");
        assert("scan_stop"@.len() != "bookmark_delete"@.len());
    }
    assert("record_start"@ != "center"@) by {
        reveal_strlit("record_start");
        reveal_strlit("center");
        assert("record_start"@.len() != "center"@.len());
    }
    assert("record_start"@ != "rate"@) by {
        reveal_strlit("record_start");
        reveal_strlit("rate");
        assert("record_start"@.len() != "rate"@.len());
    }
    assert("record_start"@ != "window"@) by {
        reveal_strlit("record_start");
        reveal_strlit("window");
        assert("record_start"@.len() != "window"@.len());
    }
    assert("record_start"@ != "gains"@) by {
        reveal_strlit("record_start");
        reveal_strlit("gains");
        assert("record_start"@.len() != "gains"@.len());
    }
    assert("record_start"@ != "bias_tee"@) by {
        reveal_strlit("record_start");
        reveal_strlit("bias_tee");
        assert("record_start"@.len() != "bias_tee"@.len());
    }
    assert("record_start"@ != "baseband_filter"@) by {
        reveal_strlit("record_start");
        reveal_strlit("baseband_filter");
        assert("record_start"@.len() != "baseband_filter"@.len());
    }
    assert("record_start"@ != "display"@) by {
        reveal_strlit("record_start");
        reveal_strlit("display");
        assert("record_start"@.len() != "display"@.len());
    }
    assert("record_start"@ != "scan_start"@) by {
        reveal_strlit("record_start");
        reveal_strlit("scan_start");
        assert("record_start"@.len() != "scan_start"@.len());
    }
    assert("record_start"@ != "scan_stop"@) by {
        reveal_strlit("record_start");
        reveal_strlit("scan_stop");
        assert("record_start"@.len() != "scan_stop"@.len());
    }
    assert("record_start"@ != "record_stop"@) by {
        reveal_strlit("record_start");
        reveal_strlit("record_stop");
        assert("record_start"@.len() != "record_stop"@.len());
    }
    assert("record_start"@ != "bookmark_create"@) by {
        reveal_strlit("record_start");
        reveal_strlit("bookmark_create");
        assert("record_start"@.len() != "bookmark_create"@.len());
    }
    assert("record_start"@ != "bookmark_update"@) by {
        reveal_strlit("record_start");
        reveal_strlit("bookmark_update");
        assert("record_start"@.len() != "bookmark_update"@.len());
    }
    assert("record_start"@ != "bookmark_delete"@) by {
        reveal_strlit("record_start");
        reveal_strlit("bookmark_delete");
        assert("record_start"@.len() != "bookmark_delete"@.len());
    }
    assert("record_stop"@ != "center"@) by {
        reveal_strlit("record_stop");
        reveal_strlit("center");
        assert("record_stop"@.len() != "center"@.len());
    }
    assert("record_stop"@ != "rate"@) by {
        reveal_strlit("record_stop");
        reveal_strlit("rate");
        assert("record_stop"@.len() != "rate"@.len());
    }
    assert("record_stop"@ != "window"@) by {
        reveal_strlit("record_stop");
        reveal_strlit("window");
        assert("record_stop"@.len() != "window"@.len());
    }
    assert("record_stop"@ != "gains"@) by {
        reveal_strlit("record_stop");
        reveal_strlit("gains");
        assert("record_stop"@.len() != "gains"@.len());
    }
    assert("record_stop"@ != "bias_tee"@) by {
        reveal_strlit("record_stop");
        reveal_strlit("bias_tee");
        assert("record_stop"@.len() != "bias_tee"@.len());
    }
    assert("record_stop"@ != "baseband_filter"@) by {
        reveal_strlit("record_stop");
        reveal_strlit("baseband_filter");
        assert("record_stop"@.len() != "baseband_filter"@.len());
    }
    assert("record_stop"@ != "display"@) by {
        reveal_strlit("record_stop");
        reveal_strlit("display");
        assert("record_stop"@.len() != "display"@.len());
    }
    assert("record_stop"@ != "scan_start"@) by {
        reveal_strlit("record_stop");
        reveal_strlit("scan_start");
        assert("record_stop"@.len() != "scan_start"@.len());
    }
    assert("record_stop"@ != "scan_stop"@) by {
        reveal_strlit("record_stop");
        reveal_strlit("scan_stop");
        assert("record_stop"@.len() != "scan_stop"@.len());
    }
    assert("record_stop"@ != "record_start"@) by {
        reveal_strlit("record_stop");
        reveal_strlit("record_start");
        assert("record_stop"@.len() != "record_start"@.len());
    }
    assert("record_stop"@ != "bookmark_create"@) by {
        reveal_strlit("record_stop");
        reveal_strlit("bookmark_create");
        assert("record_stop"@.len() != "bookmark_create"@.len());
    }
    assert("record_stop"@ != "bookmark_update"@) by {
        reveal_strlit("record_stop");
        reveal_strlit("bookmark_update");
        assert("record_stop"@.len() != "bookmark_update"@.len());
    }
    assert("record_stop"@ != "bookmark_delete"@) by {
        reveal_strlit("record_stop");
        reveal_strlit("bookmark_delete");
        assert("record_stop"@.len() != "bookmark_delete"@.len());
    }
    assert("bookmarks_list"@ != "center"@) by {
        reveal_strlit("bookmarks_list");
        reveal_strlit("center");
        assert("bookmarks_list"@.len() != "center"@.len());
    }
    assert("bookmarks_list"@ != "rate"@) by {
        reveal_strlit("bookmarks_list");
        reveal_strlit("rate");
        assert("bookmarks_list"@.len() != "rate"@.len());
    }
    assert("bookmarks_list"@ != "window"@) by {
        reveal_strlit("bookmarks_list");
        reveal_strlit("window");
        assert("bookmarks_list"@.len() != "window"@.len());
    }
    assert("bookmarks_list"@ != "gains"@) by {
        reveal_strlit("bookmarks_list");
        reveal_strlit("gains");
        assert("bookmarks_list"@.len() != "gains"@.len());
    }
    assert("bookmarks_list"@ != "bias_tee"@) by {
        reveal_strlit("bookmarks_list");
        reveal_strlit("bias_tee");
        assert("bookmarks_list"@.len() != "bias_tee"@.len());
    }
    assert("bookmarks_list"@ != "baseband_filter"@) by {
        reveal_strlit("bookmarks_list");
        reveal_strlit("baseband_filter");
        assert("bookmarks_list"@.len() != "baseband_filter"@.len());
    }
    assert("bookmarks_list"@ != "display"@) by {
        reveal_strlit("bookmarks_list");
        reveal_strlit("display");
        assert("bookmarks_list"@.len() != "display"@.len());
    }
    assert("bookmarks_list"@ != "scan_start"@) by {
        reveal_strlit("bookmarks_list");
        reveal_strlit("scan_start");
        assert("bookmarks_list"@.len() != "scan_start"@.len());
    }
    assert("bookmarks_list"@ != "scan_stop"@) by {
        reveal_strlit("bookmarks_list");
        reveal_strlit("scan_stop");
        assert("bookmarks_list"@.len() != "scan_stop"@.len());
    }
    assert("bookmarks_list"@ != "record_start"@) by {
        reveal_strlit("bookmarks_list");
        reveal_strlit("record_start");
        assert("bookmarks_list"@.len() != "record_start"@.len());
    }
    assert("bookmarks_list"@ != "record_stop"@) by {
        reveal_strlit("bookmarks_list");
        reveal_strlit("record_stop");
        assert("bookmarks_list"@.len() != "record_stop"@.len());
    }
    assert("bookmarks_list"@ != "bookmark_create"@) by {
        reveal_strlit("bookmarks_list");
        reveal_strlit("bookmark_create");
        assert("bookmarks_list"@.len() != "bookmark_create"@.len());
    }
    assert("bookmarks_list"@ != "bookmark_update"@) by {
        reveal_strlit("bookmarks_list");
        reveal_strlit("bookmark_update");
        assert("bookmarks_list"@.len() != "bookmark_update"@.len());
    }
    assert("bookmarks_list"@ != "bookmark_delete"@) by {
        reveal_strlit("bookmarks_list");
        reveal_strlit("bookmark_delete");
        assert("bookmarks_list"@.len() != "bookmark_delete"@.len());
    }
    assert("bookmark_create"@ != "center"@) by {
        reveal_strlit("bookmark_create");
        reveal_strlit("center");
        assert("bookmark_create"@.len() != "center"@.len());
    }
    assert("bookmark_create"@ != "rate"@) by {
        reveal_strlit("bookmark_create");
        reveal_strlit("rate");
        assert("bookmark_create"@.len() != "rate"@.len());
    }
    assert("bookmark_create"@ != "window"@) by {
        reveal_strlit("bookmark_create");
        reveal_strlit("window");
        assert("bookmark_create"@.len() != "window"@.len());
    }
    assert("bookmark_create"@ != "gains"@) by {
        reveal_strlit("bookmark_create");
        reveal_strlit("gains");
        assert("bookmark_create"@.len() != "gains"@.len());
    }
    assert("bookmark_create"@ != "bias_tee"@) by {
        reveal_strlit("bookmark_create");
        reveal_strlit("bias_tee");
        assert("bookmark_create"@.len() != "bias_tee"@.len());
    }
    assert("bookmark_create"@ != "baseband_filter"@) by {
        reveal_strlit("bookmark_create");
        reveal_strlit("baseband_filter");
        assert("bookmark_create"@[1] != "baseband_filter"@[1]);
    }
    assert("bookmark_create"@ != "display"@) by {
        reveal_strlit("bookmark_create");
        reveal_strlit("display");
        assert("bookmark_create"@.len() != "display"@.len());
    }
    assert("bookmark_create"@ != "scan_start"@) by {
        reveal_strlit("bookmark_create");
        reveal_strlit("scan_start");
        assert("bookmark_create"@.len() != "scan_start"@.len());
    }
    assert("bookmark_create"@ != "scan_stop"@) by {
        reveal_strlit("bookmark_create");
        reveal_strlit("scan_stop");
        assert("bookmark_create"@.len() != "scan_stop"@.len());
    }
    assert("bookmark_create"@ != "record_start"@) by {
        reveal_strlit("bookmark_create");
        reveal_strlit("record_start");
        assert("bookmark_create"@.len() != "record_start"@.len());
    }
    assert("bookmark_create"@ != "record_stop"@) by {
        reveal_strlit("bookmark_create");
        reveal_strlit("record_stop");
        assert("bookmark_create"@.len() != "record_stop"@.len());
    }
    assert("bookmark_create"@ != "bookmark_update"@) by {
        reveal_strlit("bookmark_create");
        reveal_strlit("bookmark_update");
        assert("bookmark_create"@[9] != "bookmark_update"@[9]);
    }
    assert("bookmark_create"@ != "bookmark_delete"@) by {
        reveal_strlit("bookmark_create");
        reveal_strlit("bookmark_delete");
        assert("bookmark_create"@[9] != "bookmark_delete"@[9]);
    }
    assert("bookmark_get"@ != "center"@) by {
        reveal_strlit("bookmark_get");
        reveal_strlit("center");
        assert("bookmark_get"@.len() != "center"@.len());
    }
    assert("bookmark_get"@ != "rate"@) by {
        reveal_strlit("bookmark_get");
        reveal_strlit("rate");
        assert("bookmark_get"@.len() != "rate"@.len());
    }
    assert("bookmark_get"@ != "window"@) by {
        reveal_strlit("bookmark_get");
        reveal_strlit("window");
        assert("bookmark_get"@.len() != "window"@.len());
    }
    assert("bookmark_get"@ != "gains"@) by {
        reveal_strlit("bookmark_get");
        reveal_strlit("gains");
        assert("bookmark_get"@.len() != "gains"@.len());
    }
    assert("bookmark_get"@ != "bias_tee"@) by {
        reveal_strlit("bookmark_get");
        reveal_strlit("bias_tee");
        assert("bookmark_get"@.len() != "bias_tee"@.len());
    }
    assert("bookmark_get"@ != "baseband_filter"@) by {
        reveal_strlit("bookmark_get");
        reveal_strlit("baseband_filter");
        assert("bookmark_get"@.len() != "baseband_filter"@.len());
    }
    assert("bookmark_get"@ != "display"@) by {
        reveal_strlit("bookmark_get");
        reveal_strlit("display");
        assert("bookmark_get"@.len() != "display"@.len());
    }
    assert("bookmark_get"@ != "scan_start"@) by {
        reveal_strlit("bookmark_get");
        reveal_strlit("scan_start");
        assert("bookmark_get"@.len() != "scan_start"@.len());
    }
    assert("bookmark_get"@ != "scan_stop"@) by {
        reveal_strlit("bookmark_get");
        reveal_strlit("scan_stop");
        assert("bookmark_get"@.len() != "scan_stop"@.len());
    }
    assert("bookmark_get"@ != "record_start"@) by {
        reveal_strlit("bookmark_get");
        reveal_strlit("record_start");
        assert("bookmark_get"@[0] != "record_start"@[0]);
    }
    assert("bookmark_get"@ != "record_stop"@) by {
        reveal_strlit("bookmark_get");
        reveal_strlit("record_stop");
        assert("bookmark_get"@.len() != "record_stop"@.len());
    }
    assert("bookmark_get"@ != "bookmark_create"@) by {
        reveal_strlit("bookmark_get");
        reveal_strlit("bookmark_create");
        assert("bookmark_get"@.len() != "bookmark_create"@.len());
    }
    assert("bookmark_get"@ != "bookmark_update"@) by {
        reveal_strlit("bookmark_get");
        reveal_strlit("bookmark_update");
        assert("bookmark_get"@.len() != "bookmark_update"@.len());
    }
    assert("bookmark_get"@ != "bookmark_delete"@) by {
        reveal_strlit("bookmark_get");
        reveal_strlit("bookmark_delete");
        assert("bookmark_get"@.len() != "bookmark_delete"@.len());
    }
    assert("bookmark_update"@ != "center"@) by {
        reveal_strlit("bookmark_update");
        reveal_strlit("center");
        assert("bookmark_update"@.len() != "center"@.len());
    }
    assert("bookmark_update"@ != "rate"@) by {
        reveal_strlit("bookmark_update");
        reveal_strlit("rate");
        assert("bookmark_update"@.len() != "rate"@.len());
    }
    assert("bookmark_update"@ != "window"@) by {
        reveal_strlit("bookmark_update");
        reveal_strlit("window");
        assert("bookmark_update"@.len() != "window"@.len());
    }
    assert("bookmark_update"@ != "gains"@) by {
        reveal_strlit("bookmark_update");
        reveal_strlit("gains");
        assert("bookmark_update"@.len() != "gains"@.len());
    }
    assert("bookmark_update"@ != "bias_tee"@) by {
        reveal_strlit("bookmark_update");
        reveal_strlit("bias_tee");
        assert("bookmark_update"@.len() != "bias_tee"@.len());
    }
    assert("bookmark_update"@ != "baseband_filter"@) by {
        reveal_strlit("bookmark_update");
        reveal_strlit("baseband_filter");
        assert("bookmark_update"@[1] != "baseband_filter"@[1]);
    }
    assert("bookmark_update"@ != "display"@) by {
        reveal_strlit("bookmark_update");
        reveal_strlit("display");
        assert("bookmark_update"@.len() != "display"@.len());
    }
    assert("bookmark_update"@ != "scan_start"@) by {
        reveal_strlit("bookmark_update");
        reveal_strlit("scan_start");
        assert("bookmark_update"@.len() != "scan_start"@.len());
    }
    assert("bookmark_update"@ != "scan_stop"@) by {
        reveal_strlit("bookmark_update");
        reveal_strlit("scan_stop");
        assert("bookmark_update"@.len() != "scan_stop"@.len());
    }
    assert("bookmark_update"@ != "record_start"@) by {
        reveal_strlit("bookmark_update");
        reveal_strlit("record_start");
        assert("bookmark_update"@.len() != "record_start"@.len());
    }
    assert("bookmark_update"@ != "record_stop"@) by {
        reveal_strlit("bookmark_update");
        reveal_strlit("record_stop");
        assert("bookmark_update"@.len() != "record_stop"@.len());
    }
    assert("bookmark_update"@ != "bookmark_create"@) by {
        reveal_strlit("bookmark_update");
        reveal_strlit("bookmark_create");
        assert("bookmark_update"@[9] != "bookmark_create"@[9]);
    }
    assert("bookmark_update"@ != "bookmark_delete"@) by {
        reveal_strlit("bookmark_update");
        reveal_strlit("bookmark_delete");
        assert("bookmark_update"@[9] != "bookmark_delete"@[9]);
    }
    assert("bookmark_delete"@ != "center"@) by {
        reveal_strlit("bookmark_delete");
        reveal_strlit("center");
        assert("bookmark_delete"@.len() != "center"@.len());
    }
    assert("bookmark_delete"@ != "rate"@) by {
        reveal_strlit("bookmark_delete");
        reveal_strlit("rate");
        assert("bookmark_delete"@.len() != "rate"@.len());
    }
    assert("bookmark_delete"@ != "window"@) by {
        reveal_strlit("bookmark_delete");
        reveal_strlit("window");
        assert("bookmark_delete"@.len() != "window"@.len());
    }
    assert("bookmark_delete"@ != "gains"@) by {
        reveal_strlit("bookmark_delete");
        reveal_strlit("gains");
        assert("bookmark_delete"@.len() != "gains"@.len());
    }
    assert("bookmark_delete"@ != "bias_tee"@) by {
        reveal_strlit("bookmark_delete");
        reveal_strlit("bias_tee");
        assert("bookmark_delete"@.len() != "bias_tee"@.len());
    }
    assert("bookmark_delete"@ != "baseband_filter"@) by {
        reveal_strlit("bookmark_delete");
        reveal_strlit("baseband_filter");
        assert("bookmark_delete"@[1] != "baseband_filter"@[1]);
    }
    assert("bookmark_delete"@ != "display"@) by {
        reveal_strlit("bookmark_delete");
        reveal_strlit("display");
        assert("bookmark_delete"@.len() != "display"@.len());
    }
    assert("bookmark_delete"@ != "scan_start"@) by {
        reveal_strlit("bookmark_delete");
        reveal_strlit("scan_start");
        assert("bookmark_delete"@.len() != "scan_start"@.len());
    }
    assert("bookmark_delete"@ != "scan_stop"@) by {
        reveal_strlit("bookmark_delete");
        reveal_strlit("scan_stop");
        assert("bookmark_delete"@.len() != "scan_stop"@.len());
    }
    assert("bookmark_delete"@ != "record_start"@) by {
        reveal_strlit("bookmark_delete");
        reveal_strlit("record_start");
        assert("bookmark_delete"@.len() != "record_start"@.len());
    }
    assert("bookmark_delete"@ != "record_stop"@) by {
        reveal_strlit("bookmark_delete");
        reveal_strlit("record_stop");
        assert("bookmark_delete"@.len() != "record_stop"@.len());
    }
    assert("bookmark_delete"@ != "bookmark_create"@) by {
        reveal_strlit("bookmark_delete");
        reveal_strlit("bookmark_create");
        assert("bookmark_delete"@[9] != "bookmark_create"@[9]);
    }
    assert("bookmark_delete"@ != "bookmark_update"@) by {
        reveal_strlit("bookmark_delete");
        reveal_strlit("bookmark_update");
        assert("bookmark_delete"@[9] != "bookmark_update"@[9]);
    }
}

/// A tuning is written as it is: its frequency, its rate, each stage's gain under its name, and
/// whether the antenna is powered.
pub proof fn a_tuning_is_written_as_it_is(t: LiveTuning, v: Seq<NamedGain>, g: NamedGain, x: Seq<char>)
    ensures
        at(t.json_v(), "center_hz"@) == Some(real_v(t.center_hz)),
        at(t.json_v(), "sample_rate_hz"@) == Some(real_v(t.sample_rate_hz)),
        at(t.json_v(), "gains"@) == Some(JsonV::Object(gains_fields(t.gains@))),
        at(t.json_v(), "bias_tee"@) == Some(JsonV::Text(t.bias_tee.wire())),
        at(t.json_v(), "baseband_filter_hz"@) == Some(opt_real_v(t.baseband_filter_hz)),
        member(gains_fields(v.push(g)), g.stage@) == Some(real_v(g.db)),
        x != g.stage@ ==> member(gains_fields(v.push(g)), x) == member(gains_fields(v), x),
        BiasTee::On.wire() == "on"@ && BiasTee::Off.wire() == "off"@,
{
    let f = t.json_v()->Object_0;
    member_is_the_first(f, "center_hz"@, 0);
    assert("center_hz"@ != "sample_rate_hz"@) by {
        reveal_strlit("center_hz");
        reveal_strlit("sample_rate_hz");
        assert("center_hz"@.len() != "sample_rate_hz"@.len());
    }
    member_is_the_first(f, "sample_rate_hz"@, 1);
    assert("center_hz"@ != "gains"@) by {
        reveal_strlit("center_hz");
        reveal_strlit("gains");
        assert("center_hz"@.len() != "gains"@.len());
    }
    assert("sample_rate_hz"@ != "gains"@) by {
        reveal_strlit("sample_rate_hz");
        reveal_strlit("gains");
        assert("sample_rate_hz"@.len() != "gains"@.len());
    }
    member_is_the_first(f, "gains"@, 2);
    assert("center_hz"@ != "bias_tee"@) by {
        reveal_strlit("center_hz");
        reveal_strlit("bias_tee");
        assert("center_hz"@.len() != "bias_tee"@.len());
    }
    assert("sample_rate_hz"@ != "bias_tee"@) by {
        reveal_strlit("sample_rate_hz");
        reveal_strlit("bias_tee");
        assert("sample_rate_hz"@.len() != "bias_tee"@.len());
    }
    assert("gains"@ != "bias_tee"@) by {
        reveal_strlit("gains");
        reveal_strlit("bias_tee");
        assert("gains"@.len() != "bias_tee"@.len());
    }
    member_is_the_first(f, "bias_tee"@, 3);
    assert("center_hz"@ != "baseband_filter_hz"@) by {
        reveal_strlit("center_hz");
        reveal_strlit("baseband_filter_hz");
        assert("center_hz"@.len() != "baseband_filter_hz"@.len());
    }
    assert("sample_rate_hz"@ != "baseband_filter_hz"@) by {
        reveal_strlit("sample_rate_hz");
        reveal_strlit("baseband_filter_hz");
        assert("sample_rate_hz"@.len() != "baseband_filter_hz"@.len());
    }
    assert("gains"@ != "baseband_filter_hz"@) by {
        reveal_strlit("gains");
        reveal_strlit("baseband_filter_hz");
        assert("gains"@.len() != "baseband_filter_hz"@.len());
    }
    assert("bias_tee"@ != "baseband_filter_hz"@) by {
        reveal_strlit("bias_tee");
        reveal_strlit("baseband_filter_hz");
        assert("bias_tee"@.len() != "baseband_filter_hz"@.len());
    }
    member_is_the_first(f, "baseband_filter_hz"@, 4);
    assert(v.push(g).drop_last() =~= v);
    member_set(gains_fields(v), g.stage@, real_v(g.db));
    if x != g.stage@ {
        other_members_stay(gains_fields(v), g.stage@, real_v(g.db), x);
    }
}

/// A run is written as it is.
pub proof fn a_run_is_written_as_it_is(r: RunState)
    ensures
        at(r.json_v(), "live"@) == Some(JsonV::Bool(r.live)),
        at(r.json_v(), "content_permitted"@) == Some(JsonV::Bool(r.content_permitted)),
        at(r.json_v(), "center_hz"@) == Some(real_v(r.center_hz)),
        at(r.json_v(), "sample_rate_hz"@) == Some(real_v(r.sample_rate_hz)),
        at(r.json_v(), "segment"@) == Some(uint_v(r.segment as int)),
        at(r.json_v(), "replumbing"@) == Some(JsonV::Bool(r.replumbing)),
        at(r.json_v(), "finished"@) == Some(JsonV::Bool(r.finished)),
        at(r.json_v(), "capture"@) == Some(JsonV::Text(r.capture.wire())),
        at(r.json_v(), "display"@) == Some(r.display.json_v()),
        at(r.json_v(), "recording"@) == Some(r.recording.json_v()),
{
    let f = r.json_v()->Object_0;
    member_is_the_first(f, "live"@, 0);
    assert("live"@ != "content_permitted"@) by {
        reveal_strlit("live");
        reveal_strlit("content_permitted");
        assert("live"@.len() != "content_permitted"@.len());
    }
    assert("content_class"@ != "content_permitted"@) by {
        reveal_strlit("content_class");
        reveal_strlit("content_permitted");
        assert("content_class"@.len() != "content_permitted"@.len());
    }
    member_is_the_first(f, "content_permitted"@, 2);
    assert("live"@ != "center_hz"@) by {
        reveal_strlit("live");
        reveal_strlit("center_hz");
        assert("live"@.len() != "center_hz"@.len());
    }
    assert("content_class"@ != "center_hz"@) by {
        reveal_strlit("content_class");
        reveal_strlit("center_hz");
        assert("content_class"@.len() != "center_hz"@.len());
    }
    assert("content_permitted"@ != "center_hz"@) by {
        reveal_strlit("content_permitted");
        reveal_strlit("center_hz");
        assert("content_permitted"@.len() != "center_hz"@.len());
    }
    member_is_the_first(f, "center_hz"@, 3);
    assert("live"@ != "sample_rate_hz"@) by {
        reveal_strlit("live");
        reveal_strlit("sample_rate_hz");
        assert("live"@.len() != "sample_rate_hz"@.len());
    }
    assert("content_class"@ != "sample_rate_hz"@) by {
        reveal_strlit("content_class");
        reveal_strlit("sample_rate_hz");
        assert("content_class"@.len() != "sample_rate_hz"@.len());
    }
    assert("content_permitted"@ != "sample_rate_hz"@) by {
        reveal_strlit("content_permitted");
        reveal_strlit("sample_rate_hz");
        assert("content_permitted"@.len() != "sample_rate_hz"@.len());
    }
    assert("center_hz"@ != "sample_rate_hz"@) by {
        reveal_strlit("center_hz");
        reveal_strlit("sample_rate_hz");
        assert("center_hz"@.len() != "sample_rate_hz"@.len());
    }
    member_is_the_first(f, "sample_rate_hz"@, 4);
    assert("live"@ != "segment"@) by {
        reveal_strlit("live");
        reveal_strlit("segment");
        assert("live"@.len() != "segment"@.len());
    }
    assert("content_class"@ != "segment"@) by {
        reveal_strlit("content_class");
        reveal_strlit("segment");
        assert("content_class"@.len() != "segment"@.len());
    }
    assert("content_permitted"@ != "segment"@) by {
        reveal_strlit("content_permitted");
        reveal_strlit("segment");
        assert("content_permitted"@.len() != "segment"@.len());
    }
    assert("center_hz"@ != "segment"@) by {
        reveal_strlit("center_hz");
        reveal_strlit("segment");
        assert("center_hz"@.len() != "segment"@.len());
    }
    assert("sample_rate_hz"@ != "segment"@) by {
        reveal_strlit("sample_rate_hz");
        reveal_strlit("segment");
        assert("sample_rate_hz"@.len() != "segment"@.len());
    }
    member_is_the_first(f, "segment"@, 5);
    assert("live"@ != "replumbing"@) by {
        reveal_strlit("live");
        reveal_strlit("replumbing");
        assert("live"@.len() != "replumbing"@.len());
    }
    assert("content_class"@ != "replumbing"@) by {
        reveal_strlit("content_class");
        reveal_strlit("replumbing");
        assert("content_class"@.len() != "replumbing"@.len());
    }
    assert("content_permitted"@ != "replumbing"@) by {
        reveal_strlit("content_permitted");
        reveal_strlit("replumbing");
        assert("content_permitted"@.len() != "replumbing"@.len());
    }
    assert("center_hz"@ != "replumbing"@) by {
        reveal_strlit("center_hz");
        reveal_strlit("replumbing");
        assert("center_hz"@.len() != "replumbing"@.len());
    }
    assert("sample_rate_hz"@ != "replumbing"@) by {
        reveal_strlit("sample_rate_hz");
        reveal_strlit("replumbing");
        assert("sample_rate_hz"@.len() != "replumbing"@.len());
    }
    assert("segment"@ != "replumbing"@) by {
        reveal_strlit("segment");
        reveal_strlit("replumbing");
        assert("segment"@.len() != "replumbing"@.len());
    }
    member_is_the_first(f, "replumbing"@, 6);
    assert("live"@ != "finished"@) by {
        reveal_strlit("live");
        reveal_strlit("finished");
        assert("live"@.len() != "finished"@.len());
    }
    assert("content_class"@ != "finished"@) by {
        reveal_strlit("content_class");
        reveal_strlit("finished");
        assert("content_class"@.len() != "finished"@.len());
    }
    assert("content_permitted"@ != "finished"@) by {
        reveal_strlit("content_permitted");
        reveal_strlit("finished");
        assert("content_permitted"@.len() != "finished"@.len());
    }
    assert("center_hz"@ != "finished"@) by {
        reveal_strlit("center_hz");
        reveal_strlit("finished");
        assert("center_hz"@.len() != "finished"@.len());
    }
    assert("sample_rate_hz"@ != "finished"@) by {
        reveal_strlit("sample_rate_hz");
        reveal_strlit("finished");
        assert("sample_rate_hz"@.len() != "finished"@.len());
    }
    assert("segment"@ != "finished"@) by {
        reveal_strlit("segment");
        reveal_strlit("finished");
        assert("segment"@.len() != "finished"@.len());
    }
    assert("replumbing"@ != "finished"@) by {
        reveal_strlit("replumbing");
        reveal_strlit("finished");
        assert("replumbing"@.len() != "finished"@.len());
    }
    member_is_the_first(f, "finished"@, 7);
    assert("live"@ != "capture"@) by {
        reveal_strlit("live");
        reveal_strlit("capture");
        assert("live"@.len() != "capture"@.len());
    }
    assert("content_class"@ != "capture"@) by {
        reveal_strlit("content_class");
        reveal_strlit("capture");
        assert("content_class"@.len() != "capture"@.len());
    }
    assert("content_permitted"@ != "capture"@) by {
        reveal_strlit("content_permitted");
        reveal_strlit("capture");
        assert("content_permitted"@.len() != "capture"@.len());
    }
    assert("center_hz"@ != "capture"@) by {
        reveal_strlit("center_hz");
        reveal_strlit("capture");
        assert("center_hz"@.len() != "capture"@.len());
    }
    assert("sample_rate_hz"@ != "capture"@) by {
        reveal_strlit("sample_rate_hz");
        reveal_strlit("capture");
        assert("sample_rate_hz"@.len() != "capture"@.len());
    }
    assert("segment"@ != "capture"@) by {
        reveal_strlit("segment");
        reveal_strlit("capture");
        assert("segment"@[0] != "capture"@[0]);
    }
    assert("replumbing"@ != "capture"@) by {
        reveal_strlit("replumbing");
        reveal_strlit("capture");
        assert("replumbing"@.len() != "capture"@.len());
    }
    assert("finished"@ != "capture"@) by {
        reveal_strlit("finished");
        reveal_strlit("capture");
        assert("finished"@.len() != "capture"@.len());
    }
    member_is_the_first(f, "capture"@, 8);
    assert("live"@ != "display"@) by {
        reveal_strlit("live");
        reveal_strlit("display");
        assert("live"@.len() != "display"@.len());
    }
    assert("content_class"@ != "display"@) by {
        reveal_strlit("content_class");
        reveal_strlit("display");
        assert("content_class"@.len() != "display"@.len());
    }
    assert("content_permitted"@ != "display"@) by {
        reveal_strlit("content_permitted");
        reveal_strlit("display");
        assert("content_permitted"@.len() != "display"@.len());
    }
    assert("center_hz"@ != "display"@) by {
        reveal_strlit("center_hz");
        reveal_strlit("display");
        assert("center_hz"@.len() != "display"@.len());
    }
    assert("sample_rate_hz"@ != "display"@) by {
        reveal_strlit("sample_rate_hz");
        reveal_strlit("display");
        assert("sample_rate_hz"@.len() != "display"@.len());
    }
    assert("segment"@ != "display"@) by {
        reveal_strlit("segment");
        reveal_strlit("display");
        assert("segment"@[0] != "display"@[0]);
    }
    assert("replumbing"@ != "display"@) by {
        reveal_strlit("replumbing");
        reveal_strlit("display");
        assert("replumbing"@.len() != "display"@.len());
    }
    assert("finished"@ != "display"@) by {
        reveal_strlit("finished");
        reveal_strlit("display");
        assert("finished"@.len() != "display"@.len());
    }
    assert("capture"@ != "display"@) by {
        reveal_strlit("capture");
        reveal_strlit("display");
        assert("capture"@[0] != "display"@[0]);
    }
    assert("capture_note"@ != "display"@) by {
        reveal_strlit("capture_note");
        reveal_strlit("display");
        assert("capture_note"@.len() != "display"@.len());
    }
    member_is_the_first(f, "display"@, 10);
    assert("live"@ != "recording"@) by {
        reveal_strlit("live");
        reveal_strlit("recording");
        assert("live"@.len() != "recording"@.len());
    }
    assert("content_class"@ != "recording"@) by {
        reveal_strlit("content_class");
        reveal_strlit("recording");
        assert("content_class"@.len() != "recording"@.len());
    }
    assert("content_permitted"@ != "recording"@) by {
        reveal_strlit("content_permitted");
        reveal_strlit("recording");
        assert("content_permitted"@.len() != "recording"@.len());
    }
    assert("center_hz"@ != "recording"@) by {
        reveal_strlit("center_hz");
        reveal_strlit("recording");
        assert("center_hz"@[0] != "recording"@[0]);
    }
    assert("sample_rate_hz"@ != "recording"@) by {
        reveal_strlit("sample_rate_hz");
        reveal_strlit("recording");
        assert("sample_rate_hz"@.len() != "recording"@.len());
    }
    assert("segment"@ != "recording"@) by {
        reveal_strlit("segment");
        reveal_strlit("recording");
        assert("segment"@.len() != "recording"@.len());
    }
    assert("replumbing"@ != "recording"@) by {
        reveal_strlit("replumbing");
        reveal_strlit("recording");
        assert("replumbing"@.len() != "recording"@.len());
    }
    assert("finished"@ != "recording"@) by {
        reveal_strlit("finished");
        reveal_strlit("recording");
        assert("finished"@.len() != "recording"@.len());
    }
    assert("capture"@ != "recording"@) by {
        reveal_strlit("capture");
        reveal_strlit("recording");
        assert("capture"@.len() != "recording"@.len());
    }
    assert("capture_note"@ != "recording"@) by {
        reveal_strlit("capture_note");
        reveal_strlit("recording");
        assert("capture_note"@.len() != "recording"@.len());
    }
    assert("display"@ != "recording"@) by {
        reveal_strlit("display");
        reveal_strlit("recording");
        assert("display"@.len() != "recording"@.len());
    }
    member_is_the_first(f, "recording"@, 11);
}

/// The settings of the display and of a recording are written as they are.
pub proof fn settings_are_written_as_they_are(d: DisplayState, r: RecordingState)
    ensures
        at(d.json_v(), "fft_size"@) == Some(uint_v(d.fft_size as int)),
        at(d.json_v(), "averaging"@) == Some(uint_v(d.averaging as int)),
        at(d.json_v(), "rows_per_s"@) == Some(real_v(d.rows_per_s)),
        at(d.json_v(), "window"@) == Some(JsonV::Text(d.window@)),
        at(r.json_v(), "active"@) == Some(JsonV::Bool(r.active)),
        at(r.json_v(), "center_hz"@) == Some(opt_real_v(r.center_hz)),
        at(r.json_v(), "sample_rate_hz"@) == Some(opt_real_v(r.sample_rate_hz)),
        at(r.json_v(), "samples"@) == Some(uint_v(r.samples as int)),
        at(r.json_v(), "lost_samples"@) == Some(uint_v(r.lost_samples as int)),
        at(r.json_v(), "max_s"@) == Some(real_v(r.max_s)),
        at(r.json_v(), "stored"@) == Some(JsonV::Bool(r.stored)),
{
    let f = d.json_v()->Object_0;
    member_is_the_first(f, "fft_size"@, 0);
    assert("fft_size"@ != "averaging"@) by {
        reveal_strlit("fft_size");
        reveal_strlit("averaging");
        assert("fft_size"@.len() != "averaging"@.len());
    }
    member_is_the_first(f, "averaging"@, 1);
    assert("fft_size"@ != "rows_per_s"@) by {
        reveal_strlit("fft_size");
        reveal_strlit("rows_per_s");
        assert("fft_size"@.len() != "rows_per_s"@.len());
    }
    assert("averaging"@ != "rows_per_s"@) by {
        reveal_strlit("averaging");
        reveal_strlit("rows_per_s");
        assert("averaging"@.len() != "rows_per_s"@.len());
    }
    member_is_the_first(f, "rows_per_s"@, 2);
    assert("fft_size"@ != "window"@) by {
        reveal_strlit("fft_size");
        reveal_strlit("window");
        assert("fft_size"@.len() != "window"@.len());
    }
    assert("averaging"@ != "window"@) by {
        reveal_strlit("averaging");
        reveal_strlit("window");
        assert("averaging"@.len() != "window"@.len());
    }
    assert("rows_per_s"@ != "window"@) by {
        reveal_strlit("rows_per_s");
        reveal_strlit("window");
        assert("rows_per_s"@.len() != "window"@.len());
    }
    member_is_the_first(f, "window"@, 3);
    let g = r.json_v()->Object_0;
    member_is_the_first(g, "active"@, 0);
    assert("active"@ != "center_hz"@) by {
        reveal_strlit("active");
        reveal_strlit("center_hz");
        assert("active"@.len() != "center_hz"@.len());
    }
    assert("id"@ != "center_hz"@) by {
        reveal_strlit("id");
        reveal_strlit("center_hz");
        assert("id"@.len() != "center_hz"@.len());
    }
    assert("label"@ != "center_hz"@) by {
        reveal_strlit("label");
        reveal_strlit("center_hz");
        assert("label"@.len() != "center_hz"@.len());
    }
    member_is_the_first(g, "center_hz"@, 3);
    assert("active"@ != "sample_rate_hz"@) by {
        reveal_strlit("active");
        reveal_strlit("sample_rate_hz");
        assert("active"@.len() != "sample_rate_hz"@.len());
    }
    assert("id"@ != "sample_rate_hz"@) by {
        reveal_strlit("id");
        reveal_strlit("sample_rate_hz");
        assert("id"@.len() != "sample_rate_hz"@.len());
    }
    assert("label"@ != "sample_rate_hz"@) by {
        reveal_strlit("label");
        reveal_strlit("sample_rate_hz");
        assert("label"@.len() != "sample_rate_hz"@.len());
    }
    assert("center_hz"@ != "sample_rate_hz"@) by {
        reveal_strlit("center_hz");
        reveal_strlit("sample_rate_hz");
        assert("center_hz"@.len() != "sample_rate_hz"@.len());
    }
    member_is_the_first(g, "sample_rate_hz"@, 4);
    assert("active"@ != "samples"@) by {
        reveal_strlit("active");
        reveal_strlit("samples");
        assert("active"@.len() != "samples"@.len());
    }
    assert("id"@ != "samples"@) by {
        reveal_strlit("id");
        reveal_strlit("samples");
        assert("id"@.len() != "samples"@.len());
    }
    assert("label"@ != "samples"@) by {
        reveal_strlit("label");
        reveal_strlit("samples");
        assert("label"@.len() != "samples"@.len());
    }
    assert("center_hz"@ != "samples"@) by {
        reveal_strlit("center_hz");
        reveal_strlit("samples");
        assert("center_hz"@.len() != "samples"@.len());
    }
    assert("sample_rate_hz"@ != "samples"@) by {
        reveal_strlit("sample_rate_hz");
        reveal_strlit("samples");
        assert("sample_rate_hz"@.len() != "samples"@.len());
    }
    member_is_the_first(g, "samples"@, 5);
    assert("active"@ != "lost_samples"@) by {
        reveal_strlit("active");
        reveal_strlit("lost_samples");
        assert("active"@.len() != "lost_samples"@.len());
    }
    assert("id"@ != "lost_samples"@) by {
        reveal_strlit("id");
        reveal_strlit("lost_samples");
        assert("id"@.len() != "lost_samples"@.len());
    }
    assert("label"@ != "lost_samples"@) by {
        reveal_strlit("label");
        reveal_strlit("lost_samples");
        assert("label"@.len() != "lost_samples"@.len());
    }
    assert("center_hz"@ != "lost_samples"@) by {
        reveal_strlit("center_hz");
        reveal_strlit("lost_samples");
        assert("center_hz"@.len() != "lost_samples"@.len());
    }
    assert("sample_rate_hz"@ != "lost_samples"@) by {
        reveal_strlit("sample_rate_hz");
        reveal_strlit("lost_samples");
        assert("sample_rate_hz"@.len() != "lost_samples"@.len());
    }
    assert("samples"@ != "lost_samples"@) by {
        reveal_strlit("samples");
        reveal_strlit("lost_samples");
        assert("samples"@.len() != "lost_samples"@.len());
    }
    member_is_the_first(g, "lost_samples"@, 6);
    assert("active"@ != "max_s"@) by {
        reveal_strlit("active");
        reveal_strlit("max_s");
        assert("active"@.len() != "max_s"@.len());
    }
    assert("id"@ != "max_s"@) by {
        reveal_strlit("id");
        reveal_strlit("max_s");
        assert("id"@.len() != "max_s"@.len());
    }
    assert("label"@ != "max_s"@) by {
        reveal_strlit("label");
        reveal_strlit("max_s");
        assert("label"@[0] != "max_s"@[0]);
    }
    assert("center_hz"@ != "max_s"@) by {
        reveal_strlit("center_hz");
        reveal_strlit("max_s");
        assert("center_hz"@.len() != "max_s"@.len());
    }
    assert("sample_rate_hz"@ != "max_s"@) by {
        reveal_strlit("sample_rate_hz");
        reveal_strlit("max_s");
        assert("sample_rate_hz"@.len() != "max_s"@.len());
    }
    assert("samples"@ != "max_s"@) by {
        reveal_strlit("samples");
        reveal_strlit("max_s");
        assert("samples"@.len() != "max_s"@.len());
    }
    assert("lost_samples"@ != "max_s"@) by {
        reveal_strlit("lost_samples");
        reveal_strlit("max_s");
        assert("lost_samples"@.len() != "max_s"@.len());
    }
    member_is_the_first(g, "max_s"@, 7);
    assert("active"@ != "stored"@) by {
        reveal_strlit("active");
        reveal_strlit("stored");
        assert("active"@[0] != "stored"@[0]);
    }
    assert("id"@ != "stored"@) by {
        reveal_strlit("id");
        reveal_strlit("stored");
        assert("id"@.len() != "stored"@.len());
    }
    assert("label"@ != "stored"@) by {
        reveal_strlit("label");
        reveal_strlit("stored");
        assert("label"@.len() != "stored"@.len());
    }
    assert("center_hz"@ != "stored"@) by {
        reveal_strlit("center_hz");
        reveal_strlit("stored");
        assert("center_hz"@.len() != "stored"@.len());
    }
    assert("sample_rate_hz"@ != "stored"@) by {
        reveal_strlit("sample_rate_hz");
        reveal_strlit("stored");
        assert("sample_rate_hz"@.len() != "stored"@.len());
    }
    assert("samples"@ != "stored"@) by {
        reveal_strlit("samples");
        reveal_strlit("stored");
        assert("samples"@.len() != "stored"@.len());
    }
    assert("lost_samples"@ != "stored"@) by {
        reveal_strlit("lost_samples");
        reveal_strlit("stored");
        assert("lost_samples"@.len() != "stored"@.len());
    }
    assert("max_s"@ != "stored"@) by {
        reveal_strlit("max_s");
        reveal_strlit("stored");
        assert("max_s"@.len() != "stored"@.len());
    }
    member_is_the_first(g, "stored"@, 8);
}

/// The state says of the front end and of the run what each is, and of neither anything where it is
/// not there.
pub proof fn the_state_is_of_what_is_there(s: Snapshot)
    ensures
        at(s.json_v(), "live"@) == Some(JsonV::Bool(s.live is Some)),
        s.live matches Some((id, c, t)) ==> at(s.json_v(), "device"@) == Some(
            c.device_v(opt_string(id)),
        ) && at(s.json_v(), "tuning"@) == Some(t.json_v()),
        s.live is None ==> at(s.json_v(), "device"@) == Some(JsonV::Null) && at(s.json_v(), "tuning"@)
            == Some(JsonV::Null),
        s.run matches Some((r, l)) ==> at(s.json_v(), "run"@) == Some(r.json_v()) && at(
            s.json_v(),
            "display_limits"@,
        ) == Some(l.json_v()),
        s.run is None ==> at(s.json_v(), "run"@) == Some(JsonV::Null) && at(
            s.json_v(),
            "display_limits"@,
        ) == Some(JsonV::Null),
        at(s.json_v(), "scan"@) == Some(opt_json_v(s.scan)),
        at(s.json_v(), "audit"@) == Some(JsonV::Bool(s.audit)),
        at(s.json_v(), "routes"@) == Some(JsonV::Array(routes_v())),
{
    let f = s.json_v()->Object_0;
    member_is_the_first(f, "live"@, 0);
    assert("live"@ != "device"@) by {
        reveal_strlit("live");
        reveal_strlit("device");
        assert("live"@.len() != "device"@.len());
    }
    member_is_the_first(f, "device"@, 1);
    assert("live"@ != "tuning"@) by {
        reveal_strlit("live");
        reveal_strlit("tuning");
        assert("live"@.len() != "tuning"@.len());
    }
    assert("device"@ != "tuning"@) by {
        reveal_strlit("device");
        reveal_strlit("tuning");
        assert("device"@[0] != "tuning"@[0]);
    }
    member_is_the_first(f, "tuning"@, 2);
    assert("live"@ != "run"@) by {
        reveal_strlit("live");
        reveal_strlit("run");
        assert("live"@.len() != "run"@.len());
    }
    assert("device"@ != "run"@) by {
        reveal_strlit("device");
        reveal_strlit("run");
        assert("device"@.len() != "run"@.len());
    }
    assert("tuning"@ != "run"@) by {
        reveal_strlit("tuning");
        reveal_strlit("run");
        assert("tuning"@.len() != "run"@.len());
    }
    member_is_the_first(f, "run"@, 3);
    assert("live"@ != "scan"@) by {
        reveal_strlit("live");
        reveal_strlit("scan");
        assert("live"@[0] != "scan"@[0]);
    }
    assert("device"@ != "scan"@) by {
        reveal_strlit("device");
        reveal_strlit("scan");
        assert("device"@.len() != "scan"@.len());
    }
    assert("tuning"@ != "scan"@) by {
        reveal_strlit("tuning");
        reveal_strlit("scan");
        assert("tuning"@.len() != "scan"@.len());
    }
    assert("run"@ != "scan"@) by {
        reveal_strlit("run");
        reveal_strlit("scan");
        assert("run"@.len() != "scan"@.len());
    }
    member_is_the_first(f, "scan"@, 4);
    assert("live"@ != "display_limits"@) by {
        reveal_strlit("live");
        reveal_strlit("display_limits");
        assert("live"@.len() != "display_limits"@.len());
    }
    assert("device"@ != "display_limits"@) by {
        reveal_strlit("device");
        reveal_strlit("display_limits");
        assert("device"@.len() != "display_limits"@.len());
    }
    assert("tuning"@ != "display_limits"@) by {
        reveal_strlit("tuning");
        reveal_strlit("display_limits");
        assert("tuning"@.len() != "display_limits"@.len());
    }
    assert("run"@ != "display_limits"@) by {
        reveal_strlit("run");
        reveal_strlit("display_limits");
        assert("run"@.len() != "display_limits"@.len());
    }
    assert("scan"@ != "display_limits"@) by {
        reveal_strlit("scan");
        reveal_strlit("display_limits");
        assert("scan"@.len() != "display_limits"@.len());
    }
    member_is_the_first(f, "display_limits"@, 5);
    assert("live"@ != "audit"@) by {
        reveal_strlit("live");
        reveal_strlit("audit");
        assert("live"@.len() != "audit"@.len());
    }
    assert("device"@ != "audit"@) by {
        reveal_strlit("device");
        reveal_strlit("audit");
        assert("device"@.len() != "audit"@.len());
    }
    assert("tuning"@ != "audit"@) by {
        reveal_strlit("tuning");
        reveal_strlit("audit");
        assert("tuning"@.len() != "audit"@.len());
    }
    assert("run"@ != "audit"@) by {
        reveal_strlit("run");
        reveal_strlit("audit");
        assert("run"@.len() != "audit"@.len());
    }
    assert("scan"@ != "audit"@) by {
        reveal_strlit("scan");
        reveal_strlit("audit");
        assert("scan"@.len() != "audit"@.len());
    }
    assert("display_limits"@ != "audit"@) by {
        reveal_strlit("display_limits");
        reveal_strlit("audit");
        assert("display_limits"@.len() != "audit"@.len());
    }
    assert("transmit"@ != "audit"@) by {
        reveal_strlit("transmit");
        reveal_strlit("audit");
        assert("transmit"@.len() != "audit"@.len());
    }
    member_is_the_first(f, "audit"@, 7);
    assert("live"@ != "routes"@) by {
        reveal_strlit("live");
        reveal_strlit("routes");
        assert("live"@.len() != "routes"@.len());
    }
    assert("device"@ != "routes"@) by {
        reveal_strlit("device");
        reveal_strlit("routes");
        assert("device"@[0] != "routes"@[0]);
    }
    assert("tuning"@ != "routes"@) by {
        reveal_strlit("tuning");
        reveal_strlit("routes");
        assert("tuning"@[0] != "routes"@[0]);
    }
    assert("run"@ != "routes"@) by {
        reveal_strlit("run");
        reveal_strlit("routes");
        assert("run"@.len() != "routes"@.len());
    }
    assert("scan"@ != "routes"@) by {
        reveal_strlit("scan");
        reveal_strlit("routes");
        assert("scan"@.len() != "routes"@.len());
    }
    assert("display_limits"@ != "routes"@) by {
        reveal_strlit("display_limits");
        reveal_strlit("routes");
        assert("display_limits"@.len() != "routes"@.len());
    }
    assert("transmit"@ != "routes"@) by {
        reveal_strlit("transmit");
        reveal_strlit("routes");
        assert("transmit"@.len() != "routes"@.len());
    }
    assert("audit"@ != "routes"@) by {
        reveal_strlit("audit");
        reveal_strlit("routes");
        assert("audit"@.len() != "routes"@.len());
    }
    member_is_the_first(f, "routes"@, 8);
}

/// Two bands overlap where a frequency is in both; it does not matter which is named first, and bands
/// that only touch do not.
pub proof fn bands_overlap_where_they_share_a_frequency(a: Span, b: Span, f: Real)
    ensures
        a.lo.at_most(f) && f.below(a.hi) && b.lo.at_most(f) && f.below(b.hi) ==> a.overlaps_band(b),
        a.overlaps_band(b) == b.overlaps_band(a),
        a.hi.at_most(b.lo) ==> !a.overlaps_band(b),
{
}

} // verus!
