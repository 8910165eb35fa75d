//! Dispatch: from a planned command's outcome to the answer and the audit entry.

use vstd::prelude::*;

use crate::body::{
    body_of, fail_v, members_result, parse_body, refusal_of, CtlResponse, CtlResponseV, Fail, FailV,
};
use crate::command::Bookmark;
use crate::control::{
    Action, DeviceAction, DisplayState, LiveTuning, Reach, RecordingState, RunState,
};
use crate::json::{
    as_bool, at, copy_fields, error_v, member_is_the_first, no_fields, opt_text_v, opt_v, optional,
    seconds_v, text_v, uint_v, with_member, Fields, Json, JsonV, ToJson,
};
use crate::request::{Caller, CallerV};
use crate::text::{opt_string, opt_text, same};

verus! {

/// A successful mutating action: status, response body, and the old and new values audited.
pub struct Applied {
    /// The HTTP status.
    pub status: u16,
    /// The answer.
    pub body: Json,
    /// What was before.
    pub old: Json,
    /// What is now.
    pub new: Json,
}

/// What an [`Applied`] holds.
pub struct AppliedV {
    /// The HTTP status.
    pub status: u16,
    /// The answer.
    pub body: JsonV,
    /// What was before.
    pub old: JsonV,
    /// What is now.
    pub new: JsonV,
}

impl Applied {
    /// What it holds.
    pub open spec fn view(&self) -> AppliedV {
        AppliedV {
            status: self.status,
            body: self.body.view(),
            old: self.old.view(),
            new: self.new.view(),
        }
    }
}

/// A success with status 200.
pub open spec fn ok_v(body: JsonV, old_value: JsonV, new: JsonV) -> AppliedV {
    AppliedV { status: 200, body, old: old_value, new }
}

/// [`ok_v`].
pub fn ok(body: Json, old_value: Json, new: Json) -> (r: Applied)
    ensures
        r@ == ok_v(body.view(), old_value.view(), new.view()),
{
    Applied { status: 200, body, old: old_value, new }
}

/// What the outcome of an action holds.
pub open spec fn applied_result(r: Result<Applied, Fail>) -> Result<AppliedV, FailV> {
    match r {
        Ok(a) => Ok(a@),
        Err(f) => Err(f@),
    }
}

// ---------------------------------------------------------------------------------------------
// Answers
// ---------------------------------------------------------------------------------------------

/// Which front end a device action reached and which action it was. `id` is `null` where the
/// source reports no identity, never a placeholder.
pub open spec fn device_v(action: DeviceAction, id: Option<Seq<char>>) -> JsonV {
    JsonV::Object(
        no_fields().push(("action"@, text_v(action.wire()))).push(("id"@, opt_text_v(id))),
    )
}

/// [`device_v`].
pub fn device_json(action: DeviceAction, id: &Option<String>) -> (r: Json)
    ensures
        r.view() == device_v(action, opt_string(*id)),
{
    let mut f = Fields::new();
    f.put("action", Json::text(action.as_str()));
    f.put("id", Json::opt_text(id));
    f.object()
}

/// Which front end is committed to a programme of device actions: it says `commissions`, never
/// `action`, because no front end moved while the request was in flight.
pub open spec fn commissioned_v(action: DeviceAction, id: Option<Seq<char>>) -> JsonV {
    JsonV::Object(
        no_fields().push(("commissions"@, text_v(action.wire()))).push(("id"@, opt_text_v(id))),
    )
}

/// [`commissioned_v`].
pub fn commissioned_json(action: DeviceAction, id: &Option<String>) -> (r: Json)
    ensures
        r.view() == commissioned_v(action, opt_string(*id)),
{
    let mut f = Fields::new();
    f.put("commissions", Json::text(action.as_str()));
    f.put("id", Json::opt_text(id));
    f.object()
}

/// The `device` member of an action's audit entry: none for a view change.
pub open spec fn audited_device(reach: Reach, id: Option<Seq<char>>) -> Option<JsonV> {
    match reach {
        Reach::Device(d) => Some(device_v(d, id)),
        Reach::Commissions(d) => Some(commissioned_v(d, id)),
        Reach::View => None,
    }
}

/// What an optional value holds.
pub open spec fn json_opt(j: Option<Json>) -> Option<JsonV> {
    match j {
        Some(j) => Some(j.view()),
        None => None,
    }
}

/// [`audited_device`].
pub fn device_entry(reach: Reach, id: &Option<String>) -> (r: Option<Json>)
    ensures
        json_opt(r) == audited_device(reach, opt_string(*id)),
{
    match reach {
        Reach::Device(d) => Some(device_json(d, id)),
        Reach::Commissions(d) => Some(commissioned_json(d, id)),
        Reach::View => None,
    }
}

/// Whether a device action's answer also says what the run is doing: those that can re-plumb it.
pub open spec fn replumbs(action: DeviceAction) -> bool {
    action is Retune || action is Rate || action is Window
}

/// The answer of a device action: the tuning, the run where the action can re-plumb it, and which
/// front end it reached.
pub open spec fn tuned_v(
    action: DeviceAction,
    before: LiveTuning,
    after: LiveTuning,
    run: Option<RunState>,
    id: Option<Seq<char>>,
) -> AppliedV {
    let t = no_fields().push(("tuning"@, after.json_v()));
    let u = if replumbs(action) {
        t.push(("run"@, opt_v(run)))
    } else {
        t
    };
    ok_v(JsonV::Object(u.push(("device"@, device_v(action, id)))), before.json_v(), after.json_v())
}

/// [`tuned_v`].
pub fn tuned(
    action: DeviceAction,
    before: &LiveTuning,
    after: &LiveTuning,
    run: &Option<RunState>,
    id: &Option<String>,
) -> (r: Applied)
    ensures
        r@ == tuned_v(action, *before, *after, *run, opt_string(*id)),
{
    let mut f = Fields::new();
    f.put("tuning", after.to_json());
    let with_run = match action {
        DeviceAction::Retune | DeviceAction::Rate | DeviceAction::Window => true,
        _ => false,
    };
    if with_run {
        f.put("run", optional(run));
    }
    f.put("device", device_json(action, id));
    ok(f.object(), before.to_json(), after.to_json())
}

/// A member of a member; `null` where there is none.
pub open spec fn nested(v: JsonV, outer: Seq<char>, inner: Seq<char>) -> JsonV {
    match at(v, outer) {
        Some(o) => match at(o, inner) {
            Some(x) => x,
            None => JsonV::Null,
        },
        None => JsonV::Null,
    }
}

fn get_nested(v: &Json, outer: &str, inner: &str) -> (r: Json)
    ensures
        r.view() == nested(v.view(), outer@, inner@),
{
    match v.get(outer) {
        Some(o) => match o.get(inner) {
            Some(x) => x.copy(),
            None => Json::Null,
        },
        None => Json::Null,
    }
}

/// The answer of a started or resumed sweep. A plan that changes the rate first also commits the
/// front end to that rate.
pub open spec fn swept_v(
    before: JsonV,
    after: JsonV,
    proposed: JsonV,
    id: Option<Seq<char>>,
) -> AppliedV {
    let rate = if as_bool(nested(after, "plan"@, "changes_rate"@)) == Some(true) {
        nested(after, "plan"@, "sample_rate_hz"@)
    } else {
        JsonV::Null
    };
    let device = JsonV::Object(
        no_fields().push(("commissions"@, text_v(DeviceAction::Retune.wire()))).push(
            ("id"@, opt_text_v(id)),
        ).push(("commissions_rate_hz"@, rate)),
    );
    ok_v(
        JsonV::Object(
            no_fields().push(("scan"@, after)).push(("proposed"@, proposed)).push(
                ("device"@, device),
            ),
        ),
        before,
        after,
    )
}

/// [`swept_v`].
pub fn swept(before: Json, after: &Json, proposed: Json, id: &Option<String>) -> (r: Applied)
    ensures
        r@ == swept_v(before.view(), after.view(), proposed.view(), opt_string(*id)),
{
    let rate = match get_nested(after, "plan", "changes_rate") {
        Json::Bool(true) => get_nested(after, "plan", "sample_rate_hz"),
        _ => Json::Null,
    };
    let mut device = Fields::new();
    device.put("commissions", Json::text(DeviceAction::Retune.as_str()));
    device.put("id", Json::opt_text(id));
    device.put("commissions_rate_hz", rate);
    let mut f = Fields::new();
    f.put("scan", after.copy());
    f.put("proposed", proposed);
    f.put("device", device.object());
    ok(f.object(), before, after.copy())
}

/// An answer with one member, which is also the new value.
pub open spec fn single_v(name: Seq<char>, before: JsonV, after: JsonV) -> AppliedV {
    ok_v(JsonV::Object(no_fields().push((name, after))), before, after)
}

fn single(name: &str, before: Json, after: Json) -> (r: Applied)
    ensures
        r@ == single_v(name@, before.view(), after.view()),
{
    let mut f = Fields::new();
    f.put(name, after.copy());
    ok(f.object(), before, after)
}

/// The answer of a stopped sweep: where it stood before and after, or `null` where the server has
/// none to stop.
pub fn sweep_stopped(sweep: Option<(Json, Json)>) -> (r: Applied)
    ensures
        r@ == (match sweep {
            Some((before, after)) => single_v("scan"@, before.view(), after.view()),
            None => single_v("scan"@, JsonV::Null, JsonV::Null),
        }),
{
    match sweep {
        Some((before, after)) => single("scan", before, after),
        None => single("scan", Json::Null, Json::Null),
    }
}

/// The answer of a display change.
pub fn displayed(before: &DisplayState, after: &DisplayState) -> (r: Applied)
    ensures
        r@ == single_v("display"@, before.json_v(), after.json_v()),
{
    single("display", before.to_json(), after.to_json())
}

/// The answer of a recording started or stopped.
pub fn recorded(before: &RecordingState, after: &RecordingState) -> (r: Applied)
    ensures
        r@ == single_v("recording"@, before.json_v(), after.json_v()),
{
    single("recording", before.to_json(), after.to_json())
}

/// The answer of a created bookmark.
pub fn bookmark_created(b: &Bookmark) -> (r: Applied)
    ensures
        r@ == (AppliedV {
            status: 201,
            body: b.json_v(),
            old: JsonV::Null,
            new: b.json_v(),
        }),
{
    Applied { status: 201, body: b.to_json(), old: Json::Null, new: b.to_json() }
}

/// The answer of a changed bookmark.
pub fn bookmark_updated(before: &Bookmark, after: &Bookmark) -> (r: Applied)
    ensures
        r@ == ok_v(after.json_v(), before.json_v(), after.json_v()),
{
    ok(after.to_json(), before.to_json(), after.to_json())
}

/// The answer of a deletion.
pub open spec fn deleted_v(gone: JsonV) -> AppliedV {
    ok_v(JsonV::Object(no_fields().push(("deleted"@, gone))), gone, JsonV::Null)
}

/// [`deleted_v`].
pub fn deleted(gone: Json) -> (r: Applied)
    ensures
        r@ == deleted_v(gone.view()),
{
    let mut f = Fields::new();
    f.put("deleted", gone.copy());
    ok(f.object(), gone, Json::Null)
}

/// The answer of a deleted bookmark.
pub fn bookmark_deleted(b: &Bookmark) -> (r: Applied)
    ensures
        r@ == deleted_v(b.json_v()),
{
    deleted(b.to_json())
}

// ---------------------------------------------------------------------------------------------
// Arbitration
// ---------------------------------------------------------------------------------------------

/// The device action that a running sweep yields to: the one an action performs within its call. An
/// action that only commissions one, or touches no front end, leaves a sweep running.
pub open spec fn yields_for(a: Action) -> Option<DeviceAction> {
    match a.reach_of() {
        Reach::Device(d) => Some(d),
        _ => None,
    }
}

/// [`yields_for`].
pub fn yields_to(a: Action) -> (r: Option<DeviceAction>)
    ensures
        r == yields_for(a),
{
    match a.reach() {
        Reach::Device(d) => Some(d),
        Reach::Commissions(_) | Reach::View => None,
    }
}

/// A sweep yields to exactly the actions that take the radio, never to one that starts or stops a
/// sweep, and never to a read.
pub proof fn sweeps_yield_only_to_the_radio(a: Action, d: DeviceAction)
    ensures
        yields_for(a) == Some(d) <==> a.reach_of() == Reach::Device(d),
        a == Action::ScanStart || a == Action::ScanStop ==> yields_for(a) is None,
        a.reads() ==> yields_for(a) is None,
{
}

/// What becomes of an action's outcome where a sweep yielded to it: a success says so in its
/// answer, and after a refusal the sweep is put back, because nothing took the radio.
pub open spec fn arbitrated(yielded: Option<JsonV>, result: Result<AppliedV, FailV>) -> (
    Result<AppliedV, FailV>,
    bool,
) {
    match (yielded, result) {
        (None, r) => (r, false),
        (Some(_), Err(f)) => (Err(f), true),
        (Some(y), Ok(a)) => (
            Ok(
                AppliedV {
                    body: match a.body {
                        JsonV::Object(o) => JsonV::Object(
                            with_member(
                                o,
                                "scan"@,
                                JsonV::Object(no_fields().push(("yielded"@, y))),
                            ),
                        ),
                        other => other,
                    },
                    ..a
                },
            ),
            false,
        ),
    }
}

/// [`arbitrated`]: the outcome, and whether to put the sweep back.
pub fn arbitrate(yielded: Option<Json>, result: Result<Applied, Fail>) -> (r: (
    Result<Applied, Fail>,
    bool,
))
    ensures
        (applied_result(r.0), r.1) == arbitrated(json_opt(yielded), applied_result(result)),
{
    match (yielded, result) {
        (None, result) => (result, false),
        (Some(_), Err(f)) => (Err(f), true),
        (Some(y), Ok(a)) => {
            let body = match a.body {
                Json::Object(o) => {
                    let mut inner = Fields::new();
                    inner.put("yielded", y);
                    let mut f = Fields { list: o };
                    f.set("scan".to_owned(), inner.object());
                    f.object()
                },
                other => other,
            };
            (Ok(Applied { status: a.status, body, old: a.old, new: a.new }), false)
        },
    }
}

/// A sweep is put back exactly where it had yielded and the action was refused; a yield is never
/// silent, and one that stands changes neither the status nor what is audited.
pub proof fn yields_are_undone_or_said(yielded: Option<JsonV>, result: Result<AppliedV, FailV>)
    ensures
        arbitrated(yielded, result).1 == (yielded is Some && result is Err),
        result matches Err(f) ==> arbitrated(yielded, result).0 == Err::<AppliedV, FailV>(f),
        yielded is None ==> arbitrated(yielded, result).0 == result,
        match (result, yielded) {
            (Ok(a), Some(y)) => {
                let b = arbitrated(yielded, result).0->Ok_0;
                &&& a.body is Object ==> at(b.body, "scan"@) == Some(
                    JsonV::Object(no_fields().push(("yielded"@, y))),
                )
                &&& b.status == a.status
                &&& b.old == a.old
                &&& b.new == a.new
            },
            _ => true,
        },
{
    if let Ok(a) = result {
        if let JsonV::Object(o) = a.body {
            if let Some(y) = yielded {
                let v = JsonV::Object(no_fields().push(("yielded"@, y)));
                crate::json::member_set(o, "scan"@, v);
            }
        }
    }
}

// ---------------------------------------------------------------------------------------------
// Dispatch
// ---------------------------------------------------------------------------------------------

/// What a read answers.
pub open spec fn read_v(r: Result<JsonV, FailV>) -> CtlResponseV {
    match r {
        Ok(body) => CtlResponseV { status: 200, body, allow: None },
        Err(f) => refusal_of(f),
    }
}

/// [`read_v`].
pub fn answer_read(r: Result<Json, Fail>) -> (out: CtlResponse)
    ensures
        out@ == read_v(
            match r {
                Ok(j) => Ok(j.view()),
                Err(f) => Err(f@),
            },
        ),
{
    match r {
        Ok(body) => CtlResponse { status: 200, body, allow: None },
        Err(f) => f.response(),
    }
}

/// Control is refused without an audit log.
pub open spec fn no_audit_v() -> FailV {
    fail_v(503, "unavailable"@, "control is disabled: this server has no audit log"@)
}

/// The refusal of a mutating action on a server without an audit log.
pub fn without_audit() -> (r: CtlResponse)
    ensures
        r@ == refusal_of(no_audit_v()),
{
    Fail::of(503, "unavailable", "control is disabled: this server has no audit log").response()
}

/// What there is to do for a resolved action.
pub enum Begun {
    /// Read, and answer directly.
    Read,
    /// Answer with this; nothing is audited.
    Refused(CtlResponse),
    /// Apply this body; what becomes of it is audited.
    Apply(Result<Vec<(String, Json)>, Fail>),
}

/// What there is to do: a read answers directly, a mutating action needs the audit log, and its
/// body is parsed.
pub fn begin(mutating: bool, has_audit: bool, content_type: Option<&str>, body: &[u8]) -> (r: Begun)
    ensures
        match r {
            Begun::Read => !mutating,
            Begun::Refused(c) => mutating && !has_audit && c@ == refusal_of(no_audit_v()),
            Begun::Apply(b) => mutating && has_audit && members_result(b) == body_of(
                opt_text(content_type),
                body@,
            ),
        },
{
    if !mutating {
        return Begun::Read;
    }
    if !has_audit {
        return Begun::Refused(without_audit());
    }
    Begun::Apply(parse_body(content_type, body))
}

/// The members that every audit entry begins with.
pub open spec fn entry_head(
    t_ns: i64,
    caller: CallerV,
    method: Seq<char>,
    path: Seq<char>,
) -> Seq<(Seq<char>, JsonV)> {
    no_fields().push(("t_s"@, seconds_v(t_ns))).push(
        ("token_id"@, opt_text_v(caller.token_id)),
    ).push(("peer"@, opt_text_v(caller.peer))).push(
        ("forwarded_for"@, opt_text_v(caller.forwarded_for)),
    ).push(("origin"@, opt_text_v(caller.origin))).push(("method"@, text_v(method))).push(
        ("path"@, text_v(path)),
    )
}

fn put_head(t_ns: i64, caller: &Caller, method: &str, path: &str) -> (f: Fields)
    ensures
        f@ == entry_head(t_ns, caller@, method@, path@),
{
    let mut f = Fields::new();
    f.put("t_s", Json::seconds(t_ns));
    f.put("token_id", Json::opt_text(&caller.token_id));
    f.put("peer", Json::opt_text(&caller.peer));
    f.put("forwarded_for", Json::opt_text(&caller.forwarded_for));
    f.put("origin", Json::opt_text(&caller.origin));
    f.put("method", Json::text(method));
    f.put("path", Json::text(path));
    f
}

/// The audit entry of a refused request.
pub open spec fn refused_entry_v(
    t_ns: i64,
    caller: CallerV,
    method: Seq<char>,
    path: Seq<char>,
    status: u16,
    reason: Seq<char>,
) -> JsonV {
    JsonV::Object(
        entry_head(t_ns, caller, method, path).push(("action"@, JsonV::Null)).push(
            ("result"@, text_v("refused"@)),
        ).push(("status"@, uint_v(status as int))).push(("error"@, text_v(reason))),
    )
}

/// How a refusal enters the audit log.
pub struct Refused {
    /// The entry.
    pub entry: Json,
    /// The client to coalesce it by; `None` where the request was authenticated and is logged in
    /// full.
    pub client: Option<String>,
}

/// How a refused request enters the audit log: in full where it carried a verified token, else
/// coalesced by client.
pub fn audit_refused(
    t_ns: i64,
    caller: &Caller,
    method: &str,
    path: &str,
    status: u16,
    reason: &str,
) -> (r: Refused)
    ensures
        r.entry.view() == refused_entry_v(t_ns, caller@, method@, path@, status, reason@),
        opt_string(r.client) == (if caller@.token_id is Some {
            None
        } else {
            Some(crate::request::client_key_of(caller@))
        }),
{
    let mut f = put_head(t_ns, caller, method, path);
    f.put("action", Json::Null);
    f.put("result", Json::text("refused"));
    f.put("status", Json::uint(status as u64));
    f.put("error", Json::text(reason));
    let client = if caller.token_id.is_some() {
        None
    } else {
        Some(caller.client_key())
    };
    Refused { entry: f.object(), client }
}

/// The answer for a known path with another method (405, with what it takes) or an unknown
/// endpoint (404).
pub open spec fn refused_route_v(allow: Option<Seq<char>>) -> CtlResponseV {
    match allow {
        Some(a) => CtlResponseV {
            status: 405,
            body: error_v("method_not_allowed"@, "use "@ + a),
            allow: Some(a),
        },
        None => refusal_of(fail_v(404, "not_found"@, "no such endpoint"@)),
    }
}

/// [`refused_route_v`], and how the refusal enters the audit log: every method but GET does.
pub fn refuse_route(
    t_ns: i64,
    caller: &Caller,
    method: &str,
    path: &str,
    allow: Option<&'static str>,
) -> (r: (CtlResponse, Option<Refused>))
    ensures
        r.0@ == refused_route_v(opt_text(allow)),
        r.1 is Some == (method@ != "GET"@),
        r.1 matches Some(a) ==> a.entry.view() == refused_entry_v(
            t_ns,
            caller@,
            method@,
            path@,
            if allow is Some {
                405
            } else {
                404
            },
            if allow is Some {
                "method not allowed"@
            } else {
                "no such endpoint"@
            },
        ) && opt_string(a.client) == (if caller@.token_id is Some {
            None
        } else {
            Some(crate::request::client_key_of(caller@))
        }),
{
    let audited = if same(method, "GET") {
        None
    } else if allow.is_some() {
        Some(audit_refused(t_ns, caller, method, path, 405, "method not allowed"))
    } else {
        Some(audit_refused(t_ns, caller, method, path, 404, "no such endpoint"))
    };
    let response = match allow {
        Some(a) => {
            let m = String::from_str("use ").concat(a);
            CtlResponse {
                status: 405,
                body: Json::error("method_not_allowed", m.as_str()),
                allow: Some(a),
            }
        },
        None => Fail::of(404, "not_found", "no such endpoint").response(),
    };
    (response, audited)
}

/// The request of an audit entry: the members that parsed, else `null`.
pub open spec fn request_v(body: Result<Seq<(Seq<char>, JsonV)>, FailV>) -> JsonV {
    match body {
        Ok(m) => JsonV::Object(m),
        Err(_) => JsonV::Null,
    }
}

/// The audit entry of a mutating action, whatever became of it.
pub open spec fn action_entry_v(
    t_ns: i64,
    caller: CallerV,
    method: Seq<char>,
    path: Seq<char>,
    name: Seq<char>,
    device: Option<JsonV>,
    body: Result<Seq<(Seq<char>, JsonV)>, FailV>,
    result: Result<AppliedV, FailV>,
) -> JsonV {
    let head = entry_head(t_ns, caller, method, path).push(("action"@, text_v(name))).push(
        ("request"@, request_v(body)),
    );
    let all = match result {
        Ok(a) => head.push(("old"@, a.old)).push(("new"@, a.new)).push(
            ("result"@, text_v("ok"@)),
        ).push(("status"@, uint_v(a.status as int))).push(("error"@, JsonV::Null)),
        Err(f) => head.push(("old"@, JsonV::Null)).push(("new"@, JsonV::Null)).push(
            ("result"@, text_v("error"@)),
        ).push(("status"@, uint_v(f.status as int))).push(("error"@, text_v(f.message))),
    };
    JsonV::Object(
        match device {
            Some(d) => all.push(("device"@, d)),
            None => all,
        },
    )
}

/// What a mutating action answers.
pub open spec fn action_response_v(result: Result<AppliedV, FailV>) -> CtlResponseV {
    match result {
        Ok(a) => CtlResponseV { status: a.status, body: a.body, allow: None },
        Err(f) => refusal_of(f),
    }
}

/// The answer of a mutating action and its audit entry. A body that did not parse is the outcome.
pub fn finish(
    t_ns: i64,
    caller: &Caller,
    method: &str,
    path: &str,
    name: &str,
    device: Option<Json>,
    body: &Result<Vec<(String, Json)>, Fail>,
    result: Result<Applied, Fail>,
) -> (r: (CtlResponse, Json))
    ensures
        r.0@ == action_response_v(applied_result(result)),
        r.1.view() == action_entry_v(
            t_ns,
            caller@,
            method@,
            path@,
            name@,
            json_opt(device),
            members_result(*body),
            applied_result(result),
        ),
{
    let mut f = put_head(t_ns, caller, method, path);
    f.put("action", Json::text(name));
    f.put(
        "request",
        match body {
            Ok(m) => Json::Object(copy_fields(m)),
            Err(_) => Json::Null,
        },
    );
    let response = match result {
        Ok(a) => {
            f.put("old", a.old);
            f.put("new", a.new);
            f.put("result", Json::text("ok"));
            f.put("status", Json::uint(a.status as u64));
            f.put("error", Json::Null);
            CtlResponse { status: a.status, body: a.body, allow: None }
        },
        Err(fail) => {
            f.put("old", Json::Null);
            f.put("new", Json::Null);
            f.put("result", Json::text("error"));
            f.put("status", Json::uint(fail.status as u64));
            f.put("error", Json::text(fail.message.as_str()));
            fail.response()
        },
    };
    if let Some(d) = device {
        f.put("device", d);
    }
    (response, f.object())
}

/// An audit entry names a device exactly where one was given: what reaches no radio is entered
/// without the member, not with an empty one.
pub proof fn entries_name_the_device_given(
    t_ns: i64,
    caller: CallerV,
    method: Seq<char>,
    path: Seq<char>,
    name: Seq<char>,
    device: Option<JsonV>,
    body: Result<Seq<(Seq<char>, JsonV)>, FailV>,
    result: Result<AppliedV, FailV>,
)
    ensures
        at(action_entry_v(t_ns, caller, method, path, name, device, body, result), "device"@)
            == device,
{
    let f = action_entry_v(t_ns, caller, method, path, name, device, body, result)->Object_0;
    reveal_strlit("device");
    reveal_strlit("t_s");
    reveal_strlit("token_id");
    reveal_strlit("peer");
    reveal_strlit("forwarded_for");
    reveal_strlit("origin");
    reveal_strlit("method");
    reveal_strlit("path");
    reveal_strlit("action");
    reveal_strlit("request");
    reveal_strlit("old");
    reveal_strlit("new");
    reveal_strlit("result");
    reveal_strlit("status");
    reveal_strlit("error");
    assert("device"@[0] == 'd' && "origin"@[0] == 'o' && "method"@[0] == 'm' && "action"@[0] == 'a'
        && "result"@[0] == 'r' && "status"@[0] == 's');
    crate::json::member_is_the_first(f, "device"@, 14);
}

/// The audit entry says which device a request reached exactly where the action reaches one: a
/// log reader can tell a device action from a view change.
pub proof fn entries_name_the_device_reached(
    t_ns: i64,
    caller: CallerV,
    method: Seq<char>,
    path: Seq<char>,
    action: Action,
    id: Option<Seq<char>>,
    body: Result<Seq<(Seq<char>, JsonV)>, FailV>,
    result: Result<AppliedV, FailV>,
)
    ensures
        ({
            let device = audited_device(action.reach_of(), id);
            let name = action.audit_name();
            &&& device is None == action.reach_of() is View
            &&& at(action_entry_v(t_ns, caller, method, path, name, device, body, result), "device"@)
                == device
        }),
{
    let device = audited_device(action.reach_of(), id);
    let name = action.audit_name();
    entries_name_the_device_given(t_ns, caller, method, path, name, device, body, result);
}

/// A front end's answer holds the tuning that it took and which front end did what; that it has moved
/// is said of the run as well. The log has the tuning before and after.
pub proof fn a_tuning_is_answered_with_what_was_taken(
    action: DeviceAction,
    before: LiveTuning,
    after: LiveTuning,
    run: Option<RunState>,
    id: Option<Seq<char>>,
)
    ensures
        tuned_v(action, before, after, run, id).status == 200,
        tuned_v(action, before, after, run, id).old == before.json_v(),
        tuned_v(action, before, after, run, id).new == after.json_v(),
        at(tuned_v(action, before, after, run, id).body, "tuning"@) == Some(after.json_v()),
        at(tuned_v(action, before, after, run, id).body, "device"@) == Some(device_v(action, id)),
        action is Retune || action is Rate || action is Window ==> at(
            tuned_v(action, before, after, run, id).body,
            "run"@,
        ) == Some(opt_v(run)),
        action is Gains || action is BiasTee || action is BasebandFilter ==> at(
            tuned_v(action, before, after, run, id).body,
            "run"@,
        ) is None,
        at(device_v(action, id), "action"@) == Some(JsonV::Text(action.wire())),
        at(device_v(action, id), "id"@) == Some(opt_text_v(id)),
        at(commissioned_v(action, id), "commissions"@) == Some(JsonV::Text(action.wire())),
        at(commissioned_v(action, id), "id"@) == Some(opt_text_v(id)),
        audited_device(Reach::Device(action), id) == Some(device_v(action, id)),
        audited_device(Reach::Commissions(action), id) == Some(commissioned_v(action, id)),
        audited_device(Reach::View, id) is None,
{
    let b = tuned_v(action, before, after, run, id).body->Object_0;
    assert("tuning"@ != "run"@) by {
        reveal_strlit("tuning");
        reveal_strlit("run");
        assert("tuning"@.len() != "run"@.len());
    }
    assert("tuning"@ != "device"@) by {
        reveal_strlit("tuning");
        reveal_strlit("device");
        assert("tuning"@[0] != "device"@[0]);
    }
    assert("run"@ != "device"@) by {
        reveal_strlit("run");
        reveal_strlit("device");
        assert("run"@.len() != "device"@.len());
    }
    assert("device"@ != "run"@) by {
        reveal_strlit("device");
        reveal_strlit("run");
        assert("device"@.len() != "run"@.len());
    }
    member_is_the_first(b, "tuning"@, 0);
    if replumbs(action) {
        member_is_the_first(b, "run"@, 1);
        member_is_the_first(b, "device"@, 2);
    } else {
        member_is_the_first(b, "device"@, 1);
        member_is_the_first(b, "run"@, 2);
    }
    let v = device_v(action, id)->Object_0;
    member_is_the_first(v, "action"@, 0);
    assert("action"@ != "id"@) by {
        reveal_strlit("action");
        reveal_strlit("id");
        assert("action"@.len() != "id"@.len());
    }
    member_is_the_first(v, "id"@, 1);
    let c = commissioned_v(action, id)->Object_0;
    member_is_the_first(c, "commissions"@, 0);
    assert("commissions"@ != "id"@) by {
        reveal_strlit("commissions");
        reveal_strlit("id");
        assert("commissions"@.len() != "id"@.len());
    }
    member_is_the_first(c, "id"@, 1);
}

/// A sweep is answered with what it is now and what was proposed; the front end that it commissions is
/// named, and the rate where the sweep's plan changes it.
pub proof fn a_sweep_is_answered_with_what_it_is(
    before: JsonV,
    after: JsonV,
    proposed: JsonV,
    id: Option<Seq<char>>,
    plan: JsonV,
)
    requires
        at(after, "plan"@) == Some(plan),
    ensures
        swept_v(before, after, proposed, id).status == 200,
        swept_v(before, after, proposed, id).old == before,
        swept_v(before, after, proposed, id).new == after,
        at(swept_v(before, after, proposed, id).body, "scan"@) == Some(after),
        at(swept_v(before, after, proposed, id).body, "proposed"@) == Some(proposed),
        at(swept_v(before, after, proposed, id).body, "device"@) matches Some(d) && {
            &&& at(d, "commissions"@) == Some(JsonV::Text(DeviceAction::Retune.wire()))
            &&& at(d, "id"@) == Some(opt_text_v(id))
            &&& at(plan, "changes_rate"@) == Some(JsonV::Bool(true)) ==> (at(
                plan,
                "sample_rate_hz"@,
            ) matches Some(rate) ==> at(d, "commissions_rate_hz"@) == Some(rate))
            &&& at(plan, "changes_rate"@) != Some(JsonV::Bool(true)) ==> at(
                d,
                "commissions_rate_hz"@,
            ) == Some(JsonV::Null)
        },
{
    let b = swept_v(before, after, proposed, id).body->Object_0;
    member_is_the_first(b, "scan"@, 0);
    assert("scan"@ != "proposed"@) by {
        reveal_strlit("scan");
        reveal_strlit("proposed");
        assert("scan"@.len() != "proposed"@.len());
    }
    member_is_the_first(b, "proposed"@, 1);
    assert("scan"@ != "device"@) by {
        reveal_strlit("scan");
        reveal_strlit("device");
        assert("scan"@.len() != "device"@.len());
    }
    assert("proposed"@ != "device"@) by {
        reveal_strlit("proposed");
        reveal_strlit("device");
        assert("proposed"@.len() != "device"@.len());
    }
    member_is_the_first(b, "device"@, 2);
    let d = at(swept_v(before, after, proposed, id).body, "device"@)->0;
    let v = d->Object_0;
    member_is_the_first(v, "commissions"@, 0);
    assert("commissions"@ != "id"@) by {
        reveal_strlit("commissions");
        reveal_strlit("id");
        assert("commissions"@.len() != "id"@.len());
    }
    member_is_the_first(v, "id"@, 1);
    assert("commissions"@ != "commissions_rate_hz"@) by {
        reveal_strlit("commissions");
        reveal_strlit("commissions_rate_hz");
        assert("commissions"@.len() != "commissions_rate_hz"@.len());
    }
    assert("id"@ != "commissions_rate_hz"@) by {
        reveal_strlit("id");
        reveal_strlit("commissions_rate_hz");
        assert("id"@.len() != "commissions_rate_hz"@.len());
    }
    member_is_the_first(v, "commissions_rate_hz"@, 2);
}

/// A change of one thing is answered with it as it is now, and a removal with what is gone; the log
/// has both sides.
pub proof fn changes_are_answered_with_both_sides(name: Seq<char>, before: JsonV, after: JsonV)
    ensures
        single_v(name, before, after).status == 200,
        at(single_v(name, before, after).body, name) == Some(after),
        single_v(name, before, after).old == before,
        single_v(name, before, after).new == after,
        deleted_v(before).status == 200,
        at(deleted_v(before).body, "deleted"@) == Some(before),
        deleted_v(before).old == before,
        deleted_v(before).new == JsonV::Null,
{
    member_is_the_first(single_v(name, before, after).body->Object_0, name, 0);
    member_is_the_first(deleted_v(before).body->Object_0, "deleted"@, 0);
}

/// An entry says when who asked for what.
pub proof fn entries_say_who_asked(
    t_ns: i64,
    caller: CallerV,
    method: Seq<char>,
    path: Seq<char>,
    status: u16,
    reason: Seq<char>,
)
    ensures
        ({
            let e = refused_entry_v(t_ns, caller, method, path, status, reason);
            &&& at(e, "t_s"@) == Some(seconds_v(t_ns))
            &&& at(e, "token_id"@) == Some(opt_text_v(caller.token_id))
            &&& at(e, "peer"@) == Some(opt_text_v(caller.peer))
            &&& at(e, "forwarded_for"@) == Some(opt_text_v(caller.forwarded_for))
            &&& at(e, "origin"@) == Some(opt_text_v(caller.origin))
            &&& at(e, "method"@) == Some(JsonV::Text(method))
            &&& at(e, "path"@) == Some(JsonV::Text(path))
            &&& at(e, "action"@) == Some(JsonV::Null)
            &&& at(e, "result"@) == Some(JsonV::Text("refused"@))
            &&& at(e, "status"@) == Some(uint_v(status as int))
            &&& at(e, "error"@) == Some(JsonV::Text(reason))
        }),
{
    let f = refused_entry_v(t_ns, caller, method, path, status, reason)->Object_0;
    member_is_the_first(f, "t_s"@, 0);
    assert("t_s"@ != "token_id"@) by {
        reveal_strlit("t_s");
        reveal_strlit("token_id");
        assert("t_s"@.len() != "token_id"@.len());
    }
    member_is_the_first(f, "token_id"@, 1);
    assert("t_s"@ != "peer"@) by {
        reveal_strlit("t_s");
        reveal_strlit("peer");
        assert("t_s"@.len() != "peer"@.len());
    }
    assert("token_id"@ != "peer"@) by {
        reveal_strlit("token_id");
        reveal_strlit("peer");
        assert("token_id"@.len() != "peer"@.len());
    }
    member_is_the_first(f, "peer"@, 2);
    assert("t_s"@ != "forwarded_for"@) by {
        reveal_strlit("t_s");
        reveal_strlit("forwarded_for");
        assert("t_s"@.len() != "forwarded_for"@.len());
    }
    assert("token_id"@ != "forwarded_for"@) by {
        reveal_strlit("token_id");
        reveal_strlit("forwarded_for");
        assert("token_id"@.len() != "forwarded_for"@.len());
    }
    assert("peer"@ != "forwarded_for"@) by {
        reveal_strlit("peer");
        reveal_strlit("forwarded_for");
        assert("peer"@.len() != "forwarded_for"@.len());
    }
    member_is_the_first(f, "forwarded_for"@, 3);
    assert("t_s"@ != "origin"@) by {
        reveal_strlit("t_s");
        reveal_strlit("origin");
        assert("t_s"@.len() != "origin"@.len());
    }
    assert("token_id"@ != "origin"@) by {
        reveal_strlit("token_id");
        reveal_strlit("origin");
        assert("token_id"@.len() != "origin"@.len());
    }
    assert("peer"@ != "origin"@) by {
        reveal_strlit("peer");
        reveal_strlit("origin");
        assert("peer"@.len() != "origin"@.len());
    }
    assert("forwarded_for"@ != "origin"@) by {
        reveal_strlit("forwarded_for");
        reveal_strlit("origin");
        assert("forwarded_for"@.len() != "origin"@.len());
    }
    member_is_the_first(f, "origin"@, 4);
    assert("t_s"@ != "method"@) by {
        reveal_strlit("t_s");
        reveal_strlit("method");
        assert("t_s"@.len() != "method"@.len());
    }
    assert("token_id"@ != "method"@) by {
        reveal_strlit("token_id");
        reveal_strlit("method");
        assert("token_id"@.len() != "method"@.len());
    }
    assert("peer"@ != "method"@) by {
        reveal_strlit("peer");
        reveal_strlit("method");
        assert("peer"@.len() != "method"@.len());
    }
    assert("forwarded_for"@ != "method"@) by {
        reveal_strlit("forwarded_for");
        reveal_strlit("method");
        assert("forwarded_for"@.len() != "method"@.len());
    }
    assert("origin"@ != "method"@) by {
        reveal_strlit("origin");
        reveal_strlit("method");
        assert("origin"@[0] != "method"@[0]);
    }
    member_is_the_first(f, "method"@, 5);
    assert("t_s"@ != "path"@) by {
        reveal_strlit("t_s");
        reveal_strlit("path");
        assert("t_s"@.len() != "path"@.len());
    }
    assert("token_id"@ != "path"@) by {
        reveal_strlit("token_id");
        reveal_strlit("path");
        assert("token_id"@.len() != "path"@.len());
    }
    assert("peer"@ != "path"@) by {
        reveal_strlit("peer");
        reveal_strlit("path");
        assert("peer"@[1] != "path"@[1]);
    }
    assert("forwarded_for"@ != "path"@) by {
        reveal_strlit("forwarded_for");
        reveal_strlit("path");
        assert("forwarded_for"@.len() != "path"@.len());
    }
    assert("origin"@ != "path"@) by {
        reveal_strlit("origin");
        reveal_strlit("path");
        assert("origin"@.len() != "path"@.len());
    }
    assert("method"@ != "path"@) by {
        reveal_strlit("method");
        reveal_strlit("path");
        assert("method"@.len() != "path"@.len());
    }
    member_is_the_first(f, "path"@, 6);
    assert("t_s"@ != "action"@) by {
        reveal_strlit("t_s");
        reveal_strlit("action");
        assert("t_s"@.len() != "action"@.len());
    }
    assert("token_id"@ != "action"@) by {
        reveal_strlit("token_id");
        reveal_strlit("action");
        assert("token_id"@.len() != "action"@.len());
    }
    assert("peer"@ != "action"@) by {
        reveal_strlit("peer");
        reveal_strlit("action");
        assert("peer"@.len() != "action"@.len());
    }
    assert("forwarded_for"@ != "action"@) by {
        reveal_strlit("forwarded_for");
        reveal_strlit("action");
        assert("forwarded_for"@.len() != "action"@.len());
    }
    assert("origin"@ != "action"@) by {
        reveal_strlit("origin");
        reveal_strlit("action");
        assert("origin"@[0] != "action"@[0]);
    }
    assert("method"@ != "action"@) by {
        reveal_strlit("method");
        reveal_strlit("action");
        assert("method"@[0] != "action"@[0]);
    }
    assert("path"@ != "action"@) by {
        reveal_strlit("path");
        reveal_strlit("action");
        assert("path"@.len() != "action"@.len());
    }
    member_is_the_first(f, "action"@, 7);
    assert("t_s"@ != "result"@) by {
        reveal_strlit("t_s");
        reveal_strlit("result");
        assert("t_s"@.len() != "result"@.len());
    }
    assert("token_id"@ != "result"@) by {
        reveal_strlit("token_id");
        reveal_strlit("result");
        assert("token_id"@.len() != "result"@.len());
    }
    assert("peer"@ != "result"@) by {
        reveal_strlit("peer");
        reveal_strlit("result");
        assert("peer"@.len() != "result"@.len());
    }
    assert("forwarded_for"@ != "result"@) by {
        reveal_strlit("forwarded_for");
        reveal_strlit("result");
        assert("forwarded_for"@.len() != "result"@.len());
    }
    assert("origin"@ != "result"@) by {
        reveal_strlit("origin");
        reveal_strlit("result");
        assert("origin"@[0] != "result"@[0]);
    }
    assert("method"@ != "result"@) by {
        reveal_strlit("method");
        reveal_strlit("result");
        assert("method"@[0] != "result"@[0]);
    }
    assert("path"@ != "result"@) by {
        reveal_strlit("path");
        reveal_strlit("result");
        assert("path"@.len() != "result"@.len());
    }
    assert("action"@ != "result"@) by {
        reveal_strlit("action");
        reveal_strlit("result");
        assert("action"@[0] != "result"@[0]);
    }
    member_is_the_first(f, "result"@, 8);
    assert("t_s"@ != "status"@) by {
        reveal_strlit("t_s");
        reveal_strlit("status");
        assert("t_s"@.len() != "status"@.len());
    }
    assert("token_id"@ != "status"@) by {
        reveal_strlit("token_id");
        reveal_strlit("status");
        assert("token_id"@.len() != "status"@.len());
    }
    assert("peer"@ != "status"@) by {
        reveal_strlit("peer");
        reveal_strlit("status");
        assert("peer"@.len() != "status"@.len());
    }
    assert("forwarded_for"@ != "status"@) by {
        reveal_strlit("forwarded_for");
        reveal_strlit("status");
        assert("forwarded_for"@.len() != "status"@.len());
    }
    assert("origin"@ != "status"@) by {
        reveal_strlit("origin");
        reveal_strlit("status");
        assert("origin"@[0] != "status"@[0]);
    }
    assert("method"@ != "status"@) by {
        reveal_strlit("method");
        reveal_strlit("status");
        assert("method"@[0] != "status"@[0]);
    }
    assert("path"@ != "status"@) by {
        reveal_strlit("path");
        reveal_strlit("status");
        assert("path"@.len() != "status"@.len());
    }
    assert("action"@ != "status"@) by {
        reveal_strlit("action");
        reveal_strlit("status");
        assert("action"@[0] != "status"@[0]);
    }
    assert("result"@ != "status"@) by {
        reveal_strlit("result");
        reveal_strlit("status");
        assert("result"@[0] != "status"@[0]);
    }
    member_is_the_first(f, "status"@, 9);
    assert("t_s"@ != "error"@) by {
        reveal_strlit("t_s");
        reveal_strlit("error");
        assert("t_s"@.len() != "error"@.len());
    }
    assert("token_id"@ != "error"@) by {
        reveal_strlit("token_id");
        reveal_strlit("error");
        assert("token_id"@.len() != "error"@.len());
    }
    assert("peer"@ != "error"@) by {
        reveal_strlit("peer");
        reveal_strlit("error");
        assert("peer"@.len() != "error"@.len());
    }
    assert("forwarded_for"@ != "error"@) by {
        reveal_strlit("forwarded_for");
        reveal_strlit("error");
        assert("forwarded_for"@.len() != "error"@.len());
    }
    assert("origin"@ != "error"@) by {
        reveal_strlit("origin");
        reveal_strlit("error");
        assert("origin"@.len() != "error"@.len());
    }
    assert("method"@ != "error"@) by {
        reveal_strlit("method");
        reveal_strlit("error");
        assert("method"@.len() != "error"@.len());
    }
    assert("path"@ != "error"@) by {
        reveal_strlit("path");
        reveal_strlit("error");
        assert("path"@.len() != "error"@.len());
    }
    assert("action"@ != "error"@) by {
        reveal_strlit("action");
        reveal_strlit("error");
        assert("action"@.len() != "error"@.len());
    }
    assert("result"@ != "error"@) by {
        reveal_strlit("result");
        reveal_strlit("error");
        assert("result"@.len() != "error"@.len());
    }
    assert("status"@ != "error"@) by {
        reveal_strlit("status");
        reveal_strlit("error");
        assert("status"@.len() != "error"@.len());
    }
    member_is_the_first(f, "error"@, 10);
}

/// An entry of an action says who asked for it, what was asked, what it was before and after, and how
/// it ended; an action that failed has changed nothing.
pub proof fn entries_say_what_was_done(
    t_ns: i64,
    caller: CallerV,
    method: Seq<char>,
    path: Seq<char>,
    name: Seq<char>,
    device: Option<JsonV>,
    body: Result<Seq<(Seq<char>, JsonV)>, FailV>,
    result: Result<AppliedV, FailV>,
)
    ensures
        ({
            let e = action_entry_v(t_ns, caller, method, path, name, device, body, result);
            &&& at(e, "t_s"@) == Some(seconds_v(t_ns))
            &&& at(e, "token_id"@) == Some(opt_text_v(caller.token_id))
            &&& at(e, "peer"@) == Some(opt_text_v(caller.peer))
            &&& at(e, "forwarded_for"@) == Some(opt_text_v(caller.forwarded_for))
            &&& at(e, "origin"@) == Some(opt_text_v(caller.origin))
            &&& at(e, "method"@) == Some(JsonV::Text(method))
            &&& at(e, "path"@) == Some(JsonV::Text(path))
            &&& at(e, "action"@) == Some(JsonV::Text(name))
            &&& body matches Ok(m) ==> at(e, "request"@) == Some(JsonV::Object(m))
            &&& body is Err ==> at(e, "request"@) == Some(JsonV::Null)
            &&& result matches Ok(a) ==> {
                &&& at(e, "old"@) == Some(a.old)
                &&& at(e, "new"@) == Some(a.new)
                &&& at(e, "result"@) == Some(JsonV::Text("ok"@))
                &&& at(e, "status"@) == Some(uint_v(a.status as int))
                &&& at(e, "error"@) == Some(JsonV::Null)
            }
            &&& result matches Err(f) ==> {
                &&& at(e, "old"@) == Some(JsonV::Null)
                &&& at(e, "new"@) == Some(JsonV::Null)
                &&& at(e, "result"@) == Some(JsonV::Text("error"@))
                &&& at(e, "status"@) == Some(uint_v(f.status as int))
                &&& at(e, "error"@) == Some(JsonV::Text(f.message))
            }
        }),
{
    let f = action_entry_v(t_ns, caller, method, path, name, device, body, result)->Object_0;
    member_is_the_first(f, "t_s"@, 0);
    assert("t_s"@ != "token_id"@) by {
        reveal_strlit("t_s");
        reveal_strlit("token_id");
        assert("t_s"@.len() != "token_id"@.len());
    }
    member_is_the_first(f, "token_id"@, 1);
    assert("t_s"@ != "peer"@) by {
        reveal_strlit("t_s");
        reveal_strlit("peer");
        assert("t_s"@.len() != "peer"@.len());
    }
    assert("token_id"@ != "peer"@) by {
        reveal_strlit("token_id");
        reveal_strlit("peer");
        assert("token_id"@.len() != "peer"@.len());
    }
    member_is_the_first(f, "peer"@, 2);
    assert("t_s"@ != "forwarded_for"@) by {
        reveal_strlit("t_s");
        reveal_strlit("forwarded_for");
        assert("t_s"@.len() != "forwarded_for"@.len());
    }
    assert("token_id"@ != "forwarded_for"@) by {
        reveal_strlit("token_id");
        reveal_strlit("forwarded_for");
        assert("token_id"@.len() != "forwarded_for"@.len());
    }
    assert("peer"@ != "forwarded_for"@) by {
        reveal_strlit("peer");
        reveal_strlit("forwarded_for");
        assert("peer"@.len() != "forwarded_for"@.len());
    }
    member_is_the_first(f, "forwarded_for"@, 3);
    assert("t_s"@ != "origin"@) by {
        reveal_strlit("t_s");
        reveal_strlit("origin");
        assert("t_s"@.len() != "origin"@.len());
    }
    assert("token_id"@ != "origin"@) by {
        reveal_strlit("token_id");
        reveal_strlit("origin");
        assert("token_id"@.len() != "origin"@.len());
    }
    assert("peer"@ != "origin"@) by {
        reveal_strlit("peer");
        reveal_strlit("origin");
        assert("peer"@.len() != "origin"@.len());
    }
    assert("forwarded_for"@ != "origin"@) by {
        reveal_strlit("forwarded_for");
        reveal_strlit("origin");
        assert("forwarded_for"@.len() != "origin"@.len());
    }
    member_is_the_first(f, "origin"@, 4);
    assert("t_s"@ != "method"@) by {
        reveal_strlit("t_s");
        reveal_strlit("method");
        assert("t_s"@.len() != "method"@.len());
    }
    assert("token_id"@ != "method"@) by {
        reveal_strlit("token_id");
        reveal_strlit("method");
        assert("token_id"@.len() != "method"@.len());
    }
    assert("peer"@ != "method"@) by {
        reveal_strlit("peer");
        reveal_strlit("method");
        assert("peer"@.len() != "method"@.len());
    }
    assert("forwarded_for"@ != "method"@) by {
        reveal_strlit("forwarded_for");
        reveal_strlit("method");
        assert("forwarded_for"@.len() != "method"@.len());
    }
    assert("origin"@ != "method"@) by {
        reveal_strlit("origin");
        reveal_strlit("method");
        assert("origin"@[0] != "method"@[0]);
    }
    member_is_the_first(f, "method"@, 5);
    assert("t_s"@ != "path"@) by {
        reveal_strlit("t_s");
        reveal_strlit("path");
        assert("t_s"@.len() != "path"@.len());
    }
    assert("token_id"@ != "path"@) by {
        reveal_strlit("token_id");
        reveal_strlit("path");
        assert("token_id"@.len() != "path"@.len());
    }
    assert("peer"@ != "path"@) by {
        reveal_strlit("peer");
        reveal_strlit("path");
        assert("peer"@[1] != "path"@[1]);
    }
    assert("forwarded_for"@ != "path"@) by {
        reveal_strlit("forwarded_for");
        reveal_strlit("path");
        assert("forwarded_for"@.len() != "path"@.len());
    }
    assert("origin"@ != "path"@) by {
        reveal_strlit("origin");
        reveal_strlit("path");
        assert("origin"@.len() != "path"@.len());
    }
    assert("method"@ != "path"@) by {
        reveal_strlit("method");
        reveal_strlit("path");
        assert("method"@.len() != "path"@.len());
    }
    member_is_the_first(f, "path"@, 6);
    assert("t_s"@ != "action"@) by {
        reveal_strlit("t_s");
        reveal_strlit("action");
        assert("t_s"@.len() != "action"@.len());
    }
    assert("token_id"@ != "action"@) by {
        reveal_strlit("token_id");
        reveal_strlit("action");
        assert("token_id"@.len() != "action"@.len());
    }
    assert("peer"@ != "action"@) by {
        reveal_strlit("peer");
        reveal_strlit("action");
        assert("peer"@.len() != "action"@.len());
    }
    assert("forwarded_for"@ != "action"@) by {
        reveal_strlit("forwarded_for");
        reveal_strlit("action");
        assert("forwarded_for"@.len() != "action"@.len());
    }
    assert("origin"@ != "action"@) by {
        reveal_strlit("origin");
        reveal_strlit("action");
        assert("origin"@[0] != "action"@[0]);
    }
    assert("method"@ != "action"@) by {
        reveal_strlit("method");
        reveal_strlit("action");
        assert("method"@[0] != "action"@[0]);
    }
    assert("path"@ != "action"@) by {
        reveal_strlit("path");
        reveal_strlit("action");
        assert("path"@.len() != "action"@.len());
    }
    member_is_the_first(f, "action"@, 7);
    assert("t_s"@ != "request"@) by {
        reveal_strlit("t_s");
        reveal_strlit("request");
        assert("t_s"@.len() != "request"@.len());
    }
    assert("token_id"@ != "request"@) by {
        reveal_strlit("token_id");
        reveal_strlit("request");
        assert("token_id"@.len() != "request"@.len());
    }
    assert("peer"@ != "request"@) by {
        reveal_strlit("peer");
        reveal_strlit("request");
        assert("peer"@.len() != "request"@.len());
    }
    assert("forwarded_for"@ != "request"@) by {
        reveal_strlit("forwarded_for");
        reveal_strlit("request");
        assert("forwarded_for"@.len() != "request"@.len());
    }
    assert("origin"@ != "request"@) by {
        reveal_strlit("origin");
        reveal_strlit("request");
        assert("origin"@.len() != "request"@.len());
    }
    assert("method"@ != "request"@) by {
        reveal_strlit("method");
        reveal_strlit("request");
        assert("method"@.len() != "request"@.len());
    }
    assert("path"@ != "request"@) by {
        reveal_strlit("path");
        reveal_strlit("request");
        assert("path"@.len() != "request"@.len());
    }
    assert("action"@ != "request"@) by {
        reveal_strlit("action");
        reveal_strlit("request");
        assert("action"@.len() != "request"@.len());
    }
    member_is_the_first(f, "request"@, 8);
    assert("t_s"@ != "old"@) by {
        reveal_strlit("t_s");
        reveal_strlit("old");
        assert("t_s"@[0] != "old"@[0]);
    }
    assert("token_id"@ != "old"@) by {
        reveal_strlit("token_id");
        reveal_strlit("old");
        assert("token_id"@.len() != "old"@.len());
    }
    assert("peer"@ != "old"@) by {
        reveal_strlit("peer");
        reveal_strlit("old");
        assert("peer"@.len() != "old"@.len());
    }
    assert("forwarded_for"@ != "old"@) by {
        reveal_strlit("forwarded_for");
        reveal_strlit("old");
        assert("forwarded_for"@.len() != "old"@.len());
    }
    assert("origin"@ != "old"@) by {
        reveal_strlit("origin");
        reveal_strlit("old");
        assert("origin"@.len() != "old"@.len());
    }
    assert("method"@ != "old"@) by {
        reveal_strlit("method");
        reveal_strlit("old");
        assert("method"@.len() != "old"@.len());
    }
    assert("path"@ != "old"@) by {
        reveal_strlit("path");
        reveal_strlit("old");
        assert("path"@.len() != "old"@.len());
    }
    assert("action"@ != "old"@) by {
        reveal_strlit("action");
        reveal_strlit("old");
        assert("action"@.len() != "old"@.len());
    }
    assert("request"@ != "old"@) by {
        reveal_strlit("request");
        reveal_strlit("old");
        assert("request"@.len() != "old"@.len());
    }
    member_is_the_first(f, "old"@, 9);
    assert("t_s"@ != "new"@) by {
        reveal_strlit("t_s");
        reveal_strlit("new");
        assert("t_s"@[0] != "new"@[0]);
    }
    assert("token_id"@ != "new"@) by {
        reveal_strlit("token_id");
        reveal_strlit("new");
        assert("token_id"@.len() != "new"@.len());
    }
    assert("peer"@ != "new"@) by {
        reveal_strlit("peer");
        reveal_strlit("new");
        assert("peer"@.len() != "new"@.len());
    }
    assert("forwarded_for"@ != "new"@) by {
        reveal_strlit("forwarded_for");
        reveal_strlit("new");
        assert("forwarded_for"@.len() != "new"@.len());
    }
    assert("origin"@ != "new"@) by {
        reveal_strlit("origin");
        reveal_strlit("new");
        assert("origin"@.len() != "new"@.len());
    }
    assert("method"@ != "new"@) by {
        reveal_strlit("method");
        reveal_strlit("new");
        assert("method"@.len() != "new"@.len());
    }
    assert("path"@ != "new"@) by {
        reveal_strlit("path");
        reveal_strlit("new");
        assert("path"@.len() != "new"@.len());
    }
    assert("action"@ != "new"@) by {
        reveal_strlit("action");
        reveal_strlit("new");
        assert("action"@.len() != "new"@.len());
    }
    assert("request"@ != "new"@) by {
        reveal_strlit("request");
        reveal_strlit("new");
        assert("request"@.len() != "new"@.len());
    }
    assert("old"@ != "new"@) by {
        reveal_strlit("old");
        reveal_strlit("new");
        assert("old"@[0] != "new"@[0]);
    }
    member_is_the_first(f, "new"@, 10);
    assert("t_s"@ != "result"@) by {
        reveal_strlit("t_s");
        reveal_strlit("result");
        assert("t_s"@.len() != "result"@.len());
    }
    assert("token_id"@ != "result"@) by {
        reveal_strlit("token_id");
        reveal_strlit("result");
        assert("token_id"@.len() != "result"@.len());
    }
    assert("peer"@ != "result"@) by {
        reveal_strlit("peer");
        reveal_strlit("result");
        assert("peer"@.len() != "result"@.len());
    }
    assert("forwarded_for"@ != "result"@) by {
        reveal_strlit("forwarded_for");
        reveal_strlit("result");
        assert("forwarded_for"@.len() != "result"@.len());
    }
    assert("origin"@ != "result"@) by {
        reveal_strlit("origin");
        reveal_strlit("result");
        assert("origin"@[0] != "result"@[0]);
    }
    assert("method"@ != "result"@) by {
        reveal_strlit("method");
        reveal_strlit("result");
        assert("method"@[0] != "result"@[0]);
    }
    assert("path"@ != "result"@) by {
        reveal_strlit("path");
        reveal_strlit("result");
        assert("path"@.len() != "result"@.len());
    }
    assert("action"@ != "result"@) by {
        reveal_strlit("action");
        reveal_strlit("result");
        assert("action"@[0] != "result"@[0]);
    }
    assert("request"@ != "result"@) by {
        reveal_strlit("request");
        reveal_strlit("result");
        assert("request"@.len() != "result"@.len());
    }
    assert("old"@ != "result"@) by {
        reveal_strlit("old");
        reveal_strlit("result");
        assert("old"@.len() != "result"@.len());
    }
    assert("new"@ != "result"@) by {
        reveal_strlit("new");
        reveal_strlit("result");
        assert("new"@.len() != "result"@.len());
    }
    member_is_the_first(f, "result"@, 11);
    assert("t_s"@ != "status"@) by {
        reveal_strlit("t_s");
        reveal_strlit("status");
        assert("t_s"@.len() != "status"@.len());
    }
    assert("token_id"@ != "status"@) by {
        reveal_strlit("token_id");
        reveal_strlit("status");
        assert("token_id"@.len() != "status"@.len());
    }
    assert("peer"@ != "status"@) by {
        reveal_strlit("peer");
        reveal_strlit("status");
        assert("peer"@.len() != "status"@.len());
    }
    assert("forwarded_for"@ != "status"@) by {
        reveal_strlit("forwarded_for");
        reveal_strlit("status");
        assert("forwarded_for"@.len() != "status"@.len());
    }
    assert("origin"@ != "status"@) by {
        reveal_strlit("origin");
        reveal_strlit("status");
        assert("origin"@[0] != "status"@[0]);
    }
    assert("method"@ != "status"@) by {
        reveal_strlit("method");
        reveal_strlit("status");
        assert("method"@[0] != "status"@[0]);
    }
    assert("path"@ != "status"@) by {
        reveal_strlit("path");
        reveal_strlit("status");
        assert("path"@.len() != "status"@.len());
    }
    assert("action"@ != "status"@) by {
        reveal_strlit("action");
        reveal_strlit("status");
        assert("action"@[0] != "status"@[0]);
    }
    assert("request"@ != "status"@) by {
        reveal_strlit("request");
        reveal_strlit("status");
        assert("request"@.len() != "status"@.len());
    }
    assert("old"@ != "status"@) by {
        reveal_strlit("old");
        reveal_strlit("status");
        assert("old"@.len() != "status"@.len());
    }
    assert("new"@ != "status"@) by {
        reveal_strlit("new");
        reveal_strlit("status");
        assert("new"@.len() != "status"@.len());
    }
    assert("result"@ != "status"@) by {
        reveal_strlit("result");
        reveal_strlit("status");
        assert("result"@[0] != "status"@[0]);
    }
    member_is_the_first(f, "status"@, 12);
    assert("t_s"@ != "error"@) by {
        reveal_strlit("t_s");
        reveal_strlit("error");
        assert("t_s"@.len() != "error"@.len());
    }
    assert("token_id"@ != "error"@) by {
        reveal_strlit("token_id");
        reveal_strlit("error");
        assert("token_id"@.len() != "error"@.len());
    }
    assert("peer"@ != "error"@) by {
        reveal_strlit("peer");
        reveal_strlit("error");
        assert("peer"@.len() != "error"@.len());
    }
    assert("forwarded_for"@ != "error"@) by {
        reveal_strlit("forwarded_for");
        reveal_strlit("error");
        assert("forwarded_for"@.len() != "error"@.len());
    }
    assert("origin"@ != "error"@) by {
        reveal_strlit("origin");
        reveal_strlit("error");
        assert("origin"@.len() != "error"@.len());
    }
    assert("method"@ != "error"@) by {
        reveal_strlit("method");
        reveal_strlit("error");
        assert("method"@.len() != "error"@.len());
    }
    assert("path"@ != "error"@) by {
        reveal_strlit("path");
        reveal_strlit("error");
        assert("path"@.len() != "error"@.len());
    }
    assert("action"@ != "error"@) by {
        reveal_strlit("action");
        reveal_strlit("error");
        assert("action"@.len() != "error"@.len());
    }
    assert("request"@ != "error"@) by {
        reveal_strlit("request");
        reveal_strlit("error");
        assert("request"@.len() != "error"@.len());
    }
    assert("old"@ != "error"@) by {
        reveal_strlit("old");
        reveal_strlit("error");
        assert("old"@.len() != "error"@.len());
    }
    assert("new"@ != "error"@) by {
        reveal_strlit("new");
        reveal_strlit("error");
        assert("new"@.len() != "error"@.len());
    }
    assert("result"@ != "error"@) by {
        reveal_strlit("result");
        reveal_strlit("error");
        assert("result"@.len() != "error"@.len());
    }
    assert("status"@ != "error"@) by {
        reveal_strlit("status");
        reveal_strlit("error");
        assert("status"@.len() != "error"@.len());
    }
    member_is_the_first(f, "error"@, 13);
}

/// What is answered: what was read or done, with its status, or why it was refused. A route that does
/// not take the method says which it takes.
pub proof fn answers_are_what_was_done_or_why_not(
    read: Result<JsonV, FailV>,
    done: Result<AppliedV, FailV>,
    allow: Seq<char>,
)
    ensures
        read matches Ok(b) ==> read_v(read).status == 200 && read_v(read).body == b,
        read matches Err(f) ==> read_v(read).status == f.status && at(read_v(read).body, "error"@)
            == Some(JsonV::Text(f.message)) && at(read_v(read).body, "code"@) == Some(
            JsonV::Text(f.code),
        ),
        done matches Ok(a) ==> action_response_v(done).status == a.status && action_response_v(
            done,
        ).body == a.body,
        done matches Err(f) ==> action_response_v(done).status == f.status && at(
            action_response_v(done).body,
            "error"@,
        ) == Some(JsonV::Text(f.message)) && at(action_response_v(done).body, "code"@) == Some(
            JsonV::Text(f.code),
        ),
        refused_route_v(Some(allow)).status == 405 && refused_route_v(Some(allow)).allow == Some(allow),
        refused_route_v(None).status == 404 && refused_route_v(None).allow is None,
        no_audit_v().status == 503,
{
    assert("error"@ != "code"@) by {
        reveal_strlit("error");
        reveal_strlit("code");
        assert("error"@.len() != "code"@.len());
    }
    if let Err(f) = read {
        let e = error_v(f.code, f.message)->Object_0;
        member_is_the_first(e, "error"@, 0);
        member_is_the_first(e, "code"@, 1);
    }
    if let Err(f) = done {
        let e = error_v(f.code, f.message)->Object_0;
        member_is_the_first(e, "error"@, 0);
        member_is_the_first(e, "code"@, 1);
    }
}

} // verus!
