//! Control routes, their commands, and the audit of them.

use hk_api::audit::{
    bound_entry, bound_str, line_step, rotation, shorten, stub, AuditLimits, AuditLog, LineStage,
    LineStep, RotateStep,
};
use hk_api::body::{parse_body, Fail};
use hk_api::command::{
    plan, plan_read, scan_fail, scan_proposal, updated_bookmark, Available, Bookmark, BookmarkKind,
    Command, ReadCommand, ScanError,
};
use hk_api::control::{
    is_control_path, path_id, resolve, Action, BiasTee, CaptureStatus, DeviceAction, Id,
    LiveTuning, NamedGain, Reach,
};
use hk_api::dispatch::{
    answer_read, arbitrate, audit_refused, begin, device_entry, finish, ok, refuse_route,
    sweep_stopped, tuned, yields_to, Begun,
};
use hk_api::double::Real;
use hk_api::json::{parse, Json, Num};
use hk_api::request::Caller;
use hk_api::routes::routes;

fn parsed(text: &str) -> Json {
    parse(text.as_bytes()).unwrap()
}

fn body(text: &str) -> Vec<(String, Json)> {
    match parsed(text) {
        Json::Object(m) => m,
        _ => panic!("{text} is no object"),
    }
}

fn number(v: &Json) -> f64 {
    match v {
        Json::Number(Num::U(n)) => *n as f64,
        Json::Number(Num::I(n)) => *n as f64,
        Json::Number(Num::R(r)) => f64::from_bits(r.bits),
        Json::Number(Num::Seconds(ns)) => *ns as f64 / 1e9,
        Json::Number(Num::SecondsByScale(ns)) => *ns as f64 * 1e-9,
        Json::Number(Num::Ratio(a, b)) => *a as f64 / *b as f64,
        _ => panic!("{v:?} is no number"),
    }
}

fn same(a: &Json, b: &Json) -> bool {
    match (a, b) {
        (Json::Number(_), Json::Number(_)) => number(a) == number(b),
        (Json::Array(x), Json::Array(y)) => {
            x.len() == y.len() && x.iter().zip(y).all(|(p, q)| same(p, q))
        }
        (Json::Object(x), Json::Object(y)) => {
            x.len() == y.len() && x.iter().all(|(k, v)| b.get(k).map_or(false, |w| same(v, w)))
        }
        _ => a == b,
    }
}

fn at<'a>(v: &'a Json, path: &[&str]) -> &'a Json {
    let mut v = v;
    for p in path {
        v = match v {
            Json::Array(a) => &a[p.parse::<usize>().unwrap()],
            _ => v.get(p).unwrap_or(&Json::Null),
        };
    }
    v
}

fn says(v: &Json, text: &str) -> bool {
    v.string() == Some(text)
}

fn hz(x: f64) -> Real {
    Real { bits: x.to_bits() }
}

const ID: &str = "0199d3a0-0000-7000-8000-00000000000b";

fn id_of(text: &str) -> Option<Id> {
    if text.len() != 36 {
        return None;
    }
    let digits: String = text.chars().filter(|c| *c != '-').collect();
    u128::from_str_radix(&digits, 16).ok().map(|value| Id { value })
}

/// The route of a path, its identity read as the server reads it.
fn route(method: &str, path: &str) -> Option<Result<Action, Option<&'static str>>> {
    resolve(method, path, path_id(path).and_then(id_of))
}

#[test]
fn only_the_six_device_routes_reach_the_front_end() {
    let device = [
        ("/api/control/center", "retune"),
        ("/api/control/rate", "rate"),
        ("/api/control/window", "window"),
        ("/api/control/gains", "gains"),
        ("/api/control/bias_tee", "bias_tee"),
        ("/api/control/baseband_filter", "baseband_filter"),
    ];
    for (path, name) in &device {
        let a = route("POST", path).unwrap().unwrap();
        assert_eq!(
            a.device_action().map(DeviceAction::as_str),
            Some(*name),
            "{path} must be a device action"
        );
    }
    // The view side: holding the view, scrubbing and zooming never touch the device, and neither
    // do display, recording or bookmarks.
    for (method, path) in [
        ("GET", "/api/control/state"),
        ("POST", "/api/control/display"),
        ("POST", "/api/control/record/start"),
        ("POST", "/api/control/record/stop"),
        ("GET", "/api/bookmarks"),
        ("POST", "/api/bookmarks"),
        // Reading where the sweep is, and surrendering the radio, command nothing.
        ("GET", "/api/control/scan"),
        ("POST", "/api/control/scan/stop"),
    ] {
        let a = route(method, path).unwrap().unwrap();
        assert_eq!(a.device_action(), None, "{path} changes the view, not the device");
    }
    // Every control route is one or the other, and the device ones are exactly those six.
    let table = routes();
    let mut reached: Vec<&str> = table
        .iter()
        .filter(|(m, p)| {
            route(m, p).and_then(Result::ok).is_some_and(|a| a.device_action().is_some())
        })
        .map(|(_, p)| *p)
        .collect();
    let mut expected: Vec<&str> = device.iter().map(|(p, _)| *p).collect();
    expected.sort_unstable();
    reached.sort_unstable();
    reached.dedup();
    assert_eq!(reached, expected);
}

#[test]
fn starting_a_sweep_commissions_retunes_and_is_not_a_view_change() {
    let start = route("POST", "/api/control/scan").unwrap().unwrap();
    assert_eq!(start.reach(), Reach::Commissions(DeviceAction::Retune));
    assert_eq!(start.device_action(), None, "it performs none in the call");
    // Stopping surrenders the radio and reading only reports; neither commands anything.
    for (method, path) in [("POST", "/api/control/scan/stop"), ("GET", "/api/control/scan")] {
        let a = route(method, path).unwrap().unwrap();
        assert_eq!(a.reach(), Reach::View, "{path}");
    }
    // And nothing else in the table quietly acquired the middle category.
    let table = routes();
    let commissioning: Vec<&str> = table
        .iter()
        .filter(|(m, p)| {
            route(m, p)
                .and_then(Result::ok)
                .is_some_and(|a| matches!(a.reach(), Reach::Commissions(_)))
        })
        .map(|(_, p)| *p)
        .collect();
    assert_eq!(commissioning, ["/api/control/scan"]);
}

#[test]
fn control_routes_resolve_with_methods() {
    assert_eq!(route("POST", "/api/control/center"), Some(Ok(Action::Center)));
    assert_eq!(route("GET", "/api/control/center"), Some(Err(Some("POST"))));
    assert_eq!(route("POST", "/api/control/tx"), Some(Err(None)));
    // Pause and resume are not routes: an unknown control path is a 404, exactly like tx.
    assert_eq!(route("POST", "/api/control/pause"), Some(Err(None)));
    assert_eq!(route("POST", "/api/control/resume"), Some(Err(None)));
    assert_eq!(route("GET", "/api/streams"), None);
    let id = id_of(ID).unwrap();
    assert_eq!(
        route("DELETE", &format!("/api/bookmarks/{ID}")),
        Some(Ok(Action::DeleteBookmark(id)))
    );
    assert_eq!(route("PUT", "/api/bookmarks/not-a-uuid"), Some(Err(None)));
    assert_eq!(route("PUT", &format!("/api/bookmarks/{ID}/more")), Some(Err(None)));
    assert_eq!(route("PATCH", "/api/bookmarks"), Some(Err(Some("GET, POST"))));
}

#[test]
fn every_control_route_is_in_the_route_table_and_none_transmits() {
    for (method, path) in routes() {
        let lower = path.to_ascii_lowercase();
        for word in ["tx", "transmit", "replay_tx", "send"] {
            assert!(
                !lower.split(['/', '_', '{', '}']).any(|seg| seg == word),
                "{method} {path}"
            );
        }
        let concrete = path.replace("{id}", ID).replace("{stream_id}", "spectrum");
        if is_control_path(&concrete) {
            assert!(matches!(route(method, &concrete), Some(Ok(_))), "{method} {path}");
        }
    }
}

const ALL: Available = Available { live: true, run: true, scan: true, bookmarks: true };

const NONE: Available = Available { live: false, run: false, scan: false, bookmarks: false };

#[test]
fn commands_are_read_from_their_bodies() {
    let p = |a: Action, text: &str| plan(a, &body(text), ALL, 64);
    assert!(matches!(
        p(Action::Center, r#"{ "center_hz": 100e6 }"#),
        Ok(Command::Center(x)) if x == hz(100e6)
    ));
    match p(Action::Center, "{}") {
        Err(f) => assert_eq!((f.status, f.code), (400, "invalid")),
        Ok(_) => panic!("a centre needs its frequency"),
    }
    match p(Action::Gains, r#"{ "gains": { "lna": 16 } }"#) {
        Ok(Command::Gains(g)) => {
            assert_eq!(g.len(), 1);
            assert_eq!((g[0].stage.as_str(), g[0].db), ("lna", hz(16.0)));
        }
        Err(f) => panic!("{} {}", f.status, f.message),
        _ => panic!("gains"),
    }
    assert!(matches!(p(Action::ScanStop, "{}"), Ok(Command::ScanStop)));
    let stop = |text: &str| plan(Action::ScanStop, &body(text), NONE, 64);
    assert!(matches!(stop("{}"), Ok(Command::ScanStop)), "stopping is never refused");
    assert!(matches!(stop(r#"{ "x": 1 }"#), Err(f) if f.status == 400));
    match plan(Action::Center, &body(r#"{ "center_hz": 1 }"#), NONE, 64) {
        Err(f) => assert_eq!((f.status, f.code), (409, "not_live")),
        Ok(_) => panic!("there is no front end"),
    }
}

#[test]
fn a_stopped_sweep_is_answered_with_what_it_is_now() {
    let none = sweep_stopped(None);
    assert_eq!(none.status, 200);
    assert_eq!(none.body.get("scan"), Some(&Json::Null), "nothing could sweep");
    let a = sweep_stopped(Some((Json::uint(1), Json::uint(2))));
    assert_eq!((a.body.get("scan"), &a.old), (Some(&Json::uint(2)), &Json::uint(1)));
}

#[test]
fn a_sweep_yields_only_to_what_takes_the_radio() {
    for (a, d) in [
        (Action::Center, DeviceAction::Retune),
        (Action::Rate, DeviceAction::Rate),
        (Action::Window, DeviceAction::Window),
        (Action::Gains, DeviceAction::Gains),
        (Action::BiasTee, DeviceAction::BiasTee),
        (Action::BasebandFilter, DeviceAction::BasebandFilter),
    ] {
        assert_eq!(yields_to(a), Some(d));
    }
    for a in [
        Action::ScanStart,
        Action::ScanStop,
        Action::State,
        Action::Display,
        Action::RecordStart,
        Action::ListBookmarks,
    ] {
        assert_eq!(yields_to(a), None);
    }
}

#[test]
fn a_bookmark_that_is_changed_in_nothing_stays() {
    let b = Bookmark {
        id: ID.to_owned(),
        kind: BookmarkKind::Marker,
        name: "n".to_owned(),
        f_center_hz: hz(1e6),
        bandwidth_hz: None,
        note: Some("x".to_owned()),
        created_at: 5,
        updated_at: 5,
    };
    let same_one = updated_bookmark(&b, &Vec::new(), 64, 9).ok().unwrap();
    assert_eq!((same_one.name.as_str(), same_one.f_center_hz), ("n", hz(1e6)));
    assert_eq!(same_one.updated_at, 9);
    let early = updated_bookmark(&b, &Vec::new(), 64, 1).ok().unwrap();
    assert_eq!(early.updated_at, 5, "never before it was made");
    let cleared = updated_bookmark(&b, &body(r#"{ "note": null }"#), 64, 9).ok().unwrap();
    assert_eq!(cleared.note, None);
}

#[test]
fn a_sweep_is_proposed_by_both_ends_or_neither() {
    let q = |v: &[(&str, &str)]| -> Vec<(String, String)> {
        v.iter().map(|(a, b)| ((*a).to_owned(), (*b).to_owned())).collect()
    };
    assert!(scan_proposal(&q(&[])).ok().unwrap().is_none());
    assert!(scan_proposal(&q(&[("f_lo_hz", "1")])).is_err());
    let both = scan_proposal(&q(&[("f_lo_hz", "1e6"), ("f_hi_hz", "2e6")])).ok().unwrap().unwrap();
    assert_eq!(both.freq.map(|s| (s.lo, s.hi)), Some((hz(1e6), hz(2e6))));
    assert!(matches!(
        plan_read(Action::ListBookmarks, &q(&[]), ALL),
        Ok(ReadCommand::Bookmarks)
    ));
    let f = scan_fail(ScanError { status: 409, code: "conflict", message: "busy".to_owned() });
    assert_eq!((f.status, f.code, f.message.as_str()), (409, "conflict", "busy"));
}

fn tuning(center: f64) -> LiveTuning {
    LiveTuning {
        center_hz: hz(center),
        sample_rate_hz: hz(2e6),
        gains: vec![NamedGain { stage: "lna".to_owned(), db: hz(16.0) }],
        bias_tee: BiasTee::Off,
        baseband_filter_hz: None,
    }
}

#[test]
fn a_device_action_is_answered_and_audited_with_its_device() {
    let id = Some("hackrf:a".to_owned());
    let a = tuned(DeviceAction::Retune, &tuning(100e6), &tuning(101e6), &None, &id);
    assert_eq!(a.status, 200);
    assert!(device_entry(Reach::View, &id).is_none());
    let entry = device_entry(Reach::Device(DeviceAction::Retune), &id).unwrap();
    assert!(says(at(&entry, &["action"]), "retune"), "{entry:?}");
    let caller = Caller {
        token_id: Some("tok-1".to_owned()),
        peer: Some("127.0.0.1:5".to_owned()),
        peer_ip: Some("127.0.0.1".to_owned()),
        forwarded_for: None,
        origin: None,
    };
    let (r, line) = finish(
        7,
        &caller,
        "POST",
        "/api/control/center",
        "center",
        Some(entry),
        &Ok(body(r#"{ "center_hz": 101e6 }"#)),
        Ok(a),
    );
    assert_eq!(r.status, 200);
    assert!(says(at(&line, &["action"]), "center"), "{line:?}");
    assert!(line.get("device").is_some(), "{line:?}");
    let (r, line) = finish(
        7,
        &caller,
        "POST",
        "/api/control/center",
        "center",
        None,
        &Ok(Vec::new()),
        Err(Fail::of(409, "busy", "held")),
    );
    assert_eq!(r.status, 409);
    assert!(line.get("device").is_none(), "{line:?}");
    let (r, refused) = refuse_route(7, &caller, "GET", "/api/control/center", Some("POST"));
    assert_eq!((r.status, r.allow), (405, Some("POST")));
    assert!(refused.is_none() || refused.unwrap().client.is_none());
    let refused = audit_refused(7, &caller, "POST", "/x", 401, "no token");
    assert!(says(at(&refused.entry, &["error"]), "no token"), "{:?}", refused.entry);
}

#[test]
fn a_sweep_that_yields_is_resumed_when_the_action_fails() {
    let (r, resume) = arbitrate(
        Some(Json::uint(1)),
        Err(Fail::of(400, "invalid", "no")),
    );
    assert!(r.is_err());
    assert!(resume, "the sweep goes on");
    let (r, resume) = arbitrate(None, Ok(ok(Json::Object(vec![]), Json::Null, Json::Null)));
    assert!(r.is_ok() && !resume);
}

#[test]
fn changes_need_an_audit_log() {
    assert!(matches!(begin(false, false, None, b""), Begun::Read));
    match begin(true, false, Some("application/json"), b"{}") {
        Begun::Refused(r) => assert_eq!(r.status, 503),
        _ => panic!("nothing changes unrecorded"),
    }
    match begin(true, true, Some("application/json; charset=utf-8"), br#"{"a":1}"#) {
        Begun::Apply(Ok(b)) => assert_eq!(b.len(), 1),
        _ => panic!("an audited change goes on"),
    }
    assert_eq!(answer_read(Ok(Json::Null)).status, 200);
    assert_eq!(answer_read(Err(Fail::invalid("x"))).status, 400);
}

#[test]
fn bodies_are_json_objects() {
    assert!(parse_body(None, b"").ok().unwrap().is_empty());
    assert_eq!(parse_body(Some("text/plain"), b"{}").err().unwrap().status, 415);
    assert_eq!(parse_body(Some("application/json"), b"[1]").err().unwrap().status, 400);
    assert_eq!(parse_body(Some("application/json"), b"{").err().unwrap().status, 400);
    let b = parse_body(Some("APPLICATION/JSON"), br#"{"x":-3,"y":1.5}"#).ok().unwrap();
    assert_eq!(b[0].1, Json::Number(Num::I(-3)));
    assert_eq!(b[1].1, Json::Number(Num::R(hz(1.5))));
}

#[test]
fn audit_lines_are_cut_to_their_bounds() {
    assert_eq!(bound_str("short", 16), "short");
    let cut = bound_str(&"x".repeat(400), 256);
    assert_eq!(cut, format!("{}…[truncated 144 bytes]", "x".repeat(256)));
    assert_eq!(bound_str("ééé", 3), "é…[truncated 4 bytes]", "on a character boundary");
    let l = AuditLimits::default();
    let long = Json::Object(vec![("path".to_owned(), Json::text(&"p".repeat(1000)))]);
    match at(&bound_entry(&l, &long), &["path"]) {
        Json::Text(s) => {
            assert_eq!(*s, format!("{}…[truncated 744 bytes]", "p".repeat(256)))
        }
        other => panic!("{other:?}"),
    }
    let entry = parsed(r#"{ "action": "center", "request": { "hz": 1 }, "old": 1, "new": 2 }"#);
    let short = shorten(&entry, 99);
    assert_ne!(at(&short, &["request"]), at(&entry, &["request"]));
    assert!(says(at(&short, &["action"]), "center"));
    assert!(matches!(
        line_step(&l, LineStage::Full, vec![b'a'; 10]),
        LineStep::Write(v) if v.len() == 11 && v[10] == 10
    ));
    assert!(matches!(
        line_step(&l, LineStage::Full, vec![b'a'; l.max_line_bytes]),
        LineStep::Shorter(LineStage::Shortened)
    ));
    assert!(matches!(
        line_step(&l, LineStage::Stub, vec![b'a'; l.max_line_bytes]),
        LineStep::Write(_)
    ));
}

#[test]
fn audit_files_rotate_and_keep_their_number() {
    assert_eq!(rotation(1), vec![RotateStep::Remove(0)]);
    assert_eq!(
        rotation(3),
        vec![RotateStep::Remove(2), RotateStep::Shift(1), RotateStep::Shift(0)]
    );
    let clamped = AuditLimits { files: 0, max_file_bytes: 1, ..AuditLimits::default() }.clamped();
    assert_eq!((clamped.files, clamped.max_file_bytes, clamped.max_line_bytes), (1, 1024, 1024));
    let mut log = AuditLog::new(AuditLimits::default(), 0, 0);
    assert!(!log.must_rotate(100));
    log.line_written(16_777_200);
    assert!(log.must_rotate(100));
    log.rotating();
    assert!(log.must_rotate(0), "no file is open");
    log.rotated(0);
    assert!(!log.must_rotate(100));
}

#[test]
fn refusals_of_one_client_are_coalesced_and_none_is_lost() {
    let mut log = AuditLog::new(AuditLimits::default(), 0, 0);
    assert_eq!(log.append_refused("a", 0), Some(1));
    log.refusal_written(1, true);
    for i in 1..10 {
        assert_eq!(log.append_refused("a", i), None, "within the second");
    }
    assert_eq!(log.append_refused("b", 10), Some(1), "another client has its own line");
    log.refusal_written(1, true);
    assert_eq!(log.append_refused("a", 2_000_000_000), Some(10));
    log.refusal_written(10, true);
    assert_eq!(log.flush_refused(), None);
}

#[test]
fn a_failing_log_is_reported_at_intervals() {
    let mut log = AuditLog::new(AuditLimits::default(), 0, 0);
    assert!(log.report_error(0));
    assert!(!log.report_error(9_999_999_999));
    assert!(log.report_error(10_000_000_000));
}

#[test]
fn capture_states_have_their_names() {
    assert_eq!(CaptureStatus::default().as_str(), "running");
    assert_eq!(CaptureStatus::Recovering.as_str(), "recovering");
    assert_eq!(CaptureStatus::Ended.as_str(), "ended");
}

#[test]
fn a_stub_fits_the_shortest_line() {
    let limits = AuditLimits { max_line_bytes: 0, ..AuditLimits::default() }.clamped();
    assert_eq!(limits.max_line_bytes, 512);
    let v = stub(i64::MIN, u64::MAX);
    assert_eq!(v.get("result").and_then(Json::string), Some("truncated"));
    let members = match &v {
        Json::Object(m) => m.iter().map(|(k, _)| k.as_str()).collect::<Vec<_>>(),
        _ => panic!("{v:?} is no object"),
    };
    assert_eq!(members, vec!["t_s", "result", "entry_bytes"]);
    let (t, n) = (i64::MIN as f64 / 1e9, u64::MAX);
    let text = format!(r#"{{"t_s":{t:?},"result":"truncated","entry_bytes":{n}}}"#);
    assert!(text.len() <= 92, "{}", text.len());
    match line_step(&limits, LineStage::Stub, text.clone().into_bytes()) {
        LineStep::Write(line) => assert!(line.len() <= limits.max_line_bytes),
        LineStep::Shorter(_) => panic!("nothing is shorter than a stub"),
    }
}
