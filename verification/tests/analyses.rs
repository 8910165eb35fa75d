//! Requests for analyses.

use hk_api::analyze::{
    analysis, answer, cancelled, control, failure, job, list_state, parse_options, parse_target,
    plan_delete, plan_post, post_action, read_trace, resolve, resolve_band, resolve_emitter,
    resolve_selection, started, wants_job, Action, AnalyzeFailure, Asked, EmitterRow, SelectionRow,
    Target,
};
use hk_api::body::CtlResponse;
use hk_api::command::RepoError;
use hk_api::control::Id;
use hk_api::double::Real;
use hk_api::json::{parse, Json, Num};

fn parsed(text: &str) -> Json {
    parse(text.as_bytes()).unwrap()
}

fn body(text: &str) -> Vec<(String, Json)> {
    match parsed(text) {
        Json::Object(m) => m,
        _ => panic!("{text} is no object"),
    }
}

fn number(v: &Json) -> f64 {
    match v {
        Json::Number(Num::U(n)) => *n as f64,
        Json::Number(Num::I(n)) => *n as f64,
        Json::Number(Num::R(r)) => f64::from_bits(r.bits),
        Json::Number(Num::Seconds(ns)) => *ns as f64 / 1e9,
        Json::Number(Num::SecondsByScale(ns)) => *ns as f64 * 1e-9,
        Json::Number(Num::Ratio(a, b)) => *a as f64 / *b as f64,
        _ => panic!("{v:?} is no number"),
    }
}

fn same(a: &Json, b: &Json) -> bool {
    match (a, b) {
        (Json::Number(_), Json::Number(_)) => number(a) == number(b),
        (Json::Array(x), Json::Array(y)) => {
            x.len() == y.len() && x.iter().zip(y).all(|(p, q)| same(p, q))
        }
        (Json::Object(x), Json::Object(y)) => {
            x.len() == y.len() && x.iter().all(|(k, v)| b.get(k).map_or(false, |w| same(v, w)))
        }
        _ => a == b,
    }
}

fn at<'a>(v: &'a Json, path: &[&str]) -> &'a Json {
    let mut v = v;
    for p in path {
        v = match v {
            Json::Array(a) => &a[p.parse::<usize>().unwrap()],
            _ => v.get(p).unwrap_or(&Json::Null),
        };
    }
    v
}

fn says(v: &Json, text: &str) -> bool {
    v.string() == Some(text)
}

const SELECTION: &str = "0199d3a0-0000-7000-8000-000000000001";
const EMITTER: &str = "0199d3a0-0000-7000-8000-000000000002";

fn id_of(text: &str) -> Option<Id> {
    if text.len() != 36 {
        return None;
    }
    let digits: String = text.chars().filter(|c| *c != '-').collect();
    u128::from_str_radix(&digits, 16).ok().map(|value| Id { value })
}

fn hz(x: f64) -> Real {
    Real { bits: x.to_bits() }
}

/// The target of a body, its identity read as the server reads it.
fn target(text: &str) -> Result<Target, u16> {
    let b = body(text);
    let mut id = None;
    for (k, v) in &b {
        if k == "selection_id" || k == "emitter_id" {
            id = v.string().and_then(id_of);
        }
    }
    parse_target(&b, id).map_err(|f| f.response().status)
}

#[test]
fn analyze_routes_resolve_with_methods() {
    assert_eq!(resolve("POST", "/api/analyze"), Some(Ok(Action::Start)));
    assert_eq!(resolve("GET", "/api/analyze"), Some(Ok(Action::List)));
    assert_eq!(resolve("PUT", "/api/analyze"), Some(Err(Some("GET, POST"))));
    assert_eq!(resolve("GET", "/api/analyze/a1"), Some(Ok(Action::Get("a1"))));
    assert_eq!(resolve("DELETE", "/api/analyze/a1"), Some(Ok(Action::Cancel("a1"))));
    assert_eq!(resolve("POST", "/api/analyze/a1"), Some(Err(Some("GET, DELETE"))));
    assert_eq!(resolve("GET", "/api/analyze/a1/trace"), Some(Ok(Action::Trace("a1"))));
    assert_eq!(resolve("DELETE", "/api/analyze/a1/trace"), Some(Err(Some("GET"))));
    assert_eq!(resolve("GET", "/api/analyzex"), None);
    assert_eq!(resolve("GET", "/api/analyze/a1/x"), None);
    assert_eq!(resolve("GET", "/api/analyze/"), None);
    assert_eq!(resolve("GET", "/api/other"), None);
}

#[test]
fn target_forms_parse_and_validate() {
    let sid = id_of(SELECTION).unwrap();
    let eid = id_of(EMITTER).unwrap();
    let s = format!("\"selection_id\": \"{SELECTION}\"");
    let e = format!("\"emitter_id\": \"{EMITTER}\"");
    assert!(matches!(target(&format!("{{ {s} }}")), Ok(Target::Selection(i)) if i == sid));
    assert!(matches!(
        target(&format!("{{ {e}, \"profile\": \"quick\" }}")),
        Ok(Target::Emitter(i)) if i == eid
    ));
    match target(r#"{ "band": { "f_lo": 100.0e6, "f_hi": 101.0e6 } }"#) {
        Ok(Target::Band { f_lo_hz, f_hi_hz, t_lo_s, t_hi_s }) => {
            assert_eq!((f_lo_hz, f_hi_hz), (hz(100.0e6), hz(101.0e6)));
            assert_eq!((t_lo_s, t_hi_s), (None, None));
        }
        _ => panic!("a band without a window"),
    }
    match target(r#"{ "band": { "f_lo": 100.0e6, "f_hi": 101.0e6, "t_lo": 1.0, "t_hi": 2.0 } }"#) {
        Ok(Target::Band { f_lo_hz, f_hi_hz, t_lo_s, t_hi_s }) => {
            assert_eq!((f_lo_hz, f_hi_hz), (hz(100.0e6), hz(101.0e6)));
            assert_eq!((t_lo_s, t_hi_s), (Some(hz(1.0)), Some(hz(2.0))));
        }
        _ => panic!("a band with a window"),
    }
    for bad in [
        "{}".to_owned(),
        format!("{{ {s}, {e} }}"),
        format!("{{ {s}, \"band\": {{ \"f_lo\": 1.0, \"f_hi\": 2.0 }} }}"),
        format!("{{ {s}, \"extra\": 1 }}"),
        r#"{ "band": { "f_lo": 2.0, "f_hi": 1.0 } }"#.to_owned(),
        r#"{ "band": { "f_lo": 1.0, "f_hi": 1.0 } }"#.to_owned(),
        r#"{ "band": { "f_lo": -1.0, "f_hi": 1.0 } }"#.to_owned(),
        r#"{ "band": { "f_hi": 1.0 } }"#.to_owned(),
        r#"{ "band": { "f_lo": 1.0, "f_hi": 2.0, "extra": 1 } }"#.to_owned(),
        r#"{ "band": { "f_lo": 1.0, "f_hi": 2.0, "t_lo": 1.0 } }"#.to_owned(),
        r#"{ "band": { "f_lo": 1.0, "f_hi": 2.0, "t_lo": 2.0, "t_hi": 1.0 } }"#.to_owned(),
        r#"{ "band": "not an object" }"#.to_owned(),
    ] {
        assert_eq!(target(&bad).err(), Some(400), "{bad}");
    }
    // A malformed id is 404, not 400 (like a malformed inventory path).
    assert_eq!(target(r#"{ "selection_id": "not-a-uuid" }"#).err(), Some(404));
    assert_eq!(target(r#"{ "emitter_id": "not-a-uuid" }"#).err(), Some(404));
}

#[test]
fn a_bare_emitter_id_is_the_persisted_read_and_anything_more_is_a_job() {
    let bare = format!("{{ \"emitter_id\": \"{EMITTER}\" }}");
    assert!(!wants_job(&body(&bare)));
    assert_eq!(post_action(bare.as_bytes()), "analyze");
    for job in [
        format!("{{ \"emitter_id\": \"{EMITTER}\", \"profile\": \"quick\" }}"),
        format!("{{ \"emitter_id\": \"{EMITTER}\", \"attach\": true }}"),
        r#"{ "band": { "f_lo": 1.0, "f_hi": 2.0 } }"#.to_owned(),
        r#"{ "selection_id": "x" }"#.to_owned(),
    ] {
        assert!(wants_job(&body(&job)), "{job}");
        assert_eq!(post_action(job.as_bytes()), "analyze_start");
    }
    assert_eq!(post_action(b"not json"), "analyze_start");
}

#[test]
fn job_options_validate() {
    let ok = parse_options(&body(
        r#"{ "profile": "deep", "source": "ring", "max_wall_s": 5.0, "live_s": 3.0,
             "templates": { "only": ["generic-fsk-framed"], "exclude": [], "off": false },
             "attach": false }"#,
    ))
    .ok()
    .unwrap();
    assert_eq!((ok.profile, ok.source), ("deep", "ring"));
    assert_eq!(
        (ok.max_wall_s, ok.live_s, ok.attach),
        (Some(hz(5.0)), Some(hz(3.0)), false)
    );
    assert_eq!(ok.templates.only.as_deref(), Some(&["generic-fsk-framed".to_owned()][..]));
    let d = parse_options(&Vec::new()).ok().unwrap();
    assert_eq!((d.profile, d.source, d.attach), ("standard", "auto", true));
    for bad in [
        r#"{ "profile": "turbo" }"#,
        r#"{ "profile": 3 }"#,
        r#"{ "source": "file" }"#,
        r#"{ "max_wall_s": 0.0 }"#,
        r#"{ "live_s": 31.0 }"#,
        r#"{ "live_s": 0.0 }"#,
        r#"{ "attach": "yes" }"#,
        r#"{ "templates": [] }"#,
        r#"{ "templates": { "only": "x" } }"#,
        r#"{ "templates": { "only": [""] } }"#,
        r#"{ "templates": { "nope": 1 } }"#,
        r#"{ "templates": { "off": 1 } }"#,
    ] {
        match parse_options(&body(bad)) {
            Ok(_) => panic!("{bad} should be refused"),
            Err(f) => assert_eq!(f.response().status, 400, "{bad}"),
        }
    }
}

#[test]
fn a_band_job_is_handed_to_the_manager_resolved_and_answers_202() {
    let b = body(
        r#"{ "band": { "f_lo": 1.0e6, "f_hi": 2.0e6, "t_lo": 10.0, "t_hi": 12.0 },
             "profile": "quick", "live_s": 4.0 }"#,
    );
    let (target, options) = match plan_post(&b, None) {
        Ok(Asked::Job(t, o)) => (t, o),
        _ => panic!("a band is a job"),
    };
    assert!(control(true).is_ok());
    let region = resolve_band(target).unwrap();
    let got = job(&b, region, options);
    assert_eq!((got.region.f_lo_hz, got.region.f_hi_hz), (hz(1.0e6), hz(2.0e6)));
    assert_eq!((got.region.t_lo_s, got.region.t_hi_s), (Some(hz(10.0)), Some(hz(12.0))));
    assert!(got.region.window_explicit);
    assert_eq!(
        (got.options.profile, got.options.source, got.options.live_s),
        ("quick", "auto", Some(hz(4.0)))
    );
    assert!(same(
        &got.target,
        &parsed(r#"{ "band": { "f_lo": 1.0e6, "f_hi": 2.0e6, "t_lo": 10.0, "t_hi": 12.0 } }"#)
    ));
    let a = started(Ok(parsed(
        r#"{ "id": "a1", "state": "queued", "href": "/api/analyze/a1" }"#,
    )))
    .ok()
    .unwrap();
    assert_eq!(a.status, 202);
    assert!(says(at(&a.body, &["job", "id"]), "a1"));
    // Codes from the manager pass through by name.
    let r = failure(AnalyzeFailure {
        status: 410,
        code: "gone".into(),
        message: "forgotten".into(),
    })
    .response();
    assert_eq!(r.status, 410);
    assert!(says(at(&r.body, &["code"]), "gone"));
}

#[test]
fn without_a_job_manager_a_job_is_503_unavailable() {
    let b = body(r#"{ "band": { "f_lo": 1.0, "f_hi": 2.0 } }"#);
    assert!(matches!(plan_post(&b, None), Ok(Asked::Job(_, _))));
    let r = control(false).err().unwrap().response();
    assert_eq!(r.status, 503);
    assert!(says(at(&r.body, &["code"]), "unavailable"));
}

#[test]
fn an_unknown_code_of_the_manager_is_a_failure() {
    let r = failure(AnalyzeFailure { status: 418, code: "teapot".into(), message: "m".into() });
    assert_eq!((r.status, r.code, r.message.as_str()), (418, "failed", "m"));
}

#[test]
fn a_deleted_emitter_is_not_analysed() {
    let row = || EmitterRow {
        f_lo_hz: hz(1.0),
        f_hi_hz: hz(2.0),
        first_s: hz(3.0),
        last_s: hz(4.0),
    };
    let id = Id { value: 7 };
    let r = resolve_emitter(true, Ok(id), Ok(true), Ok(row())).err().unwrap();
    assert_eq!(r.status, 404);
    let ok = resolve_emitter(true, Ok(id), Ok(false), Ok(row())).ok().unwrap();
    assert_eq!((ok.f_lo_hz, ok.f_hi_hz), (hz(1.0), hz(2.0)));
    assert_eq!(ok.emitter_id, Some(id));
    assert!(!ok.window_explicit);
    assert_eq!(resolve_emitter(false, Ok(id), Ok(false), Ok(row())).err().unwrap().status, 503);
    let missing = resolve_selection(true, Err(RepoError::NotFound)).err().unwrap();
    assert_eq!(missing.status, 404);
    let s = resolve_selection(
        true,
        Ok(SelectionRow {
            f_lo_hz: hz(1.0),
            f_hi_hz: hz(2.0),
            t_lo_s: Some(hz(1.0)),
            t_hi_s: Some(hz(2.0)),
        }),
    )
    .ok()
    .unwrap();
    assert!(s.window_explicit);
}

#[test]
fn a_stored_analysis_is_served_and_one_that_never_ran_says_so() {
    let id = Id { value: 9 };
    let stored = analysis(
        true,
        Ok(id),
        Ok(()),
        Ok(Some(Ok(parsed(r#"{ "x": 1 }"#)))),
        EMITTER,
        Ok(Json::Null),
    );
    assert_eq!(stored.ok().unwrap().status, 200);
    assert_eq!(
        analysis(true, Err(RepoError::NotFound), Ok(()), Ok(None), EMITTER, Ok(Json::Null))
            .err()
            .unwrap()
            .status,
        404
    );
}

#[test]
fn jobs_are_cancelled_with_an_empty_body() {
    assert!(plan_delete(&Vec::new(), true).is_ok());
    assert_eq!(plan_delete(&body(r#"{ "x": 1 }"#), true).err().unwrap().status, 400);
    assert_eq!(plan_delete(&Vec::new(), false).err().unwrap().status, 503);
    let a = cancelled(Ok((parsed(r#"{ "id": "a1" }"#), false))).ok().unwrap();
    assert_eq!(a.status, 200);
}

#[test]
fn reads_of_jobs_check_their_parameters() {
    let q = |v: &[(&str, &str)]| -> Vec<(String, String)> {
        v.iter().map(|(a, b)| ((*a).to_owned(), (*b).to_owned())).collect()
    };
    assert_eq!(list_state(&q(&[("state", "queued")])).ok().unwrap(), Some("queued"));
    assert!(list_state(&q(&[("x", "1")])).is_err());
    let t = read_trace(&q(&[("stage", "fit"), ("tried", "true"), ("limit", "5")])).ok().unwrap();
    assert_eq!((t.stage.as_deref(), t.tried, t.limit), (Some("fit"), Some(true), Some(5)));
    assert!(read_trace(&q(&[("limit", "x")])).is_err());
}

#[test]
fn a_started_job_is_answered_with_where_it_is() {
    let said = |status: u16, text: &str| {
        answer(CtlResponse { status, body: parsed(text), allow: None }).extra
    };
    let a = started(Ok(parsed(r#"{ "id": "j1", "state": "queued" }"#))).ok().unwrap();
    let a = answer(CtlResponse { status: a.status, body: a.body, allow: None });
    assert_eq!((a.status, a.extra.as_str()), (202, "Location: /api/analyze/j1\r\n"));
    assert_eq!(said(200, r#"{ "job": { "id": "j1" } }"#), "", "nothing was started");
    assert_eq!(said(202, r#"{ "job": { "id": 1 } }"#), "");
    assert_eq!(said(202, r#"{ "job": { "id": "a b" } }"#), "", "no header holds it");
    assert_eq!(said(202, r#"{ "job": { "id": "a\r\nX: 1" } }"#), "");
    let refused = CtlResponse { status: 405, body: Json::Null, allow: Some("GET, POST") };
    assert_eq!(answer(refused).extra, "Allow: GET, POST\r\n");
}
