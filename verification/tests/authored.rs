//! Annotations, collections, sites and anomalies.

use hk_api::annotations;
use hk_api::anomalies::{self, AnomalyFail, AnomalyKind, AnomalyStatus, AnomalyView, Routed};
use hk_api::attention::{
    self, read_call, write_call, AttentionAnswer, AttentionCall, AttentionFail, BaselineResolution,
    Route,
};
use hk_api::authored::{
    find_rate, from_secs, next_create, read_size, read_start, CreateStep, LiveDevice, Tier,
};
use hk_api::collections::{self, StoreError};
use hk_api::command::RepoError;
use hk_api::control::Id;
use hk_api::double::Real;
use hk_api::json::{parse, Json, Num};
use hk_api::routes::routes;

fn parsed(text: &str) -> Json {
    parse(text.as_bytes()).unwrap()
}

fn body(text: &str) -> Vec<(String, Json)> {
    match parsed(text) {
        Json::Object(m) => m,
        _ => panic!("{text} is no object"),
    }
}

fn number(v: &Json) -> f64 {
    match v {
        Json::Number(Num::U(n)) => *n as f64,
        Json::Number(Num::I(n)) => *n as f64,
        Json::Number(Num::R(r)) => f64::from_bits(r.bits),
        Json::Number(Num::Seconds(ns)) => *ns as f64 / 1e9,
        Json::Number(Num::SecondsByScale(ns)) => *ns as f64 * 1e-9,
        Json::Number(Num::Ratio(a, b)) => *a as f64 / *b as f64,
        _ => panic!("{v:?} is no number"),
    }
}

fn same(a: &Json, b: &Json) -> bool {
    match (a, b) {
        (Json::Number(_), Json::Number(_)) => number(a) == number(b),
        (Json::Array(x), Json::Array(y)) => {
            x.len() == y.len() && x.iter().zip(y).all(|(p, q)| same(p, q))
        }
        (Json::Object(x), Json::Object(y)) => {
            x.len() == y.len() && x.iter().all(|(k, v)| b.get(k).map_or(false, |w| same(v, w)))
        }
        _ => a == b,
    }
}

fn at<'a>(v: &'a Json, path: &[&str]) -> &'a Json {
    let mut v = v;
    for p in path {
        v = match v {
            Json::Array(a) => &a[p.parse::<usize>().unwrap()],
            _ => v.get(p).unwrap_or(&Json::Null),
        };
    }
    v
}

fn says(v: &Json, text: &str) -> bool {
    v.string() == Some(text)
}

fn hz(x: f64) -> Real {
    Real { bits: x.to_bits() }
}

fn q(v: &[(&str, &str)]) -> Vec<(String, String)> {
    v.iter().map(|(a, b)| ((*a).to_owned(), (*b).to_owned())).collect()
}

/// The identity that a path ends in, read as the server reads it.
fn id_of(text: &str) -> Option<Id> {
    if text.len() != 36 {
        return None;
    }
    let digits: String = text.chars().filter(|c| *c != '-').collect();
    u128::from_str_radix(&digits, 16).ok().map(|value| Id { value })
}

const ID: &str = "0199d3a0-0000-7000-8000-00000000000a";

// ---------------------------------------------------------------------------------------------
// Annotations
// ---------------------------------------------------------------------------------------------

fn annotation_route(method: &str, path: &str) -> Option<Result<annotations::Action, Option<&'static str>>> {
    annotations::resolve(method, path, annotations::path_id(path).and_then(id_of))
}

#[test]
fn annotations_routes_resolve_with_methods() {
    let id = id_of(ID).unwrap();
    assert_eq!(
        annotation_route("GET", "/api/annotations"),
        Some(Ok(annotations::Action::List))
    );
    assert_eq!(
        annotation_route("POST", "/api/annotations"),
        Some(Ok(annotations::Action::Create))
    );
    assert_eq!(
        annotation_route("DELETE", "/api/annotations"),
        Some(Err(Some("GET, POST")))
    );
    assert_eq!(
        annotation_route("PUT", &format!("/api/annotations/{ID}")),
        Some(Ok(annotations::Action::Update(id)))
    );
    assert_eq!(
        annotation_route("POST", &format!("/api/annotations/{ID}")),
        Some(Err(Some("GET, PUT, DELETE")))
    );
    assert_eq!(annotation_route("GET", "/api/annotations/nope"), Some(Err(None)));
    assert_eq!(annotation_route("GET", "/api/annotationsx"), None);
    assert_eq!(annotation_route("GET", "/api/selections"), None);
}

#[test]
fn every_annotation_route_is_in_the_route_table() {
    let table = routes();
    let listed: Vec<_> = table.iter().filter(|(_, p)| p.starts_with("/api/annotations")).collect();
    assert_eq!(listed.len(), 5);
    for (method, path) in listed {
        let concrete = path.replace("{id}", ID);
        assert!(matches!(annotation_route(method, &concrete), Some(Ok(_))), "{method} {path}");
    }
}

#[test]
fn server_owned_provenance_is_refused_by_name() {
    let b = body(r#"{ "view": { "center_hz": 1.0, "actor": "me" } }"#);
    assert!(annotations::refuse_server_owned(&b).is_err());
    let b = body(r#"{ "provenance": {} }"#);
    assert!(annotations::refuse_server_owned(&b).is_err());
    let b = body(r#"{ "view": { "center_hz": 1.0 } }"#);
    assert!(annotations::refuse_server_owned(&b).is_ok());
}

fn live() -> Vec<LiveDevice> {
    vec![LiveDevice { device_id: Some("hackrf:a".to_owned()), sample_rate_hz: hz(2e6) }]
}

fn annotation_context() -> annotations::Context {
    annotations::Context {
        live: live(),
        times: annotations::Times {
            t0: 1_000_000_000,
            t1: 2_000_000_000,
            capture_start: 0,
            capture_end: 4_000_000_000,
        },
        now: 9_000_000_000,
        actor: Some("tok-1".to_owned()),
        fresh_id: ID.to_owned(),
        given_id: None,
    }
}

const NEW_ANNOTATION: &str = r#"{ "kind": "box", "f_lo_hz": 100e6, "f_hi_hz": 101e6, "t0_s": 1, "t1_s": 2,
    "label": "a burst", "view": { "device_id": "hackrf:a", "center_hz": 100.5e6, "span_hz": 2e6,
    "t_capture": [0, 4], "tier": "live-iq" } }"#;

#[test]
fn a_new_annotation_is_stamped_by_the_server() {
    let c = annotation_context();
    let a = match annotations::plan_create(&body(NEW_ANNOTATION), &c) {
        Ok(a) => a,
        Err(f) => panic!("{} {}", f.status, f.message),
    };
    assert_eq!(a.id, ID);
    assert_eq!(a.label, "a burst");
    assert_eq!(a.provenance.actor.as_deref(), Some("tok-1"));
    assert_eq!(a.provenance.authored_at, 9_000_000_000);
    assert!(a.provenance.authored);
    assert_eq!(a.provenance.sample_rate_hz, Some(hz(2e6)));
    assert_eq!((a.t0, a.t1), (1_000_000_000, 2_000_000_000));
    let r = annotations::created(&a, Ok(()), true, false, Ok(())).ok().unwrap();
    assert_eq!(r.status, 201);
    let r = annotations::created(&a, Ok(()), true, true, Ok(())).err().unwrap();
    assert_eq!(r.status, 409);
    let r = annotations::created(&a, Ok(()), false, false, Ok(())).err().unwrap();
    assert_eq!(r.status, 503);
}

#[test]
fn a_row_that_is_there_is_never_inserted() {
    assert_eq!(next_create(true, true, None), CreateStep::Look);
    assert_eq!(next_create(true, true, Some(false)), CreateStep::Insert);
    assert_eq!(next_create(true, true, Some(true)), CreateStep::Answer);
    for found in [None, Some(false), Some(true)] {
        assert_eq!(next_create(false, true, found), CreateStep::Answer);
        assert_eq!(next_create(true, false, found), CreateStep::Answer);
    }
}

#[test]
fn an_annotation_needs_its_band() {
    let b = body(r#"{ "kind": "box", "label": "x" }"#);
    assert_eq!(annotations::plan_create(&b, &annotation_context()).err().unwrap().status, 400);
    assert!(annotations::kind(Some("circle")).is_err());
    assert!(annotations::kind(Some("marker")).is_ok());
}

#[test]
fn lists_of_annotations_need_their_window() {
    let full = q(&[("f_lo", "1"), ("f_hi", "2"), ("t0", "1"), ("t1", "2")]);
    let l = annotations::plan_list(&full, true, 1_000_000_000, 2_000_000_000).ok().unwrap();
    assert_eq!((l.limit, l.offset), (200, 0));
    assert_eq!(annotations::plan_list(&full, false, 0, 1).err().unwrap().status, 503);
    assert_eq!(annotations::plan_list(&q(&[("f_lo", "1")]), true, 0, 1).err().unwrap().status, 400);
    let e = annotations::one(true, Err(RepoError::NotFound)).err().unwrap();
    assert_eq!(e.status, 404);
    let e = annotations::one(true, Err(RepoError::Other("disk".to_owned()))).err().unwrap();
    assert_eq!(e.status, 500);
    assert!(e.message.ends_with(": disk"), "{}", e.message);
}

// ---------------------------------------------------------------------------------------------
// Collections
// ---------------------------------------------------------------------------------------------

fn collection_route(method: &str, path: &str) -> Option<Result<collections::Action, Option<&'static str>>> {
    collections::resolve(method, path, collections::path_id(path).and_then(id_of))
}

#[test]
fn paths_resolve_to_their_actions() {
    let c = id_of(ID).unwrap();
    assert_eq!(
        collection_route("GET", "/api/collections"),
        Some(Ok(collections::Action::List))
    );
    assert_eq!(
        collection_route("POST", &format!("/api/collections/{ID}/markers")),
        Some(Ok(collections::Action::CreateMarker(c)))
    );
    assert_eq!(
        collection_route("GET", "/api/markers"),
        Some(Ok(collections::Action::ListMarkers(None)))
    );
    assert_eq!(
        collection_route("DELETE", &format!("/api/markers/{ID}")),
        Some(Ok(collections::Action::DeleteMarker(c)))
    );
    assert_eq!(collection_route("POST", "/api/markers"), Some(Err(Some("GET"))));
    assert_eq!(collection_route("GET", "/api/collections/nope"), Some(Err(None)));
    assert_eq!(collection_route("GET", "/api/bookmarks"), None);
}

fn marker_context() -> collections::Context {
    collections::Context {
        live: live(),
        capture_start: 0,
        capture_end: 4_000_000_000,
        t_center: 1_000_000_000,
        now: 9_000_000_000,
        actor: Some("tok-1".to_owned()),
        fresh_id: ID.to_owned(),
        given_id: None,
    }
}

#[test]
fn a_marker_is_stamped_and_a_cleared_time_clears_its_length() {
    let b = body(
        r#"{ "name": "beacon", "f_center_hz": 100e6, "t_center_s": 1, "duration_s": 2,
             "view": { "center_hz": 100e6, "span_hz": 2e6, "t_capture": [0, 4],
             "tier": "live-iq" } }"#,
    );
    let m = match collections::plan_create_marker(&b, "c1", &marker_context()) {
        Ok(m) => m,
        Err(f) => panic!("{} {}", f.status, f.message),
    };
    assert_eq!((m.id.as_str(), m.collection_id.as_str()), (ID, "c1"));
    assert_eq!(m.t_center, Some(1_000_000_000));
    assert_eq!(m.provenance.authored_at, 9_000_000_000);
    assert_eq!(m.provenance.actor.as_deref(), Some("tok-1"));
    let cleared = collections::apply_marker(&body(r#"{ "t_center_s": null }"#), m, 0).ok().unwrap();
    assert_eq!((cleared.t_center, cleared.duration_s), (None, None));
    assert_eq!(cleared.name, "beacon");
}

#[test]
fn a_rate_is_stamped_only_of_the_live_front_end_that_the_view_names() {
    let stamped = |device: &str, c: &collections::Context| {
        let view = format!(
            r#"{{ {device} "center_hz": 1e8, "span_hz": 2e6, "t_capture": [0, 4],
                "tier": "live-iq" }}"#
        );
        collections::stamp(&parsed(&view), c).ok().unwrap().sample_rate_hz
    };
    let c = marker_context();
    assert_eq!(stamped(r#""device_id": "hackrf:a","#, &c), Some(hz(2e6)));
    assert_eq!(stamped("", &c), None, "no front end is named");
    assert_eq!(stamped(r#""device_id": "hackrf:b","#, &c), None, "not live");
    let still = LiveDevice { device_id: Some("hackrf:a".to_owned()), sample_rate_hz: hz(0.0) };
    let c = collections::Context { live: vec![still], ..marker_context() };
    assert_eq!(stamped(r#""device_id": "hackrf:a","#, &c), None, "no rate to speak of");
    let unnamed = LiveDevice { device_id: None, sample_rate_hz: hz(2e6) };
    assert_eq!(find_rate(&vec![unnamed], &Some("hackrf:a".to_owned())), None);
    assert_eq!(find_rate(&live(), &None), None);
    assert_eq!(find_rate(&live(), &Some("hackrf:a".to_owned())), Some(hz(2e6)));
}

#[test]
fn a_copied_row_is_the_same_row() {
    let a = annotations::plan_create(&body(NEW_ANNOTATION), &annotation_context()).ok().unwrap();
    assert_eq!(format!("{:?}", a.copy()), format!("{a:?}"));
    let b = body(
        r#"{ "name": "beacon", "f_center_hz": 100e6, "t_center_s": 1, "duration_s": 2,
             "view": { "device_id": "hackrf:a", "center_hz": 100e6, "span_hz": 2e6,
             "t_capture": [0, 4], "tier": "live-iq" } }"#,
    );
    let m = collections::plan_create_marker(&b, "c1", &marker_context()).ok().unwrap();
    assert_eq!(format!("{:?}", m.copy()), format!("{m:?}"));
}

#[test]
fn pages_of_collections_are_bounded() {
    assert_eq!(collections::paging(&q(&[])).ok().unwrap(), (0, 500));
    assert_eq!(
        collections::paging(&q(&[("limit", "2000"), ("cursor", "7")])).ok().unwrap(),
        (7, 2000)
    );
    assert_eq!(collections::paging(&q(&[("limit", "2001")])).err().unwrap().status, 400);
    assert_eq!(collections::paging(&q(&[("limit", "0")])).err().unwrap().status, 400);
    assert_eq!(collections::paging(&q(&[("cursor", "10000001")])).err().unwrap().status, 400);
    let p = collections::collections_page(0, 500, Ok((vec![], 0))).ok().unwrap();
    assert!(matches!(at(&p, &["collections"]), Json::Array(a) if a.is_empty()));
    let e = collections::repo_fail(StoreError::NotFound("marker".to_owned()));
    assert_eq!((e.status, e.code), (404, "not_found"));
    assert_eq!(collections::store(false).err().unwrap().status, 503);
}

#[test]
fn sizes_and_cursors_are_whole_numbers() {
    assert_eq!(read_size(None, 10, 20).ok(), Some(10));
    assert_eq!(read_size(Some("20"), 10, 20).ok(), Some(20));
    assert!(read_size(Some("21"), 10, 20).is_err());
    assert!(read_size(Some("x"), 10, 20).is_err());
    assert_eq!(read_start(None, 5).ok(), Some(0));
    assert_eq!(read_start(Some("5"), 5).ok(), Some(5));
    assert!(read_start(Some("6"), 5).is_err());
    assert_eq!(from_secs("t0", hz(1.5), 1_500_000_000).ok(), Some(1_500_000_000));
    assert!(from_secs("t0", hz(1e10), 0).is_err());
    for t in [Tier::LiveIq, Tier::SpectrumHistory, Tier::SurveyOverview] {
        assert_eq!(Tier::parse(t.as_str()), Some(t));
    }
    assert_eq!(Tier::parse("other"), None);
}

// ---------------------------------------------------------------------------------------------
// Sites and attention
// ---------------------------------------------------------------------------------------------

fn attention_route(method: &str, path: &str) -> Option<Result<Route, Option<&'static str>>> {
    attention::resolve(method, path, attention::path_id(path).and_then(id_of))
}

#[test]
fn attention_routes_resolve_with_methods() {
    assert_eq!(attention_route("GET", "/api/sites"), Some(Ok(Route::Sites)));
    assert_eq!(attention_route("POST", "/api/sites"), Some(Err(Some("GET"))));
    assert_eq!(attention_route("PUT", "/api/sites/current"), Some(Ok(Route::SelectSite)));
    let id = id_of(ID).unwrap();
    assert_eq!(
        attention_route("PUT", &format!("/api/sites/{ID}")),
        Some(Ok(Route::UpdateSite(id)))
    );
    assert_eq!(attention_route("PUT", "/api/sites/nope"), Some(Err(None)));
    assert_eq!(
        attention_route("DELETE", "/api/attention/weights"),
        Some(Err(Some("GET, PUT")))
    );
    assert_eq!(attention_route("POST", "/api/baselines/refreeze"), Some(Ok(Route::Refreeze)));
    assert_eq!(attention_route("GET", "/api/other"), None);
}

#[test]
fn attention_request_validation() {
    let read = |r: Route, v: &[(&str, &str)]| read_call(r, &q(v), None);
    assert!(read(Route::Slots, &[("f_lo", "1")]).is_err());
    assert!(read(Route::Slots, &[("f_lo", "2"), ("f_hi", "1")]).is_err());
    assert!(read(Route::Slots, &[("f_lo", "1"), ("f_hi", "2"), ("resolution", "weekly")]).is_err());
    match read(
        Route::Slots,
        &[("f_lo", "1"), ("f_hi", "2"), ("slot", "5"), ("resolution", "day-part")],
    ) {
        Ok(AttentionCall::Slots { site, f_lo, f_hi, slot, resolution }) => {
            assert_eq!(site, None);
            assert_eq!((f_lo, f_hi), (hz(1.0), hz(2.0)));
            assert_eq!(slot, Some(5));
            assert_eq!(resolution, Some(BaselineResolution::DayPart));
        }
        _ => panic!("a good query"),
    }
    assert!(read(Route::Candidates, &[("limit", "0")]).is_err());
    assert!(read(Route::Candidates, &[("x", "0")]).is_err());
    // What the weights' own check says: each is at most ten.
    let valid = |text: &str| {
        let over = body(text).iter().any(|(_, v)| matches!(v, Json::Number(_)) && number(v) > 10.0);
        if over {
            Err("out of range".to_owned())
        } else {
            Ok(())
        }
    };
    let weights = |text: &str| {
        write_call(Route::SetWeights, &body(text), "t".into(), None, valid(text))
    };
    let w = r#"{"snr": 1, "novelty": 2, "class_entropy": 1, "decoder": 0.5, "periodicity": 0.5,
        "boring": 1}"#;
    assert!(matches!(weights(w), Ok(AttentionCall::SetWeights { .. })));
    let bad = r#"{"snr": 11, "novelty": 2, "class_entropy": 1, "decoder": 0.5, "periodicity": 0.5,
        "boring": 1}"#;
    assert!(weights(bad).is_err());
    let missing = r#"{"snr": 1, "novelty": 2, "class_entropy": 1, "decoder": 0.5,
        "periodicity": 0.5}"#;
    assert!(weights(missing).is_err());
    let sel = |text: &str| write_call(Route::SelectSite, &body(text), "t".into(), None, Ok(()));
    assert!(sel("{}").is_err());
    assert!(sel(r#"{"name": "home", "release": true}"#).is_err());
    assert!(sel(r#"{"name": "home", "utc_offset_min": 30}"#).is_ok());
    assert!(sel(r#"{"name": "home", "utc_offset_min": 1.5}"#).is_err());
    assert!(sel(r#"{"name": "home", "utc_offset_min": -840}"#).is_ok());
    assert!(sel(r#"{"name": "home", "utc_offset_min": 841}"#).is_err());
    assert!(sel(r#"{"release": true}"#).is_ok());
    assert!(write_call(Route::Refreeze, &body(r#"{"f_lo": 1}"#), "t".into(), None, Ok(())).is_err());
}

#[test]
fn a_change_of_attention_names_its_author() {
    assert_eq!(attention::author(&Some("tok-1".to_owned())), "tok-1");
    assert_eq!(attention::author(&None), "local");
}

#[test]
fn an_attention_engine_that_is_not_there_says_so() {
    assert_eq!(attention::run(None).err().unwrap().status, 503);
    let f = AttentionFail { status: 409, code: "conflict", message: "m".to_owned() };
    let e = attention::run(Some(Err(f))).err().unwrap();
    assert_eq!((e.status, e.code, e.message.as_str()), (409, "conflict", "m"));
    let a = attention::run(Some(Ok(AttentionAnswer::read(Json::uint(3))))).ok().unwrap();
    assert_eq!(number(&a.body), 3.0);
}

// ---------------------------------------------------------------------------------------------
// Anomalies
// ---------------------------------------------------------------------------------------------

#[test]
fn anomalies_are_routed_listed_and_changed() {
    let list = anomalies::resolve("GET", "/api/anomalies", None);
    assert!(matches!(list, Some(Routed::To(anomalies::Action::List))));
    assert!(matches!(
        anomalies::resolve("POST", "/api/anomalies", None),
        Some(Routed::Takes("GET"))
    ));
    assert!(anomalies::resolve("GET", "/api/other", None).is_none());
    let to = |method: &str, path: &str| {
        anomalies::resolve(method, path, anomalies::path_id(path).and_then(id_of))
    };
    let id = id_of(ID).unwrap();
    let dismiss = format!("/api/anomalies/{ID}/dismiss");
    assert!(matches!(
        to("POST", &dismiss),
        Some(Routed::To(anomalies::Action::Dismiss(i))) if i == id
    ));
    assert!(matches!(to("GET", &dismiss), Some(Routed::Takes("POST"))));
    assert!(matches!(to("GET", "/api/anomalies/nope"), Some(Routed::BadId)));
    assert!(to("POST", &format!("/api/anomalies/{ID}/other")).is_none());
    assert_eq!(
        anomalies::kind_param(&q(&[("kind", "novelty")])).ok().unwrap(),
        Some(AnomalyKind::Novelty)
    );
    assert!(anomalies::kind_param(&q(&[("kind", "odd")])).is_err());
    assert_eq!(
        anomalies::status_param(&q(&[("status", "open")])).ok().unwrap(),
        Some(AnomalyStatus::Open)
    );
    assert!(anomalies::pair(&q(&[("f_lo", "1")]), "f_lo", "f_hi").is_err());
    assert_eq!(
        anomalies::pair(&q(&[("f_lo", "1"), ("f_hi", "2")]), "f_lo", "f_hi").ok().unwrap(),
        Some((hz(1.0), hz(2.0)))
    );
    assert_eq!(anomalies::fail(AnomalyFail::NotFound).status, 404);
    assert_eq!(anomalies::fail(AnomalyFail::Conflict("c".to_owned())).status, 409);
    assert_eq!(anomalies::fail(AnomalyFail::Failed("f".to_owned())).status, 500);
    assert_eq!(anomalies::control(false).err().unwrap().status, 503);
    let long = format!("{{ \"note\": \"{}\" }}", "x".repeat(501));
    assert!(anomalies::note(&body(&long)).is_err());
    assert_eq!(
        anomalies::note(&body(r#"{ "note": "seen" }"#)).ok().unwrap().as_deref(),
        Some("seen")
    );
}

#[test]
fn a_dismissed_anomaly_is_answered_with_what_it_was() {
    let view = |s: AnomalyStatus| AnomalyView { json: Json::uint(1), status: s, state: None };
    let a = anomalies::changed(&view(AnomalyStatus::Open), Ok(view(AnomalyStatus::Dismissed)))
        .ok()
        .unwrap();
    assert_eq!(a.status, 200);
    assert!(says(at(&a.old, &["status"]), "open"), "{:?}", a.old);
    assert!(says(at(&a.new, &["status"]), "dismissed"), "{:?}", a.new);
}
