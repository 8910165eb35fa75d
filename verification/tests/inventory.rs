//! What is known of emitters: classifications, clusters, decodes, events, datasets.

use hk_api::classification;
use hk_api::clusters::{
    self, normalise_id, visible_members, Action, Beside, CentroidField, ClusterEvent, FeatValue,
    Member, Row, Signature, SignatureCluster, SignatureRef,
};
use hk_api::command::RepoError;
use hk_api::control::Id;
use hk_api::datasets::{self, DatasetFailure, Split};
use hk_api::decode::{self, latest_per_frame, Decode, Identity};
use hk_api::double::Real;
use hk_api::events::{
    coverage_json, events_json, plan_events, Coverage, Emitter, Entry, EventsQuery, Gap, Interval,
    Observed, Page, Region,
};
use hk_api::frontend;
use hk_api::http::ApiError;
use hk_api::json::{parse, Json, Num};
use hk_api::routes::routes;

fn parsed(text: &str) -> Json {
    parse(text.as_bytes()).unwrap()
}

fn body(text: &str) -> Vec<(String, Json)> {
    match parsed(text) {
        Json::Object(m) => m,
        _ => panic!("{text} is no object"),
    }
}

fn number(v: &Json) -> f64 {
    match v {
        Json::Number(Num::U(n)) => *n as f64,
        Json::Number(Num::I(n)) => *n as f64,
        Json::Number(Num::R(r)) => f64::from_bits(r.bits),
        Json::Number(Num::Seconds(ns)) => *ns as f64 / 1e9,
        Json::Number(Num::SecondsByScale(ns)) => *ns as f64 * 1e-9,
        Json::Number(Num::Ratio(a, b)) => *a as f64 / *b as f64,
        _ => panic!("{v:?} is no number"),
    }
}

fn same(a: &Json, b: &Json) -> bool {
    match (a, b) {
        (Json::Number(_), Json::Number(_)) => number(a) == number(b),
        (Json::Array(x), Json::Array(y)) => {
            x.len() == y.len() && x.iter().zip(y).all(|(p, q)| same(p, q))
        }
        (Json::Object(x), Json::Object(y)) => {
            x.len() == y.len() && x.iter().all(|(k, v)| b.get(k).map_or(false, |w| same(v, w)))
        }
        _ => a == b,
    }
}

fn at<'a>(v: &'a Json, path: &[&str]) -> &'a Json {
    let mut v = v;
    for p in path {
        v = match v {
            Json::Array(a) => &a[p.parse::<usize>().unwrap()],
            _ => v.get(p).unwrap_or(&Json::Null),
        };
    }
    v
}

fn says(v: &Json, text: &str) -> bool {
    v.string() == Some(text)
}

fn hz(x: f64) -> Real {
    Real { bits: x.to_bits() }
}

fn q(v: &[(&str, &str)]) -> Vec<(String, String)> {
    v.iter().map(|(a, b)| ((*a).to_owned(), (*b).to_owned())).collect()
}

const S: i64 = 1_000_000_000;
const ID: &str = "0199d3a0-0000-7000-8000-00000000000c";

fn id_of(text: &str) -> Option<Id> {
    if text.len() != 36 {
        return None;
    }
    let digits: String = text.chars().filter(|c| *c != '-').collect();
    u128::from_str_radix(&digits, 16).ok().map(|value| Id { value })
}

fn declared(method: &str, path: &str) -> bool {
    routes().iter().any(|(m, p)| *m == method && *p == path)
}

// ---------------------------------------------------------------------------------------------
// Classifications
// ---------------------------------------------------------------------------------------------

fn classification_route(method: &str, path: &str) -> Option<Result<Id, Option<&'static str>>> {
    classification::resolve(method, path, classification::path_id(path).and_then(id_of))
}

#[test]
fn classification_routes_resolve_with_methods() {
    let id = id_of(ID).unwrap();
    assert_eq!(
        classification_route("GET", &format!("/api/inventory/{ID}/classification")),
        Some(Ok(id))
    );
    assert_eq!(
        classification_route("POST", &format!("/api/inventory/{ID}/classification")),
        Some(Err(Some("GET")))
    );
    // An unparsable id is this route's to refuse (404), not the inventory's.
    assert_eq!(
        classification_route("GET", "/api/inventory/not-an-id/classification"),
        Some(Err(None))
    );
    // Not this route.
    assert_eq!(classification_route("GET", &format!("/api/inventory/{ID}")), None);
    assert_eq!(classification_route("GET", &format!("/api/inventory/{ID}/decode")), None);
}

#[test]
fn an_emitter_with_nothing_to_show_is_indistinguishable_from_a_withheld_one() {
    let v = classification::empty(ID);
    assert_eq!(at(&v, &["classification"]), &Json::Null);
    assert_eq!(at(&v, &["latest"]), &Json::Null);
    // No flag, no count, no marker that an identity is held.
    match &v {
        Json::Object(m) => assert_eq!(m.len(), 3, "{v:?}"),
        _ => panic!("an object"),
    }
    for forbidden in ["withheld", "identity", "known_status"] {
        assert!(v.get(forbidden).is_none(), "{forbidden} leaked: {v:?}");
    }
    let reads = |withheld: bool, detail: Option<Json>| classification::Reads {
        live: Ok(ID.to_owned()),
        withheld: Ok(withheld),
        current: Ok(Some(classification::Recorded { detail })),
        latest: Ok(None),
        differ: false,
    };
    let held = classification::read(true, reads(true, Some(Json::uint(1)))).ok().unwrap();
    assert_eq!(held, v);
    let shown = classification::read(true, reads(false, Some(Json::uint(1)))).ok().unwrap();
    assert_eq!(number(at(&shown, &["classification"])), 1.0);
    assert_eq!(classification::read(false, reads(true, None)).err().unwrap().status, 503);
}

#[test]
fn the_latest_classification_is_shown_only_where_it_is_another() {
    let reads = |differ: bool| classification::Reads {
        live: Ok(ID.to_owned()),
        withheld: Ok(false),
        current: Ok(Some(classification::Recorded { detail: None })),
        latest: Ok(Some(classification::Recorded { detail: Some(Json::uint(2)) })),
        differ,
    };
    let v = classification::read(true, reads(true)).ok().unwrap();
    assert_eq!(at(&v, &["classification"]), &Json::Null);
    assert_eq!(number(at(&v, &["latest"])), 2.0);
    let v = classification::read(true, reads(false)).ok().unwrap();
    assert_eq!(at(&v, &["latest"]), &Json::Null);
    let missing = classification::Reads { live: Err(RepoError::NotFound), ..reads(true) };
    assert_eq!(classification::read(true, missing).err().unwrap().status, 404);
}

// ---------------------------------------------------------------------------------------------
// Clusters
// ---------------------------------------------------------------------------------------------

/// The identity of a cluster, as the server tells one.
fn is_cluster_id(id: &str) -> bool {
    id.strip_prefix("cluster:").is_some_and(|t| id_of(t).is_some())
}

fn cluster_route(method: &str, path: &str) -> Option<Result<Action, Option<&'static str>>> {
    let is_id = match clusters::parse_path(path) {
        Some(Some((id, _))) => is_cluster_id(&id),
        _ => false,
    };
    clusters::resolve(method, path, is_id)
}

#[test]
fn the_routes_resolve_with_their_methods_and_are_in_the_route_table() {
    let id = format!("cluster:{ID}");
    let tail = ID;
    assert_eq!(cluster_route("GET", "/api/clusters"), Some(Ok(Action::List)));
    assert_eq!(cluster_route("POST", "/api/clusters"), Some(Err(Some("GET"))));
    assert_eq!(
        cluster_route("GET", &format!("/api/clusters/{id}")),
        Some(Ok(Action::Get(id.clone())))
    );
    // The prefix is optional, and an encoded colon is accepted.
    assert_eq!(
        cluster_route("GET", &format!("/api/clusters/{tail}")),
        Some(Ok(Action::Get(id.clone())))
    );
    assert_eq!(
        cluster_route("GET", &format!("/api/clusters/cluster%3A{tail}")),
        Some(Ok(Action::Get(id.clone())))
    );
    assert_eq!(
        cluster_route("POST", &format!("/api/clusters/{id}/promote")),
        Some(Ok(Action::Promote(id.clone())))
    );
    assert_eq!(
        cluster_route("GET", &format!("/api/clusters/{id}/promote")),
        Some(Err(Some("POST")))
    );
    assert_eq!(cluster_route("GET", "/api/clusters/not a cluster"), Some(Err(None)));
    assert_eq!(cluster_route("GET", "/api/clustersx"), None);
    assert_eq!(cluster_route("GET", "/api/inventory"), None);
    for (method, path) in [
        ("GET", "/api/clusters"),
        ("GET", "/api/clusters/{id}"),
        ("POST", "/api/clusters/{id}/promote"),
    ] {
        assert!(declared(method, path), "{method} {path} is not in the route table");
    }
}

#[test]
fn only_promote_mutates() {
    assert!(!Action::List.mutating());
    assert!(!Action::Get(format!("cluster:{ID}")).mutating());
    assert!(Action::Promote(format!("cluster:{ID}")).mutating());
}

fn cluster(visible: bool) -> SignatureCluster {
    SignatureCluster {
        id: format!("cluster:{ID}"),
        state: "visible".to_owned(),
        visible,
        created_at: S,
        updated_at: 2 * S,
        folds: 4,
        suspect_fraction: hz(0.25),
        feature_set_version: Json::uint(3),
        merged_into: None,
        signature: Some(SignatureRef { id: "sig".to_owned(), version: 2 }),
        centroid: vec![CentroidField {
            name: "bw".to_owned(),
            value: FeatValue::Num(hz(12.5)),
            sigma: Some(hz(1.0)),
            spread: None,
            agreement: None,
            n: 4,
            method: Json::Null,
        }],
    }
}

fn beside() -> Beside {
    let member = |id: &str, withheld: bool| Member { id: id.to_owned(), withheld };
    Beside {
        members: Ok(vec![member("e1", false), member("e2", true), member("e3", false)]),
        events: Some(Ok(vec![ClusterEvent {
            kind: "formed".to_owned(),
            other_cluster_id: None,
            t: S,
            detail: Json::Null,
        }])),
    }
}

#[test]
fn withheld_members_are_absent_from_a_cluster() {
    let m = beside().members.ok().unwrap();
    assert_eq!(visible_members(&m), vec!["e1".to_owned(), "e3".to_owned()]);
    let v = clusters::cluster_json(&cluster(true), beside()).ok().unwrap();
    assert_eq!(number(at(&v, &["members"])), 2.0);
    assert!(says(at(&v, &["member_ids", "1"]), "e3"));
    assert_eq!(number(at(&v, &["created_at_s"])), 1.0);
    assert!(says(at(&v, &["centroid", "0", "kind"]), "num"));
    assert_eq!(number(at(&v, &["centroid", "0", "value"])), 12.5);
    assert_eq!(number(at(&v, &["signature", "version"])), 2.0);
    assert!(says(at(&v, &["events", "0", "kind"]), "formed"));
}

#[test]
fn pending_clusters_are_not_found() {
    let live = || Ok(format!("cluster:{ID}"));
    let e = clusters::one(true, live(), Ok(Some(cluster(false))), beside()).err().unwrap();
    assert_eq!((e.status, e.message.as_str()), (404, "no such cluster"));
    assert!(clusters::one(true, live(), Ok(Some(cluster(true))), beside()).is_ok());
    assert_eq!(clusters::one(true, live(), Ok(None), beside()).err().unwrap().status, 404);
    let rows = vec![Row { cluster: cluster(true), beside: beside() }];
    let v = clusters::listed(true, Ok(rows)).ok().unwrap();
    assert!(matches!(at(&v, &["clusters"]), Json::Array(a) if a.len() == 1));
    let broken = Beside { members: Err(RepoError::Other("disk".to_owned())), events: None };
    let rows = vec![Row { cluster: cluster(true), beside: broken }];
    assert_eq!(clusters::listed(true, Ok(rows)).err().unwrap().message, "inventory store: disk");
}

#[test]
fn a_promotion_names_its_signature() {
    let live = || Ok(format!("cluster:{ID}"));
    let full = body(r#"{ "x": 1 }"#);
    let e = clusters::plan_promote(&full, true, live(), Ok(Some(cluster(true)))).err().unwrap();
    assert_eq!(e.message, "this action takes no body fields");
    let before = clusters::plan_promote(&Vec::new(), true, live(), Ok(Some(cluster(true))))
        .ok()
        .unwrap();
    let signature = Signature { id: "sig".to_owned(), version: 1, name: "n".to_owned() };
    let a = clusters::promoted(&before, Ok(signature), Ok(cluster(true)), beside()).ok().unwrap();
    assert!(says(at(&a.body, &["signature", "id"]), "sig"));
    assert!(says(at(&a.new, &["signature"]), "sig"));
    assert_eq!(clusters::actor(&None), "user");
    assert_eq!(normalise_id("a%3ab"), "cluster:a:b");
}

// ---------------------------------------------------------------------------------------------
// Datasets
// ---------------------------------------------------------------------------------------------

#[test]
fn datasets_routes_resolve_with_methods() {
    let r = datasets::resolve;
    assert_eq!(r("GET", "/api/datasets"), Some(Ok(datasets::Action::List)));
    assert_eq!(r("POST", "/api/datasets"), Some(Ok(datasets::Action::Export)));
    assert_eq!(r("DELETE", "/api/datasets"), Some(Err(Some("GET, POST"))));
    assert_eq!(r("GET", "/api/datasets/abc"), Some(Ok(datasets::Action::Get("abc"))));
    assert_eq!(r("POST", "/api/datasets/abc"), Some(Err(Some("GET"))));
    assert_eq!(r("GET", "/api/datasets/"), Some(Err(None)));
    assert_eq!(r("GET", "/api/other"), None);
}

#[test]
fn exports_say_what_they_want_and_for_what() {
    let plan = |text: &str| {
        let b = body(text);
        let id = b
            .iter()
            .find(|(k, _)| k == "filter")
            .and_then(|(_, f)| f.get("emitter"))
            .and_then(|e| e.string())
            .and_then(id_of);
        datasets::plan_export(&b, id, true)
    };
    let full = format!(
        r#"{{ "filter": {{ "emitter": "{ID}", "time": {{ "t0": 1, "t1": 2 }}, "family": "fsk" }},
             "split": "dev", "pad_pre_s": 0, "max_samples": 5 }}"#
    );
    let r = plan(&full).ok().unwrap();
    assert_eq!(r.filter.emitter, id_of(ID));
    assert_eq!(r.filter.time, Some((hz(1.0), hz(2.0))));
    assert_eq!(r.filter.family.as_deref(), Some("fsk"));
    assert_eq!((r.split, r.pad_pre_s, r.pad_post_s, r.max_samples), (Split::Dev, Some(hz(0.0)), None, Some(5)));
    for (bad, why) in [
        (r#"{}"#, "split (\"dev\" or \"acceptance\") is required"),
        (r#"{ "split": "test" }"#, "split must be \"dev\" or \"acceptance\""),
        (r#"{ "split": "dev", "filter": 3 }"#, "filter is an object"),
        (r#"{ "split": "dev", "filter": { "emitter": "x" } }"#, "filter.emitter is not an id"),
        (r#"{ "split": "dev", "filter": { "emitter": 1 } }"#, "filter.emitter is a string id"),
        (r#"{ "split": "dev", "filter": { "family": " " } }"#, "filter.family is not empty"),
        (r#"{ "split": "dev", "filter": { "family": 1 } }"#, "filter.family is a string"),
        (r#"{ "split": "dev", "filter": { "time": [] } }"#, "time is an object {t0, t1}"),
        (
            r#"{ "split": "dev", "filter": { "time": { "t0": 1 } } }"#,
            "time.t1 (Unix s) is required",
        ),
        (
            r#"{ "split": "dev", "filter": { "time": { "t0": 2, "t1": 1 } } }"#,
            "time.t0 and time.t1 are Unix seconds with 0 ≤ t0 < t1",
        ),
        (r#"{ "split": "dev", "pad_post_s": -1 }"#, "pad_post_s must be non-negative"),
        (
            r#"{ "split": "dev", "max_samples": 0 }"#,
            "max_samples must be an integer of at least 1",
        ),
    ] {
        let e = plan(bad).err().unwrap();
        assert_eq!((e.status, e.message.as_str()), (400, why), "{bad}");
    }
    let e = datasets::plan_export(&body(r#"{ "split": "acceptance" }"#), None, false);
    assert_eq!(e.err().unwrap().status, 503);
}

#[test]
fn an_export_is_answered_with_its_manifest() {
    let m = parsed(r#"{ "id": "d1", "samples": [1], "skipped": 0 }"#);
    let a = datasets::exported(Ok(m)).ok().unwrap();
    assert_eq!(a.status, 201);
    assert!(says(at(&a.body, &["dataset", "id"]), "d1"));
    assert!(same(&a.new, &parsed(r#"{ "id": "d1", "samples": [1] }"#)));
    let f = |code: &str| DatasetFailure { status: 404, code: code.to_owned(), message: "m".to_owned() };
    assert_eq!(datasets::exported(Err(f("not_found"))).err().unwrap().code, "not_found");
    assert_eq!(datasets::from_failure(f("odd")).code, "failed");
    assert_eq!(datasets::from_failure(f("invalid")).code, "invalid");
    assert_eq!(datasets::from_failure(f("unavailable")).code, "unavailable");
}

/// An export that remembers what it was handed.
struct Exports {
    asked: std::sync::Mutex<Vec<String>>,
}

impl datasets::DatasetControl for Exports {
    fn export(&mut self, request: &datasets::DatasetRequest) -> Result<Json, DatasetFailure> {
        self.asked.lock().unwrap().push(format!("{:?}", request.split));
        Ok(parsed(r#"{ "id": "d1", "samples": 3, "more": 1 }"#))
    }
    fn list(&self) -> Result<Json, DatasetFailure> {
        Ok(parsed(r#"{ "datasets": [] }"#))
    }
    fn get(&self, id: &str) -> Result<Json, DatasetFailure> {
        self.asked.lock().unwrap().push(id.to_owned());
        Err(DatasetFailure { status: 404, code: "not_found".into(), message: "gone".into() })
    }
}

#[test]
fn the_export_is_handed_what_was_asked_for() {
    let mut c = Exports { asked: Default::default() };
    assert!(same(&datasets::read_list(Some(&c)).ok().unwrap(), &parsed(r#"{ "datasets": [] }"#)));
    let e = datasets::read_one(Some(&c), "d9").err().unwrap();
    assert_eq!((e.status, e.code, e.message.as_str()), (404, "not_found", "gone"));
    assert!(datasets::export(Some(&mut c), &body("{}"), None).is_err());
    let a = datasets::export(Some(&mut c), &body(r#"{ "split": "acceptance" }"#), None).ok().unwrap();
    assert_eq!(a.status, 201);
    assert!(same(&a.new, &parsed(r#"{ "id": "d1", "samples": 3 }"#)));
    assert_eq!(*c.asked.lock().unwrap(), vec!["d9".to_owned(), "Acceptance".to_owned()]);
    let off: Option<&dyn datasets::DatasetControl> = None;
    assert_eq!(datasets::read_list(off).err().unwrap().status, 503);
    assert_eq!(datasets::read_one(off, "d9").err().unwrap().message, "no dataset export on this server");
    let off: Option<&mut dyn datasets::DatasetControl> = None;
    let e = datasets::export(off, &body(r#"{ "split": "dev" }"#), None).err().unwrap();
    assert_eq!(e.status, 503);
}

// ---------------------------------------------------------------------------------------------
// Decodes
// ---------------------------------------------------------------------------------------------

fn decode_route(method: &str, path: &str) -> Option<Result<Id, Option<&'static str>>> {
    decode::resolve(method, path, decode::path_id(path).and_then(id_of))
}

#[test]
fn decode_routes_resolve_with_methods() {
    let id = id_of(ID).unwrap();
    assert_eq!(decode_route("GET", &format!("/api/inventory/{ID}/decode")), Some(Ok(id)));
    assert_eq!(
        decode_route("POST", &format!("/api/inventory/{ID}/decode")),
        Some(Err(Some("GET")))
    );
    assert_eq!(decode_route("GET", "/api/inventory/not-an-id/decode"), Some(Err(None)));
    assert_eq!(decode_route("GET", &format!("/api/inventory/{ID}")), None);
    assert_eq!(decode_route("GET", &format!("/api/inventory/{ID}/band")), None);
    assert!(declared("GET", "/api/inventory/{id}/decode"));
}

fn mk(frame_model: &str, t_s: i64) -> Decode {
    Decode {
        decoder_id: "recipe:rds".to_owned(),
        frame_model: frame_model.to_owned(),
        t: t_s * S,
        metadata: Json::Object(vec![]),
        content: None,
        crc_valid: true,
        demodulation_ref: None,
        recording_ref: None,
    }
}

fn rows(v: Json) -> Vec<Json> {
    match v {
        Json::Array(a) => a,
        other => panic!("{other:?}"),
    }
}

#[test]
fn latest_per_frame_keeps_one_row_per_decoder_and_frame_model_newest_first() {
    let decodes = vec![mk("rds-group", 1), mk("rds-ps", 2), mk("rds-group", 5), mk("rds-ps", 3)];
    let rows = rows(latest_per_frame(&decodes, None));
    assert_eq!(rows.len(), 2, "{rows:?}");
    assert!(says(at(&rows[0], &["frame_model"]), "rds-group"));
    assert_eq!(number(at(&rows[0], &["at"])), 5.0);
    assert!(says(at(&rows[1], &["frame_model"]), "rds-ps"));
    assert_eq!(number(at(&rows[1], &["at"])), 3.0);
}

#[test]
fn a_window_filters_before_the_latest_per_frame_collapse() {
    let decodes = vec![mk("rds-group", 1), mk("rds-ps", 2), mk("rds-group", 5)];
    let early = rows(latest_per_frame(&decodes, Some((0, 3 * S))));
    assert_eq!(early.len(), 2, "{early:?}");
    assert_eq!(number(at(&early[0], &["at"])), 2.0, "rds-ps, newest in the window");
    assert_eq!(
        number(at(&early[1], &["at"])),
        1.0,
        "the OLDER rds-group is this window's latest: {early:?}"
    );
    let quiet = rows(latest_per_frame(&decodes, Some((6 * S, 9 * S))));
    assert!(quiet.is_empty(), "nothing was decoded then: {quiet:?}");
    // Closed on both ends.
    let point = rows(latest_per_frame(&decodes, Some((5 * S, 5 * S))));
    assert_eq!(point.len(), 1, "{point:?}");
    assert_eq!(number(at(&point[0], &["at"])), 5.0);
}

#[test]
fn rows_of_one_time_are_ordered_by_frame_and_decoder() {
    let other = Decode { decoder_id: "readsb".to_owned(), ..mk("a", 1) };
    let decodes = vec![mk("b", 1), mk("a", 1), other];
    let rows = rows(latest_per_frame(&decodes, None));
    let names: Vec<_> = rows
        .iter()
        .map(|r| {
            (at(r, &["frame_model"]).string().unwrap(), at(r, &["decoder"]).string().unwrap())
        })
        .collect();
    assert_eq!(names, vec![("a", "readsb"), ("a", "recipe:rds"), ("b", "recipe:rds")]);
    assert!(says(at(&rows[1], &["recipe_id"]), "rds"));
    assert_eq!(at(&rows[0], &["recipe_id"]), &Json::Null);
}

#[test]
fn content_lies_over_what_is_known_of_a_row() {
    let d = Decode {
        metadata: parsed(r#"{ "a": 1, "b": 2 }"#),
        content: Some(parsed(r#"{ "b": 3, "c": 4 }"#)),
        recording_ref: Some("rec".to_owned()),
        ..mk("x", 1)
    };
    assert!(same(&decode::fields_of(&d), &parsed(r#"{ "a": 1, "b": 3, "c": 4 }"#)));
    let v = decode::decode_json(&d);
    assert!(says(at(&v, &["source_session"]), "rec"));
    assert_eq!(at(&v, &["crc", "valid"]), &Json::Bool(true));
    let e = Decode { demodulation_ref: Some("dem".to_owned()), ..d };
    assert!(says(at(&decode::decode_json(&e), &["source_session"]), "dem"));
}

#[test]
fn a_withheld_identity_has_no_decodes() {
    let reads = |identity: Identity| decode::Reads {
        live: Ok(()),
        identity: Ok(identity),
        decodes: Ok(vec![mk("a", 1)]),
    };
    let held = decode::read(Ok(None), true, reads(Identity::Withheld)).ok().unwrap();
    assert!(same(&held, &parsed(r#"{ "decodes": [] }"#)));
    for shown in [Identity::Clear, Identity::Absent] {
        let v = decode::read(Ok(None), true, reads(shown)).ok().unwrap();
        assert!(matches!(at(&v, &["decodes"]), Json::Array(a) if a.len() == 1));
    }
    let e = decode::read(Err("t0 and t1".to_owned()), true, reads(Identity::Clear));
    assert_eq!(e.err().unwrap().message, "t0 and t1");
}

// ---------------------------------------------------------------------------------------------
// Events
// ---------------------------------------------------------------------------------------------

#[test]
fn the_route_is_declared() {
    assert!(routes().iter().any(|(m, p)| *m == "GET" && *p == "/api/events"));
}

#[test]
fn coverage_keeps_unknown_no_data_and_quiet_apart() {
    let v = coverage_json(&Coverage::NoHistory);
    assert_eq!(v.get("observed_fraction"), Some(&Json::Null), "{v:?}");
    let s = at(&v, &["statement"]).string().unwrap();
    assert!(s.contains("unknown"), "{s}");
    assert!(
        !s.contains("nothing was on the air"),
        "an unknown coverage must never read as a quiet band: {s}"
    );
}

fn observed(cells: u64, gaps: usize) -> Coverage {
    Coverage::Read(Observed {
        observed_fraction: hz(0.5),
        percent: 50,
        cells: 10,
        observed_cells: cells,
        gaps: (0..gaps as i64).map(|i| Gap { start: i * S, end: (i + 1) * S }).collect(),
        gaps_truncated: false,
    })
}

#[test]
fn each_coverage_has_its_own_sentence() {
    let statement = |c: &Coverage| {
        let v = coverage_json(c);
        at(&v, &["statement"]).string().unwrap().to_owned()
    };
    assert_eq!(
        statement(&observed(0, 1)),
        "Nothing here was observed in this period: no data for this period, not a quiet band."
    );
    assert_eq!(
        statement(&observed(10, 0)),
        "This region was observed throughout this period (50 % cell coverage), so an empty catalogue means nothing was on the air here."
    );
    assert_eq!(
        statement(&observed(5, 1)),
        "50 % of this region was observed; 1 unobserved stretch in this period are no data, never a quiet band."
    );
    assert_eq!(
        statement(&observed(5, 2)),
        "50 % of this region was observed; 2 unobserved stretches in this period are no data, never a quiet band."
    );
    assert!(statement(&Coverage::Unreadable).starts_with("Coverage could not be read"));
    let v = coverage_json(&observed(5, 1));
    assert_eq!(number(at(&v, &["gaps", "0", "t1_s"])), 1.0);
}

const REGION: Region = Region {
    f_lo: Real { bits: 0 },
    f_hi: Real { bits: 0 },
    t0_ns: 100 * S,
    t1_ns: 200 * S,
};

fn interval(start: i64, end: i64) -> Interval {
    Interval {
        start: start * S,
        end: end * S,
        revoked: vec![],
        duration_s: hz((end - start) as f64),
        revoked_s: hz(0.0),
        open: false,
        count: 1,
        sources: Json::Array(vec![]),
        f_center_hz: Some(hz(100e6)),
    }
}

fn emitter(id: &str) -> Emitter {
    Emitter {
        id: id.to_owned(),
        state: Json::text("active"),
        f_center_hz: hz(100e6),
        bandwidth_hz: None,
        f_lo_hz: hz(99e6),
        f_hi_hz: hz(101e6),
        known_status: Json::text("unknown"),
        family: Json::Null,
        identity: hk_api::events::Identity::Withheld {
            scheme: "rds-pi".to_owned(),
            class: Json::Null,
        },
        count: 9,
    }
}

fn entry(id: &str, intervals: Vec<Interval>) -> Entry {
    Entry {
        emitter: emitter(id),
        intervals: Some(intervals),
        explanations: Some(Json::Array(vec![])),
    }
}

#[test]
fn events_are_listed_newest_first_and_paged() {
    let entries = || {
        vec![
            entry("e1", vec![interval(90, 110), interval(150, 160), interval(300, 310)]),
            entry("e2", vec![interval(140, 160)]),
            entry("e3", vec![]),
            entry("e4", vec![interval(1, 2)]),
        ]
    };
    let ask = |limit: usize, offset: usize| {
        let q = EventsQuery { region: REGION, limit, offset };
        let page = Page { entries: entries(), truncated: false };
        events_json(&q, Some(page), &Coverage::NoHistory).ok().unwrap()
    };
    let v = ask(10, 0);
    assert_eq!(number(at(&v, &["total"])), 3.0);
    let times: Vec<(f64, f64)> = match at(&v, &["events"]) {
        Json::Array(a) => a
            .iter()
            .map(|e| (number(at(e, &["t_end_s"])), number(at(e, &["t_start_s"]))))
            .collect(),
        other => panic!("{other:?}"),
    };
    assert_eq!(times, vec![(160.0, 150.0), (160.0, 140.0), (110.0, 90.0)]);
    assert_eq!(number(at(&v, &["events", "2", "in_window_s"])), 10.0, "cut at the window");
    match at(&v, &["emitters"]) {
        Json::Array(a) => {
            assert_eq!(a.len(), 2, "only those that have an event");
            assert_eq!(number(at(&a[0], &["events"])), 2.0);
            assert_eq!(number(at(&a[0], &["on_air_s"])), 20.0);
            assert_eq!(at(&a[0], &["withheld"]), &Json::Bool(true));
            assert!(a[0].get("identity_value").is_none());
        }
        other => panic!("{other:?}"),
    }
    assert_eq!(number(at(&v, &["emitters_no_interval"])), 1.0);
    assert_eq!(at(&v, &["next_cursor"]), &Json::Null);
    let first = ask(2, 0);
    assert!(says(at(&first, &["next_cursor"]), "2"));
    let second = ask(2, 2);
    assert_eq!(number(at(&second, &["events", "0", "t_end_s"])), 110.0);
    assert_eq!(at(&second, &["next_cursor"]), &Json::Null);
    assert!(matches!(at(&ask(2, 7), &["events"]), Json::Array(a) if a.is_empty()));
}

#[test]
fn silence_inside_an_event_is_not_air() {
    let mut i = interval(120, 140);
    i.revoked = vec![Gap { start: 125 * S, end: 130 * S }];
    let q = EventsQuery { region: REGION, limit: 10, offset: 0 };
    let page = Page { entries: vec![entry("e1", vec![i])], truncated: true };
    let v = events_json(&q, Some(page), &Coverage::NoHistory).ok().unwrap();
    assert_eq!(number(at(&v, &["events", "0", "in_window_s"])), 15.0);
    assert_eq!(at(&v, &["emitters_truncated"]), &Json::Bool(true));
}

#[test]
fn a_failing_store_fails_the_catalogue() {
    let q = EventsQuery { region: REGION, limit: 10, offset: 0 };
    let e = events_json(&q, None, &Coverage::NoHistory).err().unwrap();
    assert_eq!((e.status, e.message.as_str()), (500, "event query failed"));
    let broken = Entry { intervals: None, ..entry("e1", vec![]) };
    let page = Page { entries: vec![broken], truncated: false };
    assert_eq!(events_json(&q, Some(page), &Coverage::NoHistory).err().unwrap().status, 500);
}

#[test]
fn cursors_of_events_are_offsets() {
    let ask = |v: &[(&str, &str)]| plan_events(Ok(REGION), Ok(5), &q(v), Ok(()));
    assert_eq!(ask(&[]).ok().unwrap().offset, 0);
    assert_eq!(ask(&[("cursor", "")]).ok().unwrap().offset, 0);
    assert_eq!(ask(&[("cursor", "1000000")]).ok().unwrap().offset, 1_000_000);
    let e = ask(&[("cursor", "1000001")]).err().unwrap();
    assert_eq!((e.status, e.message.as_str()), (400, "invalid cursor"));
    assert!(ask(&[("cursor", "x")]).is_err());
    let bad = plan_events(Err(ApiError::new(400, "t0")), Ok(5), &q(&[]), Ok(()));
    assert_eq!(bad.err().unwrap().message, "t0");
}

// ---------------------------------------------------------------------------------------------
// Front-end events
// ---------------------------------------------------------------------------------------------

fn clip(t0: f64, device: &str) -> Json {
    parsed(&format!(
        r#"{{ "kind": "clip", "t0": {t0:.1}, "t1": {:.2}, "device_id": "{device}",
              "f_lo_hz": 914e6, "f_hi_hz": 916e6 }}"#,
        t0 + 0.04
    ))
}

/// A log of fixed events.
struct Fixed(Vec<Json>);

impl frontend::FrontEndControl for Fixed {
    fn events(&self, t0_s: Real, t1_s: Real) -> Vec<Json> {
        let (t0, t1) = (f64::from_bits(t0_s.bits), f64::from_bits(t1_s.bits));
        self.0
            .iter()
            .filter(|e| number(at(e, &["t0"])) < t1 && number(at(e, &["t1"])) > t0)
            .map(Json::copy)
            .collect()
    }
    fn log(&self) -> Json {
        parsed(&format!(
            r#"{{ "capacity": 1024, "retained": {}, "oldest_s": 100.0, "evicted": 0 }}"#,
            self.0.len()
        ))
    }
}

/// The log of a server, and its answer to a request.
fn front_end(present: bool, method: &str, query: &[(&str, &str)]) -> (u16, Json) {
    let log = vec![clip(100.0, "hackrf:a"), clip(105.0, "hackrf:b"), clip(110.0, "hackrf:a")];
    match frontend::resolve(method, "/api/frontend/events") {
        Some(Ok(())) => {}
        Some(Err(_)) => return (405, Json::Null),
        None => panic!("its own path"),
    }
    let log = Fixed(log);
    match frontend::read(if present { Some(&log) } else { None }, &q(query)) {
        Ok(v) => (200, v),
        Err(f) => (f.status, f.response().body),
    }
}

#[test]
fn events_are_answered_by_window_device_and_limit_and_bad_input_is_refused() {
    assert!(declared("GET", "/api/frontend/events"));
    let (status, v) = front_end(true, "GET", &[("t0", "99"), ("t1", "106")]);
    assert_eq!(status, 200, "{v:?}");
    assert_eq!(number(at(&v, &["total"])), 2.0);
    assert_eq!(at(&v, &["truncated"]), &Json::Bool(false));
    assert_eq!(number(at(&v, &["window", "t0"])), 99.0);
    assert_eq!(number(at(&v, &["log", "capacity"])), 1024.0);
    let (_, v) = front_end(
        true,
        "GET",
        &[("t0", "0"), ("t1", "200"), ("device", "hackrf:a"), ("limit", "1")],
    );
    assert_eq!(number(at(&v, &["total"])), 2.0);
    assert_eq!(at(&v, &["truncated"]), &Json::Bool(true));
    assert_eq!(number(at(&v, &["events", "0", "t0"])), 110.0, "the newest is kept");
    for bad in [
        vec![("t0", "1")],
        vec![("t0", "5"), ("t1", "5")],
        vec![("t0", "-1"), ("t1", "5")],
        vec![("t0", "1"), ("t1", "5"), ("limit", "0")],
        vec![("t0", "1"), ("t1", "5"), ("f_lo", "1")],
    ] {
        assert_eq!(front_end(true, "GET", &bad).0, 400, "{bad:?}");
    }
    assert_eq!(front_end(true, "POST", &[]).0, 405);
    assert_eq!(front_end(false, "GET", &[("t0", "1"), ("t1", "2")]).0, 503);
}
