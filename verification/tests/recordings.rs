//! Recordings of inspector streams, and frames parsed again.

use hk_api::captures::{
    self, CaptureDelete, CaptureInfo, Paged, Pager, DEFAULT_FRAMES_LIMIT,
};
use hk_api::inspector::{
    self, extend_page, field_map, fit_json, frames_answer, from_hex, is_capture_id, opened,
    parse_body, plan_capture, plan_frames, schema_message, serve_record, servable,
    served_record, stream_json, unreadable, CapturePlan, FieldMapRead, FrameScan, MapError, Opened, Serve,
    MAX_FIT_FRAMES,
};
use hk_api::json::{parse, Fields, Json, Num};

fn parsed(text: &str) -> Json {
    parse(text.as_bytes()).unwrap()
}

fn body(text: &str) -> Vec<(String, Json)> {
    match parsed(text) {
        Json::Object(m) => m,
        _ => panic!("{text} is no object"),
    }
}

fn number(v: &Json) -> f64 {
    match v {
        Json::Number(Num::U(n)) => *n as f64,
        Json::Number(Num::I(n)) => *n as f64,
        Json::Number(Num::R(r)) => f64::from_bits(r.bits),
        Json::Number(Num::Seconds(ns)) => *ns as f64 / 1e9,
        Json::Number(Num::SecondsByScale(ns)) => *ns as f64 * 1e-9,
        Json::Number(Num::Ratio(a, b)) => *a as f64 / *b as f64,
        _ => panic!("{v:?} is no number"),
    }
}

fn same(a: &Json, b: &Json) -> bool {
    match (a, b) {
        (Json::Number(_), Json::Number(_)) => number(a) == number(b),
        (Json::Array(x), Json::Array(y)) => {
            x.len() == y.len() && x.iter().zip(y).all(|(p, q)| same(p, q))
        }
        (Json::Object(x), Json::Object(y)) => {
            x.len() == y.len() && x.iter().all(|(k, v)| b.get(k).map_or(false, |w| same(v, w)))
        }
        _ => a == b,
    }
}

fn at<'a>(v: &'a Json, path: &[&str]) -> &'a Json {
    let mut v = v;
    for p in path {
        v = match v {
            Json::Array(a) => &a[p.parse::<usize>().unwrap()],
            _ => v.get(p).unwrap_or(&Json::Null),
        };
    }
    v
}

fn says(v: &Json, text: &str) -> bool {
    v.string() == Some(text)
}

fn q(v: &[(&str, &str)]) -> Vec<(String, String)> {
    v.iter().map(|(a, b)| ((*a).to_owned(), (*b).to_owned())).collect()
}

#[test]
fn captures_resolves_only_its_paths() {
    let r = captures::resolve;
    assert!(matches!(r("GET", "/api/captures"), Some(Ok(captures::Action::List))));
    assert!(matches!(r("POST", "/api/captures"), Some(Err(Some("GET")))));
    assert!(matches!(r("GET", "/api/captures/c1"), Some(Ok(captures::Action::Get("c1")))));
    assert!(matches!(r("DELETE", "/api/captures/c1"), Some(Ok(captures::Action::Delete("c1")))));
    assert!(matches!(r("PUT", "/api/captures/c1"), Some(Err(Some("GET, DELETE")))));
    assert!(matches!(
        r("GET", "/api/captures/c1/frames"),
        Some(Ok(captures::Action::Frames("c1")))
    ));
    assert!(r("POST", "/api/captures/c1/parse").is_none());
    assert!(r("GET", "/api/captures//frames").is_none());
    assert!(r("GET", "/api/capturesx").is_none());
}

fn info() -> CaptureInfo {
    CaptureInfo { json: parsed(r#"{ "id": "c1" }"#), frames: 9, bytes: 99 }
}

#[test]
fn recordings_are_listed_shown_and_deleted() {
    let v = captures::list(true, Ok(vec![Json::uint(1)])).ok().unwrap();
    assert!(matches!(at(&v, &["captures"]), Json::Array(a) if a.len() == 1));
    assert_eq!(captures::list(false, Ok(vec![])).err().unwrap().status, 503);
    assert_eq!(captures::list(true, Err(true)).err().unwrap().status, 503);
    assert_eq!(captures::list(true, Err(false)).err().unwrap().status, 500);
    assert!(says(at(&captures::get("c1", true, Ok(Some(info()))).ok().unwrap(), &["id"]), "c1"));
    assert_eq!(captures::get("c1", true, Ok(None)).err().unwrap().status, 404);
    assert_eq!(captures::get("c/1", true, Ok(None)).err().unwrap().status, 400);
    let e = captures::plan_delete(&body(r#"{ "x": 1 }"#), "c1", true, Ok(Some(info())));
    assert_eq!(e.err().unwrap().status, 400);
    let i = captures::plan_delete(&Vec::new(), "c1", true, Ok(Some(info()))).ok().unwrap();
    let a = captures::deleted("c1", i, Ok(CaptureDelete::Deleted)).ok().unwrap();
    assert!(same(&a.old, &parsed(r#"{ "id": "c1", "frames": 9, "bytes": 99 }"#)));
    assert_eq!(a.new, Json::Null);
    let e = captures::deleted("c1", info(), Ok(CaptureDelete::Recording)).err().unwrap();
    assert_eq!((e.status, e.code), (409, "conflict"));
    let e = captures::deleted("c1", info(), Ok(CaptureDelete::NotFound)).err().unwrap();
    assert_eq!(e.status, 404);
}

#[test]
fn pages_of_frames_say_where_they_start() {
    let ask = |v: &[(&str, &str)]| captures::plan_frames(&q(v), "c1", 7, 8);
    let p = ask(&[]).ok().unwrap();
    assert_eq!((p.limit, p.start(Ok(None)).ok()), (DEFAULT_FRAMES_LIMIT, Some(0)));
    let p = ask(&[("from_frame", "5"), ("limit", "500"), ("to_t", "2.5")]).ok().unwrap();
    assert_eq!((p.start(Ok(None)).ok(), p.to_t, p.limit), (Some(5), Some(8), 500));
    let p = ask(&[("from_t", "1.5")]).ok().unwrap();
    assert_eq!(p.from_t, Some(7));
    assert_eq!(p.start(Ok(Some(3))).ok(), Some(3));
    assert_eq!(p.start(Ok(None)).err().unwrap().status, 404);
    assert_eq!(p.start(Err(true)).err().unwrap().status, 503);
    for (bad, why) in [
        (vec![("x", "1")], "unknown parameter \"x\" (allowed: from_frame, from_t, to_t, limit)"),
        (vec![("from_frame", "-1")], "from_frame is a non-negative integer"),
        (vec![("from_t", "9e9")], "from_t is a time in Unix seconds"),
        (vec![("to_t", "soon")], "to_t is a time in Unix seconds"),
        (vec![("from_frame", "1"), ("from_t", "1")], "give from_frame or from_t, not both"),
        (vec![("limit", "0")], "limit is an integer in 1..=500"),
        (vec![("limit", "501")], "limit is an integer in 1..=500"),
    ] {
        assert_eq!(ask(&bad).err().unwrap().message, why, "{bad:?}");
    }
}

/// A page of frames one second apart, read from the index on.
fn page(first: u64, from: u64, to_t: Option<i64>, limit: u64, total: u64) -> (Vec<u64>, Pager) {
    let mut p = Pager::new(first, from, to_t, limit, true);
    let mut got = Vec::new();
    while p.wants() && p.next < total {
        let index = p.next;
        if matches!(p.see(index as i64, true, false), Paged::Take { shown: true }) {
            got.push(index);
        }
    }
    (got, p)
}

#[test]
fn frames_are_served_fail_closed() {
    for stream_ok in [true, false] {
        for class_ok in [true, false] {
            for gated in [true, false] {
                let mut p = Pager::new(0, 0, None, 1, stream_ok);
                let open = stream_ok && class_ok && !gated;
                match p.see(1, class_ok, gated) {
                    Paged::Take { shown } => assert_eq!(shown, open),
                    _ => panic!("the frame is on the page"),
                }
            }
        }
    }
    let stored = r#"{ "t": 1, "gated": false, "content": { "bytes": "00" }, "len": 8 }"#;
    let served = |shown| served_record(parse(stored.as_bytes()).unwrap(), shown);
    assert_eq!(served(true), parse(stored.as_bytes()).unwrap());
    let closed = served(false);
    assert_eq!(closed, parse(br#"{ "t": 1, "gated": true, "len": 8 }"#).unwrap());
    assert_eq!(served_record(Json::uint(1), false), Json::Null);
    let last = Pager { next: u64::MAX, ..Pager::new(0, 0, None, 1, true) };
    assert!(!last.wants(), "there is no number after it");
}

#[test]
fn a_page_holds_the_frames_from_its_start_on() {
    let (got, p) = page(2, 4, None, 3, 20);
    assert_eq!(got, vec![4, 5, 6]);
    assert_eq!(p.next_from(20), Some(7));
    let (got, p) = page(0, 4, Some(5), 3, 20);
    assert_eq!(got, vec![4, 5], "nothing past the time");
    assert_eq!(p.next_from(20), None);
    let (got, p) = page(0, 18, None, 3, 20);
    assert_eq!(got, vec![18, 19]);
    assert_eq!(p.next_from(20), None);
    let v = captures::page("c1", &info(), Json::Null, None, &p, vec![]);
    assert_eq!(number(at(&v, &["total_frames"])), 9.0);
    assert_eq!(number(at(&v, &["from_frame"])), 18.0);
}

// ---------------------------------------------------------------------------------------------
// The inspector
// ---------------------------------------------------------------------------------------------

#[test]
fn inspector_resolves_only_its_paths() {
    let r = inspector::resolve;
    assert!(matches!(
        r("POST", "/api/inspector/parse"),
        Some(Ok(inspector::Action::ParseFrames))
    ));
    assert!(matches!(
        r("POST", "/api/captures/c1/parse"),
        Some(Ok(inspector::Action::ParseCapture("c1")))
    ));
    assert!(matches!(r("GET", "/api/captures/c1/parse"), Some(Err(Some("POST")))));
    assert!(r("GET", "/api/captures/c1/frames").is_none());
    assert!(r("POST", "/api/captures//parse").is_none());
    assert!(r("GET", "/api/captures").is_none());
}

/// Every frame record of a recording of ten: those that are served, and how many count for the
/// fit.
fn reparse(from: u64, limit: u64, cap: u64) -> (Vec<(u64, bool)>, u64, u64) {
    let mut s = FrameScan {
        next: 0,
        from,
        limit,
        fit_cap: cap,
        stop: u64::MAX,
        mapped: true,
        stream_ok: true,
    };
    let (mut page, mut fit) = (Vec::new(), 0);
    while s.wants() && s.next < 10 {
        let index = s.next;
        let seen = s.see(true, false);
        if seen.in_fit && seen.parse {
            fit += 1;
        }
        if seen.in_page {
            let served = serve_record(seen.parseable, seen.parse, true);
            page.push((index, matches!(served, Serve::Layered)));
        }
    }
    (page, fit, s.next)
}

fn summary(frames: u64) -> Option<Fields> {
    let mut f = Fields::new();
    f.put("frames", Json::uint(frames));
    f.put("ok", Json::uint(frames));
    Some(f)
}

#[test]
fn capture_fit_summary_is_capped_and_marked_truncated() {
    let (page, fit, total) = reparse(8, 2, 4);
    assert_eq!(total, 10);
    let v = fit_json(summary(fit), total, 4);
    assert_eq!((number(at(&v, &["frames"])), number(at(&v, &["ok"]))), (4.0, 4.0));
    assert_eq!(at(&v, &["truncated"]), &Json::Bool(true));
    assert_eq!(page.len(), 2, "pages past the cap are served");
    assert_eq!(page[1], (9, true), "and parsed");

    let (_, fit, total) = reparse(8, 2, 10);
    let whole = fit_json(summary(fit), total, 10);
    assert_eq!(number(at(&whole, &["frames"])), 10.0);
    assert_eq!(at(&whole, &["truncated"]), &Json::Bool(false));
    assert_eq!(fit_json(None, 10, 4), Json::Null);
}

#[test]
fn content_is_withheld_wherever_a_class_forbids_it() {
    let scan = |stream_ok: bool| FrameScan {
        next: 0,
        from: 0,
        limit: 5,
        fit_cap: 5,
        stop: 5,
        mapped: true,
        stream_ok,
    };
    for (stream, class, gated) in
        [(false, true, false), (true, false, false), (true, true, true), (false, false, true)]
    {
        let seen = scan(stream).see(class, gated);
        assert!(!seen.parseable && !seen.parse);
        assert!(matches!(serve_record(seen.parseable, seen.parse, true), Serve::Withheld));
    }
    assert!(scan(true).see(true, false).parse);
    assert!(matches!(serve_record(true, false, true), Serve::Stored));
    assert!(matches!(serve_record(true, true, false), Serve::Stored));
    assert!(servable(true, true));
    assert!(!servable(false, true) && !servable(true, false));
}

#[test]
fn two_passes_serve_one_page() {
    // The fit stops at its cap; the page lies across it.
    let p = CapturePlan { from: MAX_FIT_FRAMES - 2, limit: 5, mapped: true };
    let total = MAX_FIT_FRAMES + 50;
    assert_eq!(p.first_open(), 0);
    let end = p.stop(Some(total));
    assert_eq!(end, MAX_FIT_FRAMES);
    assert_eq!(p.end_of_page(total), MAX_FIT_FRAMES + 3);
    assert_eq!(p.second(Some(total), end), Some((MAX_FIT_FRAMES, MAX_FIT_FRAMES + 3)));
    // The index may start a little before what was asked for.
    let start = MAX_FIT_FRAMES - 1;
    let skip = p.skip(end, start);
    assert_eq!(skip, 1);
    let nth = |v: &[u64]| v.iter().map(|n| Json::uint(*n)).collect::<Vec<_>>();
    let first = nth(&[MAX_FIT_FRAMES - 2, MAX_FIT_FRAMES - 1]);
    let second = nth(&[MAX_FIT_FRAMES - 1, MAX_FIT_FRAMES, MAX_FIT_FRAMES + 1, MAX_FIT_FRAMES + 2]);
    let all = extend_page(first, &second, skip);
    let got: Vec<f64> = all.iter().map(number).collect();
    let want: Vec<f64> = (0..5).map(|i| (MAX_FIT_FRAMES - 2 + i) as f64).collect();
    assert_eq!(got, want);
    // Without a field map only the page is read.
    let plain = CapturePlan { from: 7, limit: 5, mapped: false };
    assert_eq!((plain.first_open(), plain.stop(Some(100)), plain.second(Some(100), 12)), (7, 12, None));
    assert_eq!(plain.stop(None), u64::MAX);
    assert_eq!(plain.second(None, 12), None);
    // Where the store does not say how many frames there are, as many as were read.
    assert_eq!(plain.total(Some(100), 12), 100);
    assert_eq!(plain.total(None, 12), 12);
}

#[test]
fn draft_maps_are_refused_without_their_values() {
    assert_eq!(schema_message("unknown field `x`"), "unknown field `x`");
    assert_eq!(schema_message("missing field `name`"), "missing field `name`");
    assert_eq!(schema_message("invalid type: 7"), "a key has the wrong type or value");
    let b = body(r#"{ "field_map": {}, "frames": [{ "hex": "0aFF" }] }"#);
    assert!(field_map(&b).is_some());
    assert!(field_map(&body(r#"{ "field_map": null }"#)).is_none());
    let e = plan_frames(&b, &FieldMapRead::Unreadable("invalid type: 7".to_owned())).err().unwrap();
    assert_eq!(e.status, 400);
    assert!(says(at(&e.body, &["errors", "0", "message"]), "a key has the wrong type or value"));
    let wrong = FieldMapRead::Wrong(vec![MapError {
        path: "fields[0]".to_owned(),
        message: "no length".to_owned(),
    }]);
    let e = plan_frames(&b, &wrong).err().unwrap();
    assert!(says(at(&e.body, &["error"]), "field_map is invalid"));
    assert!(says(at(&e.body, &["errors", "0", "path"]), "fields[0]"));
    let e = plan_frames(&b, &FieldMapRead::Absent).err().unwrap();
    assert!(says(at(&e.body, &["error"]), "field_map is required"));
}

#[test]
fn given_frames_are_hexadecimal_and_no_longer_than_their_bytes() {
    let ask = |text: &str| plan_frames(&body(text), &FieldMapRead::Ready);
    let v = ask(r#"{ "frames": [{ "hex": "0aFF" }, { "hex": "80", "bit_len": 1 }] }"#).ok().unwrap();
    assert_eq!((v[0].bytes.as_slice(), v[0].bit_len), (&[0x0a, 0xff][..], 16));
    assert_eq!((v[1].bytes.as_slice(), v[1].bit_len), (&[0x80][..], 1));
    let a = frames_answer(&v, &vec![Json::uint(1), Json::uint(2)], Json::Null);
    assert!(says(at(&a, &["frames", "0", "hex"]), "0aff"));
    assert_eq!(number(at(&a, &["frames", "1", "layers"])), 2.0);
    for (bad, why) in [
        (r#"{ "frames": [] }"#, "frames is a list of 1..=500 {hex, bit_len?} objects"),
        (r#"{ "frames": 1 }"#, "frames is a list of 1..=500 {hex, bit_len?} objects"),
        (r#"{ "frames": [{ "hex": "00" }, 7] }"#, "frames[1] is an object"),
        (r#"{ "frames": [{ "hex": "0" }] }"#, "frames[0].hex is an even-length hex string"),
        (r#"{ "frames": [{ "hex": "0g" }] }"#, "frames[0].hex is an even-length hex string"),
        (
            r#"{ "frames": [{ "hex": "00", "bit_len": 9 }] }"#,
            "frames[0].bit_len is an integer no larger than 8 × the bytes",
        ),
        (r#"{ "frames": [{ "x": 1 }] }"#, "unknown field \"x\" (allowed: hex, bit_len)"),
        (r#"{ "x": 1 }"#, "unknown field \"x\" (allowed: field_map, frames)"),
    ] {
        let e = ask(bad).err().unwrap();
        assert_eq!(e.status, 400, "{bad}");
        assert!(says(at(&e.body, &["error"]), why), "{bad}: {:?}", e.body);
    }
    assert_eq!(from_hex(""), Some(vec![]));
}

#[test]
fn bodies_of_the_inspector_are_json_and_say_where_they_break() {
    assert_eq!(parse_body(None, b"{}").err().unwrap().status, 415);
    let e = parse_body(Some("application/json"), b"[1]").err().unwrap();
    assert!(says(at(&e.body, &["error"]), "the body must be a JSON object"));
    let e = parse_body(Some("application/json"), b"{\n  x").err().unwrap();
    assert!(
        says(at(&e.body, &["error"]), "malformed JSON body (line 2, column 3)"),
        "{:?}",
        e.body
    );
    assert_eq!(parse_body(Some("application/json"), b"{\"a\": 1}").ok().unwrap().len(), 1);
}

#[test]
fn recordings_are_opened_by_their_identity() {
    assert!(is_capture_id("a-Z_0.:9"));
    assert!(is_capture_id(&"x".repeat(128)));
    assert!(!is_capture_id(&"x".repeat(129)));
    assert!(!is_capture_id("") && !is_capture_id("a b") && !is_capture_id("é"));
    let plan = |id: &str, text: &str, store: bool| {
        plan_capture(id, &body(text), &FieldMapRead::Absent, store)
    };
    let p = plan("c1", r#"{ "from_frame": 3, "limit": 7 }"#, true).ok().unwrap();
    assert_eq!(p, CapturePlan { from: 3, limit: 7, mapped: false });
    assert_eq!(plan("c1", "{}", true).ok().unwrap().limit, 100);
    assert_eq!(plan("c1", "{}", false).err().unwrap().status, 503);
    assert_eq!(plan("c 1", "{}", true).err().unwrap().status, 400);
    assert_eq!(plan("c1", r#"{ "limit": 501 }"#, true).err().unwrap().status, 400);
    assert_eq!(plan("c1", r#"{ "from_frame": -1 }"#, true).err().unwrap().status, 400);
    assert_eq!(opened(Opened::Failed).err().unwrap().status, 500);
    assert_eq!(opened(Opened::Missing).err().unwrap().status, 404);
    assert_eq!(opened(Opened::At { first: 2, total: None }).ok(), Some((2, None)));
    assert_eq!(unreadable().status, 422);
    let s = stream_json("s", Json::text("unrestricted"), Json::Null, None);
    assert!(s.get("inspector").is_none());
    let v = inspector::capture_answer("c1", &p, s, 20, vec![], Json::Null);
    assert_eq!(number(at(&v, &["next_from_frame"])), 10.0);
}
