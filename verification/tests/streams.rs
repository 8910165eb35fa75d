//! Streams, the connections that follow them, and changes of what is tuned.

use hk_api::bridge::{
    discovery_json, ends_connection, spent, CloseReason, Format, Next, Opener, SinkError,
    StreamInfo, StreamRegistry, Watch, WsMessage, WsSink, CARRY_OVER_GRACE, FINISHED_LINGER,
};
use hk_api::changes::{
    subscribe, subscribed_json, tuned_now, ChangeWatch, Reading, Source, Tuned, MAX_CHANGE_FEEDS,
};
use hk_api::double::Real;
use hk_api::evidence::ring_segments;
use hk_api::http::AttachOutcome;
use hk_api::json::{parse, Json, Num};

fn parsed(text: &str) -> Json {
    parse(text.as_bytes()).unwrap()
}

fn body(text: &str) -> Vec<(String, Json)> {
    match parsed(text) {
        Json::Object(m) => m,
        _ => panic!("{text} is no object"),
    }
}

fn number(v: &Json) -> f64 {
    match v {
        Json::Number(Num::U(n)) => *n as f64,
        Json::Number(Num::I(n)) => *n as f64,
        Json::Number(Num::R(r)) => f64::from_bits(r.bits),
        Json::Number(Num::Seconds(ns)) => *ns as f64 / 1e9,
        Json::Number(Num::SecondsByScale(ns)) => *ns as f64 * 1e-9,
        Json::Number(Num::Ratio(a, b)) => *a as f64 / *b as f64,
        _ => panic!("{v:?} is no number"),
    }
}

fn same(a: &Json, b: &Json) -> bool {
    match (a, b) {
        (Json::Number(_), Json::Number(_)) => number(a) == number(b),
        (Json::Array(x), Json::Array(y)) => {
            x.len() == y.len() && x.iter().zip(y).all(|(p, q)| same(p, q))
        }
        (Json::Object(x), Json::Object(y)) => {
            x.len() == y.len() && x.iter().all(|(k, v)| b.get(k).map_or(false, |w| same(v, w)))
        }
        _ => a == b,
    }
}

fn at<'a>(v: &'a Json, path: &[&str]) -> &'a Json {
    let mut v = v;
    for p in path {
        v = match v {
            Json::Array(a) => &a[p.parse::<usize>().unwrap()],
            _ => v.get(p).unwrap_or(&Json::Null),
        };
    }
    v
}

fn says(v: &Json, text: &str) -> bool {
    v.string() == Some(text)
}

fn hz(x: f64) -> Real {
    Real { bits: x.to_bits() }
}

fn t(device: &str, lo: f64, hi: f64, since: i64) -> Tuned {
    Tuned {
        device: device.into(),
        f_lo_hz: hz(lo),
        f_hi_hz: hz(hi),
        since_ns: since,
        reach_ns: since + 1,
        source: Source::IqRing,
    }
}

/// How far apart the edges of two bands are.
fn apart(a: &Tuned, b: &Tuned) -> (Real, Real) {
    let d = |x: Real, y: Real| hz(f64::from_bits(x.bits) - f64::from_bits(y.bits));
    (d(a.f_lo_hz, b.f_lo_hz), d(a.f_hi_hz, b.f_hi_hz))
}

fn step(w: &mut ChangeWatch, now: Vec<Tuned>) -> Vec<Json> {
    let readings = now
        .into_iter()
        .map(|tuned| {
            let edges = w.last(&tuned.device).map(|l| apart(l, &tuned));
            Reading::of(tuned, edges)
        })
        .collect();
    w.step(readings)
}

#[test]
fn edges_less_than_a_hertz_apart_are_those_of_one_band() {
    let same = |lo: f64, hi: f64| {
        Reading::of(t("a", 100e6, 102e6, 0), Some((hz(lo), hz(hi)))).same_band
    };
    assert!(same(0.0, 0.0) && same(0.999, -0.999));
    assert!(!same(1.0, 0.0) && !same(0.0, -1.0) && !same(f64::NAN, 0.0));
    assert!(!Reading::of(t("a", 100e6, 102e6, 0), None).same_band);
    let mut w = ChangeWatch::new(vec![t("a", 100e6, 102e6, 0)]);
    assert_eq!(w.told(), 0);
    assert_eq!(step(&mut w, vec![t("a", 200e6, 202e6, 5)]).len(), 1);
    assert_eq!(w.told(), 1);
}

#[test]
fn a_move_is_one_event_naming_both_bands_from_the_arrival() {
    let mut w = ChangeWatch::new(vec![t("a", 100e6, 102e6, 0)]);
    assert!(step(&mut w, vec![t("a", 100e6, 102e6, 0)]).is_empty());
    // Same band, new segment (a gain step): not a move.
    assert!(step(&mut w, vec![t("a", 100e6, 102e6, 5_000)]).is_empty());
    let ev = step(&mut w, vec![t("a", 110e6, 112e6, 9_000_000_000)]);
    assert_eq!(ev.len(), 1, "{ev:?}");
    let e = &ev[0];
    assert!(says(at(e, &["type"]), "coverage_changed"));
    assert_eq!(number(at(e, &["seq"])), 1.0);
    assert_eq!(number(at(e, &["t"])), 9.0);
    assert_eq!(number(at(e, &["f_lo"])), 100e6);
    assert_eq!(number(at(e, &["f_hi"])), 112e6);
    assert!(same(at(e, &["departed"]), &parsed(r#"{ "f_lo": 100e6, "f_hi": 102e6 }"#)));
    assert!(same(at(e, &["arrived"]), &parsed(r#"{ "f_lo": 110e6, "f_hi": 112e6 }"#)));
    // Stated once: the next reading of the same band is quiet.
    assert!(step(&mut w, vec![t("a", 110e6, 112e6, 9_000_000_000)]).is_empty());
}

#[test]
fn appearing_is_a_change_vanishing_and_lagging_are_not() {
    let mut w = ChangeWatch::new(vec![t("a", 100e6, 102e6, 10)]);
    let ev = step(&mut w, vec![t("a", 100e6, 102e6, 10), t("b", 5e6, 7e6, 20)]);
    assert_eq!(ev.len(), 1);
    assert!(says(at(&ev[0], &["device"]), "b"));
    assert_eq!(at(&ev[0], &["departed"]), &Json::Null);
    assert!(step(&mut w, vec![t("b", 5e6, 7e6, 20)]).is_empty(), "a is gone: silence");
    assert!(
        step(&mut w, vec![t("a", 100e6, 102e6, 10), t("b", 1e6, 3e6, 15)]).is_empty(),
        "an older reading is a lagging source, not a move back"
    );
}

#[test]
fn a_feed_opens_with_what_is_tuned_and_is_one_of_few() {
    let w = ChangeWatch::new(vec![t("a", 100e6, 102e6, 10)]);
    let v = subscribed_json(&w);
    assert!(says(at(&v, &["type"]), "subscribed"), "{v:?}");
    assert!(subscribe(0, &vec![]).is_ok());
    assert_eq!(subscribe(MAX_CHANGE_FEEDS, &vec![]).err().unwrap().status, 503);
}

#[test]
fn the_newest_segment_of_a_front_end_is_what_is_tuned() {
    let ring = parsed(
        r#"{ "segments": [
            { "device_id": "a", "t0_ns": 1, "t1_ns": 2, "center_hz": 100e6, "sample_rate_hz": 2e6 },
            { "device_id": "a", "t0_ns": 2, "t1_ns": 3, "center_hz": 110e6, "sample_rate_hz": 2e6 }
        ] }"#,
    );
    let segments = ring_segments(&ring);
    let edges: Vec<(Real, Real)> = segments
        .iter()
        .map(|s| {
            let (c, r) = (f64::from_bits(s.center_hz.bits), f64::from_bits(s.sample_rate_hz.bits));
            (hz(c - r / 2.0), hz(c + r / 2.0))
        })
        .collect();
    let now = tuned_now(&segments, &edges, &vec![]);
    assert_eq!((segments.len(), now.len()), (2, 1));
    assert_eq!((now[0].f_lo_hz, now[0].f_hi_hz), (hz(109e6), hz(111e6)));
    assert_eq!(now[0].since_ns, 2);
    assert!(matches!(now[0].source, Source::IqRing));
}

// ---------------------------------------------------------------------------------------------
// The registry
// ---------------------------------------------------------------------------------------------

fn info(id: &str) -> StreamInfo {
    StreamInfo {
        stream_id: id.to_owned(),
        kind: "spectrum".to_owned(),
        content_class: "unrestricted".to_owned(),
        content_permitted: true,
        remote_permitted: true,
        datatype: None,
        sample_rate_hz: None,
        center_hz: Some(hz(100e6)),
        bandwidth_hz: None,
        fft_size: Some(1024),
        dc_excluded_hz: None,
    }
}

fn format(binary: bool) -> Format {
    Format {
        binary,
        record_header_len: Json::Null,
        max_frame_len: Json::uint(65_536),
        emitter_id: Json::Null,
        bitstream_id: Json::Null,
        bit_framing: Json::Null,
        audio: Json::Null,
        message_schema: Json::Null,
    }
}

#[test]
fn streams_are_offered_by_name_and_replaced_in_place() {
    let mut r = StreamRegistry::new();
    assert!(r.is_empty());
    let a = r.register(info("b"), format(true), 0);
    let b = r.register(info("a"), format(true), 0);
    assert_ne!(a, b);
    assert_eq!(r.len(), 2);
    assert_eq!(r.all()[0].info.stream_id, "a", "in the order of their names");
    assert_eq!(r.offer("b"), Some(a));
    assert_eq!(r.offer_after("b", a), None);
    let again = r.register(info("b"), format(true), 1);
    assert_eq!(r.len(), 2);
    assert_eq!(r.offer_after("b", a), Some(again));
    assert!(r.unregister("a"));
    assert!(!r.unregister("a"));
    assert_eq!(r.offer("a"), None);
    r.clear();
    assert!(r.is_empty());
}

#[test]
fn only_spent_streams_are_withdrawn() {
    let mut r = StreamRegistry::with_linger(10);
    r.register(info("a"), format(true), 0);
    r.register(info("b"), format(true), 0);
    r.reap(FINISHED_LINGER + 1, vec![false, true]);
    assert_eq!(r.offer("b"), None, "b is finished and has lingered");
    assert!(r.offer("a").is_some(), "a is live");
    assert!(spent(true, 0));
    assert!(!spent(true, 1));
    assert!(!spent(false, 0));
}

#[test]
fn discovery_lists_every_stream_with_its_consumers() {
    let mut r = StreamRegistry::new();
    r.register(info("a"), format(true), 0);
    let openers = vec![Opener { name: "iq".to_owned(), about: Json::Null }];
    let v = discovery_json(r.all(), &vec![3], &openers, &None);
    match at(&v, &["streams"]) {
        Json::Array(s) => {
            assert_eq!(s.len(), 1);
            assert!(says(at(&s[0], &["stream_id"]), "a"), "{:?}", s[0]);
        }
        other => panic!("{other:?}"),
    }
    assert!(same(at(&r.listing(&vec![3]), &["streams"]), at(&v, &["streams"])));
}

#[test]
fn a_sink_sends_its_header_once_and_frames_as_they_are() {
    let mut s = WsSink::new(true);
    assert!(s.shake());
    assert!(!s.shake());
    let (m, max) = s.frame(br#"{"max_frame_len": 9}"#.to_vec(), Some(9)).ok().unwrap();
    assert!(matches!(m, WsMessage::Text(t) if t == r#"{"max_frame_len": 9}"#));
    assert_eq!(max, Some(9));
    let (m, _) = s.frame(vec![0xff, 0x00], None).ok().unwrap();
    assert!(matches!(m, WsMessage::Binary(b) if b == vec![0xff, 0x00]));
    let mut text = WsSink::new(false);
    text.shake();
    text.frame(b"{}".to_vec(), Some(9)).ok().unwrap();
    assert!(matches!(text.frame(vec![0xff], None), Err(SinkError::NotText)));
}

#[test]
fn a_connection_is_carried_over_a_gap_and_ends_after_it() {
    assert!(ends_connection(CloseReason::PeerGone));
    assert!(!ends_connection(CloseReason::PublisherFinished));
    let mut w = Watch::new(1);
    assert!(!w.in_gap());
    assert!(matches!(w.read(true, None, 0), Next::Again));
    assert!(matches!(w.read(true, Some(CloseReason::PublisherFinished), 5), Next::Look));
    assert!(w.in_gap());
    assert!(matches!(w.look(Some(2), 6), Next::Attach(2)));
    assert!(matches!(w.look(Some(1), 6), Next::Again), "the finished one is still offered");
    assert!(matches!(w.look(Some(1), 5 + CARRY_OVER_GRACE), Next::End), "the wait is over");
    assert!(matches!(w.look(None, 6), Next::End), "the stream is withdrawn");
    w.attach(2, AttachOutcome::Attached);
    assert_eq!(w.generation, 2);
    assert!(!w.in_gap());
}
