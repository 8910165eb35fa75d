//! What was observed, and what is no longer known.

use hk_api::coverage::{
    cell_json, count_code, expand_runs, plane_json, rle, run_length, sampled_fraction, state_code,
    state_str, states_json, uniform, Coverage, Device, Sampled, EXCLUDED, OBSERVED, UNKNOWN,
    UNOBSERVED,
};
use hk_api::control::Span;
use hk_api::double::Real;
use hk_api::evidence::{
    clip_open_dwell, grid_json, history_began, ring_can_answer, ring_segments, ring_spans,
    whole_spectrum, window_of, CoverageSpan, Evidence, Forgotten, LogMemory, Memory, ObservedCoverage, Shape,
};
use hk_api::http::ApiError;
use hk_api::json::{parse, Json, Num};
use hk_api::overlay::{
    coverage_query, overlay_json, rasterise, CoverageRasterMemo, Grid, RasterKey, Selected,
    TileOverlay, MAX_ENTRIES,
};

fn parsed(text: &str) -> Json {
    parse(text.as_bytes()).unwrap()
}

fn body(text: &str) -> Vec<(String, Json)> {
    match parsed(text) {
        Json::Object(m) => m,
        _ => panic!("{text} is no object"),
    }
}

fn number(v: &Json) -> f64 {
    match v {
        Json::Number(Num::U(n)) => *n as f64,
        Json::Number(Num::I(n)) => *n as f64,
        Json::Number(Num::R(r)) => f64::from_bits(r.bits),
        Json::Number(Num::Seconds(ns)) => *ns as f64 / 1e9,
        Json::Number(Num::SecondsByScale(ns)) => *ns as f64 * 1e-9,
        Json::Number(Num::Ratio(a, b)) => *a as f64 / *b as f64,
        _ => panic!("{v:?} is no number"),
    }
}

fn same(a: &Json, b: &Json) -> bool {
    match (a, b) {
        (Json::Number(_), Json::Number(_)) => number(a) == number(b),
        (Json::Array(x), Json::Array(y)) => {
            x.len() == y.len() && x.iter().zip(y).all(|(p, q)| same(p, q))
        }
        (Json::Object(x), Json::Object(y)) => {
            x.len() == y.len() && x.iter().all(|(k, v)| b.get(k).map_or(false, |w| same(v, w)))
        }
        _ => a == b,
    }
}

fn at<'a>(v: &'a Json, path: &[&str]) -> &'a Json {
    let mut v = v;
    for p in path {
        v = match v {
            Json::Array(a) => &a[p.parse::<usize>().unwrap()],
            _ => v.get(p).unwrap_or(&Json::Null),
        };
    }
    v
}

fn says(v: &Json, text: &str) -> bool {
    v.string() == Some(text)
}

fn hz(x: f64) -> Real {
    Real { bits: x.to_bits() }
}

fn of(r: Real) -> f64 {
    f64::from_bits(r.bits)
}

const S: i64 = 1_000_000_000;
const RUNNING: &str = "mock:running";
const OTHER: &str = "mock:other";
const BAND: (f64, f64) = (100e6, 200e6);
const OBSERVATION: (i64, i64) = (1000 * S, 1060 * S);

/// What a receiver looked at: a whole dwell over a band.
fn span(device: Option<&str>, lo: f64, hi: f64, window: (i64, i64)) -> CoverageSpan {
    CoverageSpan {
        device: match device {
            Some(d) => Device::Id(d.to_owned()),
            None => Device::Unknown,
        },
        t0: window.0,
        t1: window.1,
        freq: Span { lo: hz(lo), hi: hz(hi) },
        analysed: true,
        valid: true,
        center_hz: hz((lo + hi) / 2.0),
        sample_rate_hz: hz(hi - lo),
    }
}

fn sampled(spans: u64, observed: i64, analysed: i64, cell: i64, last: i64) -> Coverage {
    Coverage::Sampled(Sampled {
        spans,
        observed_ns: observed,
        analysed_ns: analysed,
        duty: hz(observed as f64 / cell as f64),
        last,
        center_hz: hz(1e8),
        sample_rate_hz: hz(2e6),
    })
}

/// A grid of what the spans of one front end (or of all) looked at.
fn grid(spans: &[CoverageSpan], device: &Device, window: (i64, i64), nt: usize, nf: usize) -> Grid {
    let t_cell = (window.1 - window.0) / nt as i64;
    let f_cell = (BAND.1 - BAND.0) / nf as f64;
    let mut cells = Vec::new();
    for row in 0..nt {
        for col in 0..nf {
            let (t0, t1) = (window.0 + t_cell * row as i64, window.0 + t_cell * (row as i64 + 1));
            let lo = BAND.0 + f_cell * col as f64;
            let (mut n, mut ns, mut last) = (0, 0, i64::MIN);
            for s in spans {
                if !matches!(device, Device::Any) && s.device != *device {
                    continue;
                }
                let shared = s.t1.min(t1) - s.t0.max(t0);
                if shared > 0 && of(s.freq.lo) < lo + f_cell && of(s.freq.hi) > lo {
                    n += 1;
                    ns += shared;
                    last = last.max(s.t1.min(t1));
                }
            }
            cells.push(if n == 0 { Coverage::Unobserved } else { sampled(n, ns, ns, t_cell, last) });
        }
    }
    Grid {
        shape: Shape {
            device: device.copy(),
            start: window.0,
            t_cell_ns: t_cell,
            nt,
            nf,
            f_lo_hz: hz(BAND.0),
            f_cell_hz: hz(f_cell),
        },
        cells,
    }
}

/// One grid for each front end that the spans name.
fn by_device(spans: &[CoverageSpan], window: (i64, i64), nt: usize, nf: usize) -> Vec<Grid> {
    let mut seen: Vec<Device> = Vec::new();
    for s in spans {
        if !seen.contains(&s.device) {
            seen.push(s.device.copy());
        }
    }
    seen.iter().map(|d| grid(spans, d, window, nt, nf)).collect()
}

fn observed_cells(g: &Grid) -> usize {
    g.cells.iter().filter(|c| c.is_observed()).count()
}

fn whole_memory() -> Memory {
    Memory {
        oldest_record: Some(0),
        recording_began: Some(0),
        forgotten: Forgotten::Nothing,
        ring_can_answer: false,
    }
}

fn evidence(log: Vec<CoverageSpan>) -> Evidence {
    Evidence::collect(Vec::new(), log, Vec::new(), true, whole_memory(), OBSERVATION.1)
}

#[test]
fn long_horizon_coverage_names_the_front_end_that_looked_and_two_devices_do_not_union() {
    let e = evidence(vec![
        span(Some(RUNNING), 100e6, 110e6, OBSERVATION),
        span(Some(OTHER), 190e6, 200e6, OBSERVATION),
    ]);
    assert_eq!(e.spans.len(), 2);
    assert_eq!((e.log, e.log_named), (2, 2), "both records named their radio");
    let a = grid(&e.spans, &Device::Id(RUNNING.into()), OBSERVATION, 1, 10);
    let b = grid(&e.spans, &Device::Id(OTHER.into()), OBSERVATION, 1, 10);
    assert!(a.cells[0].is_observed());
    assert_eq!(a.cells[9], Coverage::Unobserved);
    assert!(b.cells[9].is_observed());
    assert_eq!(b.cells[0], Coverage::Unobserved);
    assert_eq!((observed_cells(&a), observed_cells(&b)), (1, 1));
    // They are kept apart and both named; the union is only what someone asked for.
    let per = by_device(&e.spans, OBSERVATION, 1, 10);
    assert_eq!(per.len(), 2);
    assert!(per.iter().all(|g| g.shape.device.is_named()));
    let u = grid(&e.spans, &Device::Any, OBSERVATION, 1, 10);
    assert!(!u.shape.device.is_named());
    assert_eq!(observed_cells(&u), 2);
    let v = overlay_json(&e, &u, &per, 1, 10);
    let cells = |p: &[&str]| match at(&v, p) {
        Json::Array(c) => {
            c.iter().filter(|c| says(at(c, &["state"]), "observed")).count()
        }
        other => panic!("{other:?}"),
    };
    assert_eq!(cells(&["any", "cells"]), 2);
    assert_eq!(cells(&["devices", "0", "cells"]), 1);
    assert_eq!(cells(&["devices", "1", "cells"]), 1);
}

#[test]
fn an_unattributed_span_names_no_front_end() {
    let e = evidence(vec![
        span(None, 140e6, 160e6, OBSERVATION),
        span(Some(RUNNING), 100e6, 110e6, OBSERVATION),
    ]);
    assert_eq!((e.log, e.log_named), (2, 1));
    assert!(!Device::Unknown.is_named());
    assert_eq!(Device::Unknown.as_str(), "unknown");
}

fn expand(v: &Json, states: &Json) -> Vec<String> {
    let names: Vec<String> = match states {
        Json::Array(a) => a.iter().map(|s| s.string().unwrap().to_owned()).collect(),
        other => panic!("{other:?}"),
    };
    let runs: Vec<u64> = match at(v, &["runs"]) {
        Json::Array(a) => a.iter().map(|n| n.unsigned().unwrap()).collect(),
        other => panic!("{other:?}"),
    };
    assert_eq!(runs.len() % 2, 0, "runs must be [code, count] pairs: {v:?}");
    let mut out = Vec::new();
    for pair in runs.chunks(2) {
        for _ in 0..pair[1] {
            out.push(names[pair[0] as usize].clone());
        }
    }
    assert_eq!(out.len(), number(at(v, &["cells"])) as usize, "runs must cover exactly the cells");
    out
}

fn plane(cov: &Json, i: usize) -> Vec<String> {
    expand(at(cov, &["planes", &i.to_string()]), at(cov, &["states"]))
}

#[test]
fn the_compact_code_and_the_per_cell_form_classify_every_cell_identically() {
    let observed = sampled(2, 30 * S, 30 * S, 60 * S, 1030 * S);
    // Sampled, and no part of it analysed: the DC notch.
    let excluded = sampled(2, 30 * S, 0, 60 * S, 1030 * S);
    assert!(excluded.is_excluded() && excluded.is_observed());
    for (c, beyond) in [
        (&Coverage::Unobserved, false),
        (&Coverage::Unobserved, true),
        (&observed, false),
        // An observed cell is never relabelled past the horizon: the measurement is the proof.
        (&observed, true),
        // Nor is an excluded one: it is an observation with an exclusion on it, not an absence.
        (&excluded, false),
        (&excluded, true),
    ] {
        let per_cell = cell_json(c, None, beyond);
        let code = state_code(c, beyond);
        assert!(
            says(at(&per_cell, &["state"]), state_str(code)),
            "the two encodings disagree for beyond_horizon={beyond}: {per_cell:?}"
        );
    }
    // The alphabet has four entries, all distinct.
    match states_json() {
        Json::Array(a) => assert_eq!(a.len(), 4),
        other => panic!("{other:?}"),
    }
    assert_eq!(state_str(UNOBSERVED), "unobserved");
    assert_eq!(state_str(OBSERVED), "observed");
    assert_eq!(state_str(UNKNOWN), "unknown");
    assert_eq!(state_str(EXCLUDED), "excluded");
    // An excluded cell keeps its measurement keys, and says in a number why it is not simply
    // observed.
    let v = cell_json(&excluded, None, false);
    assert!(says(at(&v, &["state"]), "excluded"), "{v:?}");
    assert_eq!(number(at(&v, &["analysed_s"])), 0.0, "{v:?}");
    assert!((number(at(&v, &["observed_s"])) - 30.0).abs() < 1e-6, "{v:?}");
    let o = cell_json(&observed, None, false);
    assert!((number(at(&o, &["analysed_s"])) - 30.0).abs() < 1e-6, "{o:?}");
}

#[test]
fn the_run_length_encoding_is_lossless_and_never_merges_two_states() {
    let cases: [Vec<u8>; 5] = [
        vec![],
        vec![UNOBSERVED; 5],
        vec![OBSERVED, OBSERVED, UNOBSERVED, UNKNOWN, UNKNOWN, OBSERVED],
        vec![OBSERVED, EXCLUDED, EXCLUDED, OBSERVED, UNOBSERVED],
        // Every cell a different state from its neighbour.
        (0..40).map(|i| (i % 4) as u8).collect(),
    ];
    for codes in cases {
        let v = plane_json(&codes);
        let back: Vec<u8> = expand(&v, &states_json())
            .iter()
            .map(|s| (0..4u8).find(|c| state_str(*c) == s).unwrap())
            .collect();
        assert_eq!(back, codes, "{v:?}");
        assert_eq!(expand_runs(&run_length(&codes)), codes);
        let n = |c: u8| codes.iter().filter(|&&x| x == c).count();
        assert_eq!(number(at(&v, &["observed_cells"])), n(OBSERVED) as f64, "{v:?}");
        assert_eq!(number(at(&v, &["unobserved_cells"])), n(UNOBSERVED) as f64, "{v:?}");
        assert_eq!(number(at(&v, &["unknown_cells"])), n(UNKNOWN) as f64, "{v:?}");
        assert_eq!(number(at(&v, &["excluded_cells"])), n(EXCLUDED) as f64, "{v:?}");
        // Uniform is a statement about the runs, not a claim beside them.
        let all_one = codes.first().filter(|&&c| n(c) == codes.len());
        match all_one {
            None => assert_eq!(at(&v, &["uniform"]), &Json::Null, "{v:?}"),
            Some(c) => assert!(says(at(&v, &["uniform"]), state_str(*c)), "{v:?}"),
        }
        assert_eq!(uniform(&codes), all_one.map(|c| state_str(*c)));
        assert_eq!(count_code(&codes, OBSERVED), n(OBSERVED));
    }
    assert_eq!(rle(&[OBSERVED, OBSERVED, UNKNOWN]), vec![1, 2, 2, 1]);
    assert_eq!(number(&sampled_fraction(1, 4)), 0.25);
}

fn overlay(log: Vec<CoverageSpan>, nt: usize, nf: usize) -> TileOverlay {
    let e = evidence(log);
    let any = grid(&e.spans, &Device::Any, OBSERVATION, nt, nf);
    let per = by_device(&e.spans, OBSERVATION, nt, nf);
    let raster = rasterise(any, per);
    TileOverlay::collect(e, &raster, nt, nf)
}

#[test]
fn devices_that_differ_get_their_own_plane_and_an_identical_plane_is_never_repeated() {
    let o = overlay(
        vec![
            span(Some(RUNNING), 100e6, 110e6, OBSERVATION),
            span(Some(OTHER), 190e6, 200e6, OBSERVATION),
        ],
        2,
        10,
    );
    let v = o.to_json(RUNNING, true);
    match at(&v, &["planes"]) {
        Json::Array(p) => assert_eq!(p.len(), 3, "union + two disjoint devices: {v:?}"),
        other => panic!("{other:?}"),
    }
    let idx = |d: &str| -> usize {
        match at(&v, &["devices"]) {
            Json::Array(a) => {
                let e = a.iter().find(|e| says(at(e, &["device"]), d)).unwrap();
                number(at(e, &["plane"])) as usize
            }
            other => panic!("{other:?}"),
        }
    };
    let (a, b) = (plane(&v, idx(RUNNING)), plane(&v, idx(OTHER)));
    let union = plane(&v, number(at(&v, &["any", "plane"])) as usize);
    assert_eq!((a[0].as_str(), a[9].as_str()), ("observed", "unobserved"), "{a:?}");
    assert_eq!((b[0].as_str(), b[9].as_str()), ("unobserved", "observed"), "{b:?}");
    assert_ne!(a, b, "two radios on disjoint bands must not share a plane");
    assert_ne!(a, union, "a named device must never be served the union's plane");
    assert_ne!(b, union);
    assert_eq!((union[0].as_str(), union[9].as_str()), ("observed", "observed"));
    // The selection the response states is the one a client applies.
    assert_eq!(number(at(&v, &["selected", "plane"])) as usize, idx(RUNNING), "{v:?}");
    assert_eq!(at(&v, &["selected", "present"]), &Json::Bool(true), "{v:?}");
    // A named device this answer holds no plane for is a coverage answer, not a missing one.
    let absent = o.to_json("mock:never-ran", true);
    assert_eq!(at(&absent, &["selected", "present"]), &Json::Bool(false), "{absent:?}");
    assert_eq!(at(&absent, &["selected", "plane"]), &Json::Null, "{absent:?}");
    assert!(matches!(o.selected("mock:never-ran"), Selected::AbsentDevice));
    assert_eq!(o.uniform_state("mock:never-ran"), Some("unobserved"));
    let one = o.selected_plane_json(RUNNING);
    assert_eq!(at(&one, &["present"]), &Json::Bool(true), "{one:?}");
    assert_eq!(at(&one, &["plane"]), at(&v, &["planes", &idx(RUNNING).to_string()]), "{one:?}");
    let none = o.selected_plane_json("mock:never-ran");
    assert_eq!(at(&none, &["present"]), &Json::Bool(false), "{none:?}");

    // And now the one-device server.
    let o1 = overlay(vec![span(Some(RUNNING), 100e6, 110e6, OBSERVATION)], 2, 10);
    let v1 = o1.to_json("any", false);
    match at(&v1, &["planes"]) {
        Json::Array(p) => assert_eq!(p.len(), 1, "it is carried once: {v1:?}"),
        other => panic!("{other:?}"),
    }
    assert_eq!(at(&v1, &["any", "plane"]), at(&v1, &["devices", "0", "plane"]), "{v1:?}");
    assert_eq!(
        plane(&v1, 0),
        plane(&v1, number(at(&v1, &["devices", "0", "plane"])) as usize),
        "sharing an index must not change what either reads"
    );
}

/// The bytes that a value takes, written without spaces.
fn written(v: &Json) -> usize {
    match v {
        Json::Null => 4,
        Json::Bool(b) => if *b { 4 } else { 5 },
        Json::Number(_) => format!("{}", number(v)).len(),
        Json::Text(s) => format!("{s:?}").len(),
        Json::Array(a) => 1 + a.len().max(1) + a.iter().map(written).sum::<usize>(),
        Json::Object(m) => {
            1 + m.len().max(1) + m.iter().map(|(k, v)| k.len() + 3 + written(v)).sum::<usize>()
        }
    }
}

#[test]
fn the_compact_plane_is_orders_of_magnitude_smaller_than_the_per_cell_form_it_replaces() {
    const CELLS: usize = 256;
    let log = || vec![span(Some(RUNNING), 100e6, 200e6, OBSERVATION)];
    let o = overlay(log(), CELLS, CELLS);
    let compact = written(&o.to_json("any", false));
    let full = grid(&log(), &Device::Any, OBSERVATION, CELLS, CELLS);
    let per_cell = written(&grid_json(&full.shape, &full.cells, None, 0, 0));
    let before = per_cell * 2;
    assert!(
        observed_cells(&full) == CELLS * CELLS,
        "the fixture must fill the plane, or the comparison is about a cheaper grid"
    );
    assert!(
        compact < 8_192,
        "the compact plane must stay a few KB, not scale with cells: {compact} B"
    );
    assert!(
        before / compact > 100,
        "per-cell {before} B vs compact {compact} B is not the order this is about"
    );
}

#[test]
fn an_unobserved_cell_carries_no_measurement_keys_at_all() {
    // Nothing a client can read as a zero level, a zero duty or a zero occupancy.
    let v = cell_json(&Coverage::Unobserved, Some(Some(hz(0.9))), false);
    assert!(same(&v, &parsed(r#"{ "state": "unobserved" }"#)));
    assert!(v.get("duty").is_none());
    assert!(v.get("observed_s").is_none());
    assert!(v.get("shade").is_none());
}

#[test]
fn an_observed_cell_states_the_sampling_that_makes_it_observed() {
    let c = sampled(2, 30 * S, 30 * S, 60 * S, 1030 * S);
    let v = cell_json(&c, Some(None), false);
    assert!(says(at(&v, &["state"]), "observed"));
    assert_eq!(number(at(&v, &["spans"])), 2.0);
    assert!((number(at(&v, &["observed_s"])) - 30.0).abs() < 1e-9, "{v:?}");
    assert_eq!(number(at(&v, &["duty"])), 0.5);
    assert_eq!(number(at(&v, &["last_s"])), 1030.0);
    // Sampled, level not retained: an explicit null on an observed cell.
    assert_eq!(v.get("shade"), Some(&Json::Null));
    assert_ne!(
        at(&v, &["state"]),
        at(&cell_json(&Coverage::Unobserved, Some(None), false), &["state"])
    );
}

// ---------------------------------------------------------------------------------------------
// Unknown is what was recorded and lost
// ---------------------------------------------------------------------------------------------

const WINDOW: (i64, i64) = (7080 * S, 7280 * S);

/// The states of ten rows of one cell, and the horizon.
fn row_states(e: &Evidence) -> (Vec<String>, Json, Json) {
    let any = grid(&e.spans, &Device::Any, WINDOW, 10, 1);
    let per = by_device(&e.spans, WINDOW, 10, 1);
    let v = overlay_json(e, &any, &per, 10, 1);
    let rows = match at(&v, &["any", "cells"]) {
        Json::Array(c) => c.iter().map(|c| at(c, &["state"]).string().unwrap().to_owned()).collect(),
        other => panic!("{other:?}"),
    };
    (rows, at(&v, &["horizon"]).copy(), at(&v, &["sources"]).copy())
}

fn states(spec: &[(&str, usize)]) -> Vec<String> {
    spec.iter().flat_map(|&(s, n)| vec![s.to_owned(); n]).collect()
}

fn dwell(t0: i64, t1: i64) -> CoverageSpan {
    span(Some(RUNNING), 100e6, 200e6, (t0 * S, t1 * S))
}

/// A log that holds the records' hours.
fn log_of(records: &[CoverageSpan], deleted: bool) -> Option<LogMemory> {
    Some(LogMemory {
        hours: records.iter().map(|r| r.t0 / (3600 * S)).collect(),
        deleted,
        earliest: records.iter().map(|r| r.t0).min(),
    })
}

fn remembered(
    records: Vec<CoverageSpan>,
    open: Option<(i64, i64)>,
    deleted: bool,
    history: Option<i64>,
) -> Evidence {
    let log = log_of(&records, deleted);
    let memory = Memory::of(None, 0, &log, history.is_some(), history);
    let in_flight = match open {
        None => Vec::new(),
        Some((a, b)) => {
            match clip_open_dwell(a * S, b * S, memory.oldest_record, WINDOW.0, WINDOW.1) {
                Some((a, b)) => vec![span(Some(RUNNING), 100e6, 200e6, (a, b))],
                None => Vec::new(),
            }
        }
    };
    Evidence::collect(Vec::new(), records, in_flight, true, memory, WINDOW.1)
}

#[test]
fn unknown_is_what_was_recorded_and_lost_and_a_young_store_has_lost_nothing() {
    // Nothing ever recorded.
    let (rows, h, _) = row_states(&remembered(vec![], None, false, None));
    assert_eq!(rows, states(&[("unobserved", 10)]), "{h:?}");
    assert_eq!(at(&h, &["recording_began_s"]), &Json::Null, "{h:?}");
    assert_eq!(at(&h, &["oldest_record_s"]), &Json::Null, "{h:?}");
    assert_eq!(at(&h, &["forgotten"]), &Json::Null, "{h:?}");
    assert_eq!(number(at(&h, &["unknown_rows"])), 0.0, "{h:?}");

    // Recorded since 7100; the only surviving tune record starts at 7200.
    let (rows, h, _) = row_states(&remembered(vec![dwell(7200, 7260)], None, false, Some(7100 * S)));
    assert_eq!(
        rows,
        states(&[("unobserved", 1), ("unknown", 5), ("observed", 3), ("unobserved", 1)]),
        "{h:?}"
    );
    assert_eq!(number(at(&h, &["recording_began_s"])), 7100.0, "{h:?}");
    assert_eq!(number(at(&h, &["oldest_record_s"])), 7200.0, "{h:?}");
    assert_eq!(number(at(&h, &["unknown_from_row"])), 1.0, "{h:?}");
    assert_eq!(number(at(&h, &["unknown_rows"])), 5.0, "{h:?}");
    assert_eq!(at(&h, &["forgotten"]), &Json::Null, "{h:?}");

    // The same, after the log has deleted a segment by retention.
    let (rows, h, _) = row_states(&remembered(vec![dwell(7200, 7260)], None, true, Some(7100 * S)));
    assert_eq!(
        rows,
        states(&[("unknown", 6), ("observed", 3), ("unobserved", 1)]),
        "{h:?}"
    );
    assert!(at(&h, &["forgotten"]).string().is_some(), "{h:?}");
    assert_eq!(number(at(&h, &["unknown_from_row"])), 0.0, "{h:?}");

    // No tune history at all.
    let memory = Memory::of(None, 0, &None, false, None);
    let e = Evidence::collect(Vec::new(), Vec::new(), Vec::new(), false, memory, WINDOW.1);
    assert!(!e.has_source());
    let (rows, h, _) = row_states(&e);
    assert_eq!(rows, states(&[("unknown", 10)]), "{h:?}");
}

#[test]
fn the_dwell_in_flight_carries_the_live_edge_and_never_overrules_an_unknown_row() {
    let (rows, h, _) = row_states(&remembered(
        vec![dwell(7200, 7260)],
        Some((7100, 7280)),
        false,
        Some(7100 * S),
    ));
    assert_eq!(number(at(&h, &["oldest_record_s"])), 7200.0, "{h:?}");
    assert_eq!(number(at(&h, &["unknown_from_row"])), 1.0, "{h:?}");
    assert_eq!(number(at(&h, &["unknown_rows"])), 5.0, "{h:?}");
    assert_eq!(
        rows,
        states(&[("unobserved", 1), ("unknown", 5), ("observed", 4)]),
        "the open dwell carries the live edge and leaves the unknown rows: {h:?}"
    );
    // The open dwell is folded in before the forward horizon is taken.
    assert_eq!(number(at(&h, &["as_of_s"])), 7280.0, "{h:?}");

    // And it is really the open dwell doing the work on the last row.
    let (rows, h, _) = row_states(&remembered(vec![dwell(7200, 7260)], None, false, Some(7100 * S)));
    assert_eq!(
        rows,
        states(&[("unobserved", 1), ("unknown", 5), ("observed", 3), ("unobserved", 1)]),
        "{h:?}"
    );
    assert_eq!(number(at(&h, &["as_of_s"])), 7260.0, "{h:?}");
}

fn rows_of(status: &str) -> (Vec<String>, Json) {
    let status = parsed(status);
    let t0 = match status.get("t0") {
        Some(v) => (number(v) * 1e9).round() as i64,
        None => 0,
    };
    let ring: Vec<CoverageSpan> = ring_segments(&status)
        .iter()
        .map(|s| {
            let (c, r) = (of(s.center_hz), of(s.sample_rate_hz));
            CoverageSpan {
                device: s.device.copy(),
                ..span(None, c - r / 2.0, c + r / 2.0, (s.t0, s.t1))
            }
        })
        .collect();
    let memory = Memory::of(Some(&status), t0, &None, false, None);
    let e = Evidence::collect(ring, Vec::new(), Vec::new(), false, memory, WINDOW.1);
    let (rows, _, sources) = row_states(&e);
    let ring = match sources {
        Json::Array(a) => a.into_iter().find(|s| says(at(s, &["kind"]), "iq-ring")).unwrap(),
        other => panic!("{other:?}"),
    };
    (rows, ring)
}

#[test]
fn a_refused_ring_is_not_available_and_its_rows_are_unknown_rather_than_grey() {
    // Refused: a handle, an answer, and no journal behind either.
    let (rows, ring) = rows_of(
        r#"{ "enabled": false,
             "reason": "needs 134217728 bytes above the 8589934592-byte free-space floor and 4789297152 bytes are free",
             "allocation": "refused", "segments": [] }"#,
    );
    assert_eq!(rows, states(&[("unknown", 10)]), "{ring:?}");
    assert_eq!(at(&ring, &["available"]), &Json::Bool(false), "{ring:?}");
    assert_eq!(number(at(&ring, &["spans"])), 0.0, "{ring:?}");

    // Allocating: enabled, but nothing is buffered until it completes.
    let (rows, ring) = rows_of(
        r#"{ "enabled": true, "reason": null, "allocation": "allocating",
             "allocation_progress": 0.4, "segments": [] }"#,
    );
    assert_eq!(rows, states(&[("unknown", 10)]), "{ring:?}");
    assert_eq!(at(&ring, &["available"]), &Json::Bool(false), "{ring:?}");

    // A ring that really is holding a journal: available, and its segment is observed.
    let (rows, ring) = rows_of(
        r#"{ "enabled": true, "reason": null, "allocation": "full", "t0": 7100.0, "t1": 7200.0,
             "segments": [{ "device_id": "mock:running", "center_hz": 150e6, "sample_rate_hz": 20e6,
                            "t0_ns": 7100000000000, "t1_ns": 7200000000000 }] }"#,
    );
    assert_eq!(at(&ring, &["available"]), &Json::Bool(true), "{ring:?}");
    assert_eq!(number(at(&ring, &["spans"])), 1.0, "{ring:?}");
    assert_eq!(
        rows,
        states(&[("unobserved", 1), ("observed", 5), ("unobserved", 4)]),
        "the ring's own segment is observed, and after its reach nothing looked: {ring:?}"
    );
}

#[test]
fn a_ring_that_says_nothing_cannot_answer() {
    assert!(!ring_can_answer(None));
    assert!(!ring_can_answer(Some(&Json::Null)));
    assert!(ring_can_answer(Some(&parsed(r#"{ "enabled": true, "allocation": "full" }"#))));
    assert_eq!(history_began(&vec![]), (false, None));
    assert_eq!(history_began(&vec![Some(7), None, Some(5)]), (true, Some(5)));
}

#[test]
fn an_open_dwell_starts_no_earlier_than_the_oldest_record() {
    assert_eq!(clip_open_dwell(10, 50, Some(20), 0, 100), Some((20, 50)));
    assert_eq!(clip_open_dwell(10, 50, Some(5), 0, 30), Some((10, 50)));
    assert_eq!(clip_open_dwell(10, 50, None, 0, 100), None, "no record survives");
    assert_eq!(clip_open_dwell(10, 50, Some(5), 50, 100), None);
    assert_eq!(clip_open_dwell(10, 50, Some(60), 0, 100), None);
}

#[test]
fn windows_come_from_the_question_or_the_capture() {
    let q = |v: &[(&str, &str)]| -> Vec<(String, String)> {
        v.iter().map(|(a, b)| ((*a).to_owned(), (*b).to_owned())).collect()
    };
    let asked = window_of(&q(&[("t0", "1"), ("t1", "2")]), (S, 2 * S), None);
    assert_eq!(asked.ok().unwrap().0, (S, 2 * S));
    let whole = window_of(&q(&[]), (0, 0), Some((5, 9)));
    assert_eq!(whole.ok().unwrap().0, (5, 9));
    assert!(window_of(&q(&[("t0", "2"), ("t1", "1")]), (2 * S, S), None).is_err());
    let full = coverage_query(
        &q(&[("t0", "1"), ("t1", "2")]),
        Ok(4),
        Ok(2),
        Ok(Some(Span { lo: hz(1.0), hi: hz(2.0) })),
        (S, 2 * S),
        None,
    );
    let full = full.ok().unwrap();
    assert_eq!((full.cells, full.rows, full.window), (4, 2, (S, 2 * S)));
    let bad = coverage_query(
        &q(&[]),
        Err(ApiError::new(400, "cells")),
        Ok(2),
        Ok(None),
        (0, 1),
        None,
    );
    assert_eq!(bad.err().unwrap().message, "cells");
}

#[test]
fn the_times_over_a_band_are_those_of_its_spans() {
    let c = ObservedCoverage {
        spans: vec![
            span(None, 100e6, 110e6, (S, 2 * S)),
            span(None, 105e6, 120e6, (3 * S, 4 * S)),
        ],
    };
    let band = |lo: f64, hi: f64| Span { lo: hz(lo), hi: hz(hi) };
    assert_eq!(c.times_over(&band(112e6, 113e6)), vec![(3 * S, 4 * S)]);
    assert_eq!(c.times_over(&band(106e6, 107e6)), vec![(S, 2 * S), (3 * S, 4 * S)]);
    assert_eq!(c.times_over(&band(120e6, 121e6)), vec![], "touching is no overlap");
    assert_eq!(c.times_over(&whole_spectrum()).len(), 2);
    assert!(!band(1.0, 2.0).overlaps(&band(f64::NAN, 2.0)));
}

#[test]
fn segments_of_the_ring_are_spans_of_their_bands() {
    let status = parsed(
        r#"{ "segments": [
            { "device_id": "a", "center_hz": 150e6, "sample_rate_hz": 20e6,
              "t0_ns": 1, "t1_ns": 9 },
            { "device_id": "b", "center_hz": 400e6, "sample_rate_hz": 20e6,
              "t0_ns": 2, "t1_ns": 2 }] }"#,
    );
    let segments = ring_segments(&status);
    let edges = vec![(hz(140e6), hz(160e6)), (hz(390e6), hz(410e6))];
    let near = ring_spans(&segments, &edges, &Span { lo: hz(155e6), hi: hz(200e6) });
    assert_eq!(near.len(), 1);
    assert_eq!(near[0].device, Device::Id("a".to_owned()));
    assert_eq!((near[0].t0, near[0].t1, near[0].valid, near[0].analysed), (1, 9, true, true));
    assert_eq!(near[0].freq, Span { lo: hz(140e6), hi: hz(160e6) });
    assert_eq!((near[0].center_hz, near[0].sample_rate_hz), (hz(150e6), hz(20e6)));
    let all = ring_spans(&segments, &edges, &whole_spectrum());
    assert_eq!(all.len(), 2);
    assert!(!all[1].valid, "its interval is empty");
}

#[test]
fn an_overlay_has_the_shapes_of_its_raster() {
    let log = vec![span(Some(RUNNING), 100e6, 110e6, OBSERVATION)];
    let e = evidence(log);
    let any = grid(&e.spans, &Device::Any, OBSERVATION, 2, 10);
    let raster = rasterise(any, by_device(&e.spans, OBSERVATION, 2, 10));
    let o = TileOverlay::collect(e, &raster, 2, 10);
    assert_eq!(format!("{:?}", o.devices), format!("{:?}", raster.devices));
    assert_eq!(format!("{:?}", o.any), format!("{:?}", raster.any));
    assert_eq!((o.devices[0].nt, o.devices[0].nf), (2, 10));
}

#[test]
fn a_raster_is_made_once_and_the_oldest_is_forgotten() {
    let log = vec![span(Some(RUNNING), 100e6, 110e6, OBSERVATION)];
    let band = Span { lo: hz(BAND.0), hi: hz(BAND.1) };
    let key = |nt: usize| RasterKey::of(&log, &band, OBSERVATION, nt, 10);
    let make = |nt: usize| {
        rasterise(
            grid(&log, &Device::Any, OBSERVATION, nt, 10),
            by_device(&log, OBSERVATION, nt, 10),
        )
    };
    let mut memo = CoverageRasterMemo::new();
    assert!(!memo.lookup(&key(1)));
    assert!(memo.insert(key(1), make(1)).is_none());
    assert!(memo.lookup(&key(1)));
    assert_eq!((memo.hits(), memo.rasterisations()), (1, 1));
    assert!(memo.newest().is_some());
    for nt in 2..MAX_ENTRIES.min(40) {
        assert!(!memo.lookup(&key(nt)));
        memo.insert(key(nt), make(nt));
    }
    assert!(memo.lookup(&key(1)), "it was not pushed out yet");
}
