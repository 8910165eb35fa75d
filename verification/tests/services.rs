//! What the services of a run are handed, and what their answers become.

use std::sync::Mutex;

use hk_api::analyze::{
    self, job, plan_post, AnalyzeControl, AnalyzeFailure, AnalyzeStart, AnalyzeTraceQuery, Asked,
};
use hk_api::anomalies::{
    self, AnomalyControl, AnomalyFail, AnomalyQuery, AnomalyStatus, AnomalyView, Rounded,
};
use hk_api::attention::{
    self, AttentionAnswer, AttentionCall, AttentionControl, AttentionFail, Route,
};
use hk_api::command::Command;
use hk_api::control::{
    Action, BiasTee, CaptureStatus, Choices, DisplayLimits, DisplayState, DisplayUpdate, Id, LiveTuning,
    NamedGain, RecordingState, RunState, SourceCapabilities,
};
use hk_api::double::Real;
use hk_api::json::{parse, Json, Num, ToJson};
use hk_api::run::{
    act, apply_action, change, snapshot, Applying, LiveControl, LiveControlError, RunControl,
};

fn parsed(text: &str) -> Json {
    parse(text.as_bytes()).unwrap()
}

fn body(text: &str) -> Vec<(String, Json)> {
    match parsed(text) {
        Json::Object(m) => m,
        _ => panic!("{text} is no object"),
    }
}

fn number(v: &Json) -> f64 {
    match v {
        Json::Number(Num::U(n)) => *n as f64,
        Json::Number(Num::I(n)) => *n as f64,
        Json::Number(Num::R(r)) => f64::from_bits(r.bits),
        Json::Number(Num::Seconds(ns)) => *ns as f64 / 1e9,
        Json::Number(Num::SecondsByScale(ns)) => *ns as f64 * 1e-9,
        Json::Number(Num::Ratio(a, b)) => *a as f64 / *b as f64,
        _ => panic!("{v:?} is no number"),
    }
}

fn same(a: &Json, b: &Json) -> bool {
    match (a, b) {
        (Json::Number(_), Json::Number(_)) => number(a) == number(b),
        (Json::Array(x), Json::Array(y)) => {
            x.len() == y.len() && x.iter().zip(y).all(|(p, q)| same(p, q))
        }
        (Json::Object(x), Json::Object(y)) => {
            x.len() == y.len() && x.iter().all(|(k, v)| b.get(k).map_or(false, |w| same(v, w)))
        }
        _ => a == b,
    }
}

fn at<'a>(v: &'a Json, path: &[&str]) -> &'a Json {
    let mut v = v;
    for p in path {
        v = match v {
            Json::Array(a) => &a[p.parse::<usize>().unwrap()],
            _ => v.get(p).unwrap_or(&Json::Null),
        };
    }
    v
}

fn says(v: &Json, text: &str) -> bool {
    v.string() == Some(text)
}

fn q(v: &[(&str, &str)]) -> Vec<(String, String)> {
    v.iter().map(|(a, b)| ((*a).to_owned(), (*b).to_owned())).collect()
}

fn hz(x: f64) -> Real {
    Real { bits: x.to_bits() }
}

/// What was asked, in turn.
#[derive(Default)]
struct Log(Mutex<Vec<String>>);

impl Log {
    fn note(&self, s: String) {
        self.0.lock().unwrap().push(s);
    }
    fn taken(&self) -> Vec<String> {
        std::mem::take(&mut *self.0.lock().unwrap())
    }
}

// ---------------------------------------------------------------------------------------------
// Anomalies
// ---------------------------------------------------------------------------------------------

#[derive(Default)]
struct Alarms {
    asked: Log,
    broken: bool,
}

fn alarm(s: AnomalyStatus) -> AnomalyView {
    AnomalyView { json: parsed(r#"{ "id": "a1" }"#), status: s, state: Some("armed".into()) }
}

impl AnomalyControl for Alarms {
    fn list(&self, q: &AnomalyQuery) -> Result<(Vec<Json>, Option<usize>), AnomalyFail> {
        self.asked.note(format!("list {} {}", q.cursor, q.limit));
        if self.broken {
            return Err(AnomalyFail::Failed("disk".into()));
        }
        Ok((vec![Json::uint(1), Json::uint(2)], Some(7)))
    }
    fn get(&self, id: Id) -> Result<AnomalyView, AnomalyFail> {
        self.asked.note(format!("get {}", id.value));
        if id.value == 404 {
            return Err(AnomalyFail::NotFound);
        }
        Ok(alarm(AnomalyStatus::Open))
    }
    fn dismiss(&mut self, id: Id, note: Option<String>) -> Result<AnomalyView, AnomalyFail> {
        self.asked.note(format!("dismiss {} {note:?}", id.value));
        Ok(alarm(AnomalyStatus::Dismissed))
    }
    fn reopen(&mut self, id: Id) -> Result<AnomalyView, AnomalyFail> {
        self.asked.note(format!("reopen {}", id.value));
        Err(AnomalyFail::Conflict("not dismissed".into()))
    }
    fn suppressions(&self) -> Json {
        parsed(r#"{ "novelty": 3 }"#)
    }
}

const ROUNDED: Rounded = Rounded { t0: 1, t1: 2, cursor: 5, limit: 900 };

#[test]
fn the_alarm_engine_is_asked_for_the_page() {
    let c = Alarms::default();
    let v = anomalies::read_list(Some(&c), &q(&[("cursor", "5"), ("limit", "900")]), &ROUNDED, 500)
        .ok()
        .unwrap();
    assert!(same(
        &v,
        &parsed(
            r#"{ "anomalies": [1, 2], "next_cursor": 7, "truncated": true,
                 "suppressions": { "novelty": 3 } }"#
        )
    ));
    assert_eq!(c.asked.taken(), vec!["list 5 500"], "capped, and asked once");
    assert!(anomalies::read_list(Some(&c), &q(&[("kind", "odd")]), &ROUNDED, 500).is_err());
    assert!(c.asked.taken().is_empty(), "a refused query asks for nothing");
    let broken = Alarms { broken: true, ..Alarms::default() };
    let e = anomalies::read_list(Some(&broken), &q(&[]), &ROUNDED, 500).err().unwrap();
    assert_eq!((e.status, e.message.as_str()), (500, "disk"));
    let none: Option<&dyn AnomalyControl> = None;
    assert_eq!(anomalies::read_list(none, &q(&[]), &ROUNDED, 500).err().unwrap().status, 503);
    assert_eq!(anomalies::read_one(none, Id { value: 1 }).err().unwrap().status, 503);
    let v = anomalies::read_one(Some(&c), Id { value: 3 }).ok().unwrap();
    assert!(says(at(&v, &["id"]), "a1"));
    assert_eq!(anomalies::read_one(Some(&c), Id { value: 404 }).err().unwrap().status, 404);
}

#[test]
fn an_alarm_is_read_before_it_is_dismissed() {
    let mut c = Alarms::default();
    let id = Id { value: 3 };
    let a = anomalies::dismiss(Some(&mut c), id, &body(r#"{ "note": "seen" }"#)).ok().unwrap();
    assert!(says(at(&a.old, &["status"]), "open"));
    assert!(says(at(&a.new, &["status"]), "dismissed"));
    assert!(says(at(&a.body, &["anomaly", "id"]), "a1"));
    assert_eq!(c.asked.taken(), vec!["get 3".to_owned(), "dismiss 3 Some(\"seen\")".to_owned()]);
    assert_eq!(anomalies::dismiss(Some(&mut c), id, &body(r#"{ "x": 1 }"#)).err().unwrap().status, 400);
    assert!(c.asked.taken().is_empty());
    assert!(anomalies::dismiss(Some(&mut c), id, &body(r#"{ "note": 1 }"#)).is_err());
    assert_eq!(c.asked.taken(), vec!["get 3"], "a bad note dismisses nothing");
    let e = anomalies::reopen(Some(&mut c), id, &body("{}")).err().unwrap();
    assert_eq!((e.status, e.code, e.message.as_str()), (409, "conflict", "not dismissed"));
    let gone = anomalies::reopen(Some(&mut c), Id { value: 404 }, &body("{}")).err().unwrap();
    assert_eq!(gone.status, 404);
    assert_eq!(c.asked.taken(), vec!["get 3", "reopen 3", "get 404"]);
    let none: Option<&mut Alarms> = None;
    assert_eq!(anomalies::reopen(none, id, &body("{}")).err().unwrap().status, 503);
}

// ---------------------------------------------------------------------------------------------
// Analyses
// ---------------------------------------------------------------------------------------------

#[derive(Default)]
struct Jobs(Log);

impl AnalyzeControl for Jobs {
    fn start(&mut self, request: &AnalyzeStart) -> Result<Json, AnalyzeFailure> {
        self.0.note(format!("start {}", request.options.profile));
        Ok(parsed(r#"{ "id": "j1", "state": "queued", "x": 1 }"#))
    }
    fn list(&self, state: Option<&str>) -> Result<Json, AnalyzeFailure> {
        self.0.note(format!("list {state:?}"));
        Ok(parsed(r#"{ "jobs": [] }"#))
    }
    fn get(&self, id: &str) -> Result<Json, AnalyzeFailure> {
        self.0.note(format!("get {id}"));
        Err(AnalyzeFailure { status: 410, code: "gone".into(), message: "forgotten".into() })
    }
    fn cancel(&mut self, id: &str) -> Result<(Json, bool), AnalyzeFailure> {
        self.0.note(format!("cancel {id}"));
        Ok((parsed(r#"{ "id": "j1", "state": "cancelled" }"#), true))
    }
    fn trace(&self, id: &str, query: &AnalyzeTraceQuery) -> Result<Json, AnalyzeFailure> {
        self.0.note(format!("trace {id} {:?} {:?}", query.stage, query.tried));
        Ok(parsed(r#"{ "trace": [] }"#))
    }
}

#[test]
fn the_job_manager_is_handed_what_was_asked_for() {
    let mut c = Jobs::default();
    let b = body(r#"{ "band": { "f_lo": 1.0, "f_hi": 2.0 }, "profile": "deep" }"#);
    let (target, options) = match plan_post(&b, None).ok().unwrap() {
        Asked::Job(t, o) => (t, o),
        Asked::Stored(_) => panic!("a band is a job"),
    };
    let request = job(&b, analyze::resolve_band(target).unwrap(), options);
    let a = analyze::start(Some(&mut c), &request).ok().unwrap();
    assert_eq!(a.status, 202);
    assert!(same(&a.new, &parsed(r#"{ "id": "j1", "state": "queued" }"#)));
    assert!(analyze::read_list(Some(&c), &q(&[("state", "running")])).is_ok());
    let e = analyze::read_one(Some(&c), "j9", &q(&[])).err().unwrap();
    assert_eq!((e.status, e.code), (410, "gone"));
    assert!(analyze::read_traced(Some(&c), "j1", &q(&[("stage", "s"), ("tried", "true")])).is_ok());
    let a = analyze::cancel(Some(&mut c), "j1", &Vec::new()).ok().unwrap();
    assert_eq!(at(&a.new, &["forgotten"]), &Json::Bool(true));
    assert_eq!(
        c.0.taken(),
        vec![
            "start deep".to_owned(),
            "list Some(\"running\")".to_owned(),
            "get j9".to_owned(),
            "trace j1 Some(\"s\") Some(true)".to_owned(),
            "cancel j1".to_owned(),
        ]
    );
    assert!(analyze::read_list(Some(&c), &q(&[("x", "1")])).is_err());
    assert!(analyze::read_one(Some(&c), "j1", &q(&[("x", "1")])).is_err());
    assert!(analyze::cancel(Some(&mut c), "j1", &body(r#"{ "x": 1 }"#)).is_err());
    assert!(c.0.taken().is_empty(), "nothing is asked where the request is refused");
    let none: Option<&dyn AnalyzeControl> = None;
    assert_eq!(analyze::read_traced(none, "j1", &q(&[])).err().unwrap().status, 503);
    assert_eq!(analyze::start(None::<&mut Jobs>, &request).err().unwrap().status, 503);
    assert_eq!(analyze::cancel(None::<&mut Jobs>, "j1", &Vec::new()).err().unwrap().status, 503);
}

// ---------------------------------------------------------------------------------------------
// Attention
// ---------------------------------------------------------------------------------------------

#[derive(Default)]
struct Engine(Log);

impl AttentionControl for Engine {
    fn call(&mut self, call: AttentionCall) -> Result<AttentionAnswer, AttentionFail> {
        match call {
            AttentionCall::Candidates { limit, .. } => {
                self.0.note(format!("candidates {limit}"));
                Ok(AttentionAnswer::read(Json::uint(limit as u64)))
            }
            AttentionCall::SelectSite(s) => {
                self.0.note(format!("select {:?}", s.name));
                Ok(AttentionAnswer { body: Json::uint(1), old: Json::uint(2), new: Json::uint(3) })
            }
            _ => Err(AttentionFail { status: 409, code: "conflict", message: "busy".into() }),
        }
    }
}

#[test]
fn the_attention_service_is_handed_one_call() {
    let mut c = Engine::default();
    let v = attention::read(Some(&mut c), Route::Candidates, &q(&[("limit", "7")]), None);
    assert_eq!(number(&v.ok().unwrap()), 7.0);
    let e = attention::read(Some(&mut c), Route::Weights, &q(&[]), None).err().unwrap();
    assert_eq!((e.status, e.code, e.message.as_str()), (409, "conflict", "busy"));
    assert!(attention::read(Some(&mut c), Route::SelectSite, &q(&[]), None).is_err());
    let read = |c: &mut Engine, query: &[(&str, &str)]| {
        attention::read(Some(c), Route::Candidates, &q(query), None)
    };
    let signed = read(&mut c, &[("limit", "3"), ("token", "0123456789abcdef")]);
    assert_eq!(number(&signed.ok().unwrap()), 3.0, "a read may carry the token");
    assert_eq!(read(&mut c, &[("limit", "3"), ("tok", "x")]).err().unwrap().status, 400);
    let select = |c: Option<&mut dyn AttentionControl>, text: &str| {
        attention::change(c, Route::SelectSite, &body(text), "t".into(), None, Ok(()))
    };
    let a = select(Some(&mut c), r#"{ "name": "home" }"#).ok().unwrap();
    assert_eq!((number(&a.body), number(&a.old), number(&a.new)), (1.0, 2.0, 3.0));
    assert_eq!(select(Some(&mut c), "{}").err().unwrap().status, 400);
    assert_eq!(c.0.taken(), vec!["candidates 7", "candidates 3", "select Some(\"home\")"]);
    assert_eq!(select(None, r#"{ "name": "home" }"#).err().unwrap().status, 503);
}

// ---------------------------------------------------------------------------------------------
// The front end and the pipeline
// ---------------------------------------------------------------------------------------------

struct Radio {
    asked: Log,
    refuses: bool,
}

fn tuning(center: f64) -> LiveTuning {
    LiveTuning {
        center_hz: hz(center),
        sample_rate_hz: hz(20e6),
        gains: vec![NamedGain { stage: "lna".into(), db: hz(16.0) }],
        bias_tee: BiasTee::Off,
        baseband_filter_hz: None,
    }
}

impl Radio {
    fn take(&self, what: String, center: f64) -> Result<LiveTuning, LiveControlError> {
        self.asked.note(what);
        if self.refuses {
            return Err(LiveControlError { status: 504, code: "timeout", message: "slow".into() });
        }
        Ok(tuning(center))
    }
}

impl LiveControl for Radio {
    fn capabilities(&self) -> SourceCapabilities {
        SourceCapabilities {
            driver: "hackrf".into(),
            hardware: true,
            controllable: true,
            frequency_ranges: Vec::new(),
            sample_rates: Choices::Continuous(hz(2e6), hz(20e6)),
            tuning_step: "fine".into(),
            tuning_step_hz: None,
            gain_stages: Vec::new(),
            bias_tee: true,
            baseband_filter: None,
            adc_bits: Some(8),
            tx_capable: false,
        }
    }
    fn device_id(&self) -> Option<String> {
        Some("hackrf:a".into())
    }
    fn tuning(&self) -> LiveTuning {
        tuning(100e6)
    }
    fn set_center(&mut self, x: Real) -> Result<LiveTuning, LiveControlError> {
        self.take(format!("center {}", f64::from_bits(x.bits)), f64::from_bits(x.bits))
    }
    fn set_rate(&mut self, x: Real) -> Result<LiveTuning, LiveControlError> {
        self.take(format!("rate {}", f64::from_bits(x.bits)), 100e6)
    }
    fn set_window(&mut self, c: Real, r: Real) -> Result<LiveTuning, LiveControlError> {
        self.take(format!("window {} {}", f64::from_bits(c.bits), f64::from_bits(r.bits)), 1.0)
    }
    fn set_gains(&mut self, gains: &Vec<NamedGain>) -> Result<LiveTuning, LiveControlError> {
        self.take(format!("gains {} {}", gains[0].stage, f64::from_bits(gains[0].db.bits)), 1.0)
    }
    fn set_bias_tee(&mut self, enabled: bool) -> Result<LiveTuning, LiveControlError> {
        self.take(format!("bias {enabled}"), 1.0)
    }
    fn set_baseband_filter(&mut self, x: Real) -> Result<LiveTuning, LiveControlError> {
        self.take(format!("filter {}", f64::from_bits(x.bits)), 1.0)
    }
}

#[derive(Default)]
struct Pipeline(Log);

fn display(n: usize) -> DisplayState {
    DisplayState { fft_size: n, averaging: 1, rows_per_s: hz(10.0), window: "hann".into() }
}

fn recording(active: bool) -> RecordingState {
    RecordingState {
        active,
        id: None,
        label: None,
        center_hz: None,
        sample_rate_hz: None,
        samples: 0,
        lost_samples: 0,
        max_s: hz(60.0),
        stored: false,
        ended: None,
    }
}

impl RunControl for Pipeline {
    fn state(&self) -> RunState {
        RunState {
            live: true,
            content_class: None,
            content_permitted: true,
            center_hz: hz(100e6),
            sample_rate_hz: hz(20e6),
            segment: 4,
            replumbing: false,
            finished: false,
            capture: CaptureStatus::Running,
            capture_note: None,
            display: display(1024),
            recording: recording(false),
        }
    }
    fn display_limits(&self) -> DisplayLimits {
        DisplayLimits {
            fft_size_min: 64,
            fft_size_max: 65536,
            averaging_max: 100,
            rows_per_s_min: hz(1.0),
            rows_per_s_max: hz(60.0),
            windows: vec!["hann".into()],
        }
    }
    fn set_display(&mut self, update: &DisplayUpdate) -> Result<DisplayState, LiveControlError> {
        self.0.note(format!("display {:?}", update.fft_size));
        Ok(display(update.fft_size.unwrap_or(1024)))
    }
    fn start_recording(
        &mut self,
        label: Option<&str>,
        max_s: Option<Real>,
    ) -> Result<RecordingState, LiveControlError> {
        self.0.note(format!("start {label:?} {}", max_s.is_some()));
        Ok(recording(true))
    }
    fn stop_recording(&mut self) -> Result<RecordingState, LiveControlError> {
        self.0.note("stop".into());
        Err(LiveControlError { status: 409, code: "conflict", message: "not recording".into() })
    }
}

#[test]
fn each_command_is_one_device_action() {
    let mut radio = Radio { asked: Default::default(), refuses: false };
    let run = Pipeline::default();
    let a = act(&mut radio, Some(&run), &Command::Center(hz(433e6))).ok().unwrap();
    assert_eq!(number(at(&a.old, &["center_hz"])), 100e6);
    assert_eq!(number(at(&a.new, &["center_hz"])), 433e6);
    assert!(says(at(&a.body, &["device", "id"]), "hackrf:a"));
    assert_eq!(number(at(&a.body, &["run", "segment"])), 4.0);
    let gains = vec![NamedGain { stage: "vga".into(), db: hz(20.0) }];
    for c in [
        Command::Rate(hz(8e6)),
        Command::Window(hz(1e6), hz(2e6)),
        Command::Gains(gains),
        Command::BiasTee(true),
        Command::BasebandFilter(hz(5e6)),
    ] {
        assert!(act(&mut radio, None::<&Pipeline>, &c).is_ok());
    }
    assert_eq!(
        radio.asked.taken(),
        vec![
            "center 433000000",
            "rate 8000000",
            "window 1000000 2000000",
            "gains vga 20",
            "bias true",
            "filter 5000000",
        ]
    );
    let mut radio = Radio { asked: Default::default(), refuses: true };
    let e = act(&mut radio, Some(&run), &Command::BiasTee(true)).err().unwrap();
    assert_eq!((e.status, e.code, e.message.as_str()), (504, "timeout", "slow"));
    assert_eq!(radio.asked.taken(), vec!["bias true"], "asked once, and refused");
}

#[test]
fn the_pipeline_is_told_what_to_show_and_record() {
    let mut run = Pipeline::default();
    let update = DisplayUpdate {
        fft_size: Some(4096),
        averaging: None,
        rows_per_s: None,
        window: None,
    };
    let a = change(&mut run, &Command::Display(update)).ok().unwrap();
    assert_eq!(number(at(&a.old, &["fft_size"])), 1024.0);
    assert_eq!(number(at(&a.body, &["display", "fft_size"])), 4096.0);
    let a = change(&mut run, &Command::RecordStart(Some("l".into()), None)).ok().unwrap();
    assert_eq!(at(&a.old, &["active"]), &Json::Bool(false));
    assert_eq!(at(&a.new, &["active"]), &Json::Bool(true));
    assert_eq!(change(&mut run, &Command::RecordStop).err().unwrap().status, 409);
    assert_eq!(
        run.0.taken(),
        vec!["display Some(4096)", "start Some(\"l\") false", "stop"]
    );
}

#[test]
fn a_snapshot_says_what_runs() {
    let radio = Radio { asked: Default::default(), refuses: false };
    let s = snapshot(Some(&radio), None::<&Pipeline>, None, true).to_json();
    assert_eq!(at(&s, &["live"]), &Json::Bool(true));
    assert_eq!(number(at(&s, &["tuning", "center_hz"])), 100e6);
    assert_eq!(at(&s, &["device", "device_id"]).string(), Some("hackrf:a"));
    assert_eq!(at(&s, &["run"]), &Json::Null);
    assert_eq!(at(&s, &["transmit", "available"]), &Json::Bool(false));
    let s = snapshot(None::<&Radio>, Some(&Pipeline::default()), None, false).to_json();
    assert_eq!(at(&s, &["device"]), &Json::Null);
    assert_eq!(number(at(&s, &["display_limits", "fft_size_max"])), 65536.0);
    assert_eq!(at(&s, &["audit"]), &Json::Bool(false));
}

#[test]
fn an_action_is_carried_out_by_what_it_is_for() {
    let mut radio = Radio { asked: Default::default(), refuses: false };
    let mut run = Pipeline::default();
    let mut apply = |action: Action, text: &str| {
        let r = apply_action(Some(&mut radio), Some(&mut run), true, true, action, &body(text), 64);
        (r, radio.asked.taken(), run.0.taken())
    };
    let (r, asked, ran) = apply(Action::Window, r#"{ "center_hz": 1e6, "sample_rate_hz": 2e6 }"#);
    match r {
        Applying::Done(Ok(a)) => assert_eq!(number(at(&a.new, &["center_hz"])), 1.0),
        _ => panic!("the front end answers"),
    }
    assert_eq!(asked, vec!["window 1000000 2000000"], "once");
    assert!(ran.is_empty());
    let (r, asked, ran) = apply(Action::Window, r#"{ "center_hz": 1e6 }"#);
    assert!(matches!(r, Applying::Done(Err(f)) if f.status == 400), "half a window is refused");
    assert!(asked.is_empty() && ran.is_empty(), "and nothing is set");
    let (r, asked, ran) = apply(Action::RecordStop, "{}");
    assert!(matches!(r, Applying::Done(Err(f)) if f.status == 409));
    assert_eq!(ran, vec!["stop"]);
    assert!(asked.is_empty());
    let (r, asked, ran) = apply(Action::ScanStop, "{}");
    assert!(matches!(r, Applying::Left(Command::ScanStop)));
    assert!(asked.is_empty() && ran.is_empty());
    let none = apply_action(
        None::<&mut Radio>,
        None::<&mut Pipeline>,
        false,
        false,
        Action::BiasTee,
        &body(r#"{ "enabled": true }"#),
        64,
    );
    assert!(matches!(none, Applying::Done(Err(f)) if f.status == 409 && f.code == "not_live"));
}
