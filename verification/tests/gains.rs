//! Runs of the gain manager over a front end that quantises, and can refuse.

use hk_api::control::NamedGain;
use hk_api::double::Real;
use hk_api::gain::{GainManager, GainRunError, GainState, GainStep, Order};
use hk_api::run::LiveControlError;

fn db(x: f64) -> Real {
    Real { bits: x.to_bits() }
}

fn of(r: Real) -> f64 {
    f64::from_bits(r.bits)
}

fn state(lna: f64, vga: f64, amp: f64) -> GainState {
    let g = |stage: &str, x: f64| NamedGain { stage: stage.to_owned(), db: db(x) };
    GainState { gains: vec![g("lna", lna), g("vga", vga), g("amp", amp)] }
}

fn total(s: &GainState) -> f64 {
    s.gains.iter().map(|g| of(g.db)).sum()
}

/// The grid of the front end: LNA by 8 dB, VGA by 2 dB, the amplifier on or off.
fn quantise(stage: &str, x: f64) -> f64 {
    match stage {
        "lna" => (x / 8.0).round() * 8.0,
        "vga" => (x / 2.0).round() * 2.0,
        _ => if x > 5.5 { 11.0 } else { 0.0 },
    }
}

/// The refusal of the `n`-th action: another one holds the device.
fn busy(n: usize) -> LiveControlError {
    LiveControlError {
        status: 409,
        code: "device_busy",
        message: format!("action {n}: the device is busy with a retune"),
    }
}

/// A front end that records every action and can be made to refuse one.
struct Spy {
    now: GainState,
    applied: Vec<GainState>,
    refuse_at: usize,
    refuse_from: usize,
    calls: usize,
}

impl Spy {
    fn new() -> Self {
        Spy {
            now: state(32.0, 30.0, 11.0),
            applied: Vec::new(),
            refuse_at: usize::MAX,
            refuse_from: usize::MAX,
            calls: 0,
        }
    }

    fn set_gains(&mut self, asked: &GainState) -> Result<GainState, LiveControlError> {
        let n = self.calls;
        self.calls += 1;
        if n == self.refuse_at || n >= self.refuse_from {
            return Err(busy(n));
        }
        let gains = asked
            .gains
            .iter()
            .map(|g| NamedGain { stage: g.stage.clone(), db: db(quantise(&g.stage, of(g.db))) })
            .collect();
        self.now = GainState { gains };
        self.applied.push(self.now.copy());
        Ok(self.now.copy())
    }
}

/// A bounded search downward: it probes, and commits what scored best.
struct Search {
    enabled: bool,
    max_probes: usize,
    now_s: f64,
    running: bool,
    probed: Vec<(GainState, f64)>,
    last_commit_s: Option<f64>,
    settled: Option<GainState>,
}

impl Search {
    fn new(enabled: bool) -> Self {
        Search {
            enabled,
            max_probes: 12,
            now_s: 0.0,
            running: false,
            probed: Vec::new(),
            last_commit_s: None,
            settled: None,
        }
    }

    fn trigger(&mut self) -> bool {
        let recent = self.last_commit_s.is_some_and(|t| self.now_s - t < 300.0);
        if !self.enabled || self.running || recent {
            return false;
        }
        self.running = true;
        self.probed.clear();
        true
    }

    fn next_step(&self) -> GainStep {
        if self.probed.len() < self.max_probes {
            let k = self.probed.len() as f64;
            return GainStep::Probe(state(32.0 - 8.0 * (k / 4.0).floor(), 31.0 - 4.0 * (k % 4.0), 0.0));
        }
        let best = self
            .probed
            .iter()
            .max_by(|a, b| a.1.total_cmp(&b.1))
            .map(|(s, _)| s.copy())
            .unwrap();
        GainStep::Commit(best)
    }
}

struct Report {
    probes: usize,
    committed: GainState,
}

/// What a receiver would decode in this state: nothing at either end, a window in the middle.
fn scene(total_db: f64) -> f64 {
    let clip = if total_db < 46.0 {
        0.0
    } else {
        (1e-3 * 10f64.powf((total_db - 50.0) / 4.0)).min(0.95)
    };
    if total_db < 20.0 || clip > 3e-3 {
        return 0.0;
    }
    let snr = total_db - 26.0 - 60.0 * clip;
    if snr > 12.0 {
        (snr - 12.0) * 1.5
    } else {
        0.0
    }
}

fn run(
    m: &mut GainManager,
    spy: &mut Spy,
    search: &mut Search,
    mut measure: impl FnMut(&GainState, usize) -> Result<f64, String>,
) -> Result<Option<Report>, GainRunError> {
    let from = spy.now.copy();
    let starts = search.trigger();
    let mut order = m.run(from, starts);
    let mut committing = None;
    let mut measured = None;
    loop {
        order = match order {
            Order::Decide => {
                let step = search.next_step();
                if let GainStep::Commit(s) = &step {
                    committing = Some(s.copy());
                }
                m.step(step)
            }
            Order::Command(s) => {
                let took = spy.set_gains(&s);
                m.applied(took)
            }
            Order::Measure(took) => match measure(&took, search.probed.len()) {
                Ok(score) => {
                    measured = Some((took, score));
                    m.measured(Ok(()))
                }
                Err(why) => m.measured(Err(why)),
            },
            Order::Observe => {
                search.probed.push(measured.take().unwrap());
                m.observed(Ok(()))
            }
            Order::Restore(s) => {
                search.running = false;
                let took = spy.set_gains(&s);
                m.applied(took)
            }
            Order::Nothing => return Ok(None),
            Order::Settle => {
                search.running = false;
                search.last_commit_s = Some(search.now_s);
                search.settled = committing.as_ref().map(GainState::copy);
                return Ok(Some(Report {
                    probes: search.probed.len(),
                    committed: committing.unwrap(),
                }));
            }
            Order::Fail(e) => return Err(e),
        };
    }
}

fn good(took: &GainState, _: usize) -> Result<f64, String> {
    Ok(scene(total(took)))
}

fn manager() -> GainManager {
    GainManager::new(3, "hackrf").unwrap()
}

#[test]
fn a_disabled_policy_issues_no_device_action_at_all() {
    let (mut m, mut spy, mut search) = (manager(), Spy::new(), Search::new(false));
    assert!(run(&mut m, &mut spy, &mut search, good).unwrap().is_none());
    assert_eq!(m.device_actions(), 0);
    assert!(spy.applied.is_empty(), "the radio was touched while off");
}

#[test]
fn every_probe_is_one_gains_action_and_the_run_commits_the_best_state() {
    let (mut m, mut spy, mut search) = (manager(), Spy::new(), Search::new(true));
    assert_eq!(total(&spy.now), 73.0, "the explorer's overloaded state");
    let report = run(&mut m, &mut spy, &mut search, good).unwrap().expect("a run");
    // One device action per probe, plus the commit.
    assert_eq!(m.device_actions() as usize, report.probes + 1);
    assert_eq!(spy.applied.len(), report.probes + 1);
    // It came down, and the state it left the radio in decodes.
    assert!(total(&report.committed) < 73.0);
    assert_eq!(spy.now, report.committed);
    assert!(scene(total(&report.committed)) > 0.0, "committed a state that decodes nothing");
}

#[test]
fn the_probe_is_measured_under_what_the_device_took_not_what_was_asked_for() {
    let (mut m, mut spy, mut search) = (manager(), Spy::new(), Search::new(true));
    run(&mut m, &mut spy, &mut search, |took, n| {
        // The search asks for odd VGA values; the device takes its own grid.
        for g in &took.gains {
            assert_eq!(quantise(&g.stage, of(g.db)), of(g.db), "{} {:?}", g.stage, g.db);
        }
        good(took, n)
    })
    .unwrap()
    .unwrap();
    for (took, _) in &search.probed {
        assert!(spy.applied.contains(took));
    }
}

#[test]
fn a_refused_device_action_puts_the_front_end_back_and_says_why() {
    let (mut m, mut spy, mut search) = (manager(), Spy::new(), Search::new(true));
    spy.refuse_at = 3;
    let started = spy.now.copy();
    let err = run(&mut m, &mut spy, &mut search, good).err().unwrap();
    assert_eq!(err, GainRunError::Control(busy(3)));
    assert!(err.message().contains("refused"), "{}", err.message());
    assert!(err.message().ends_with("busy with a retune"), "{}", err.message());
    // The 4th call was refused; the 5th is the restore.
    assert_eq!(spy.calls, 5);
    assert_eq!(spy.now, started, "an interrupted run left the radio on a probe");
}

#[test]
fn a_front_end_that_keeps_refusing_still_reports_the_first_failure() {
    let (mut m, mut spy, mut search) = (manager(), Spy::new(), Search::new(true));
    spy.refuse_from = 2;
    let err = run(&mut m, &mut spy, &mut search, good).err().unwrap();
    // The restore was refused too: the caller is told that the probe was.
    assert_eq!(err, GainRunError::Control(busy(2)));
    assert_eq!(spy.applied.len(), 2, "only the accepted calls landed");
}

#[test]
fn a_probe_that_cannot_be_measured_ends_the_run_rather_than_guessing() {
    let (mut m, mut spy, mut search) = (manager(), Spy::new(), Search::new(true));
    let started = spy.now.copy();
    let err = run(&mut m, &mut spy, &mut search, |took, n| {
        if n < 2 {
            good(took, n)
        } else {
            Err("the ring had no contiguous dwell at this state".into())
        }
    })
    .err()
    .unwrap();
    assert!(matches!(err, GainRunError::Measure(_)), "{}", err.message());
    assert_eq!(
        err.message(),
        "a gain probe could not be measured: the ring had no contiguous dwell at this state"
    );
    assert_eq!(spy.now, started, "the radio must be put back");
}

#[test]
fn after_a_refused_probe_a_later_run_still_happens() {
    let (mut m, mut spy, mut search) = (manager(), Spy::new(), Search::new(true));
    spy.refuse_at = 3;
    let started = spy.now.copy();
    let err = run(&mut m, &mut spy, &mut search, good).err().unwrap();
    assert!(matches!(err, GainRunError::Control(_)), "{}", err.message());
    assert!(!m.running(), "the run must not still be open");
    assert_eq!(search.settled, None, "it decided nothing");
    // The front end is still managed.
    let report = run(&mut m, &mut spy, &mut search, good)
        .expect("the second run must not fail")
        .expect("and must not be silently refused");
    assert!(total(&report.committed) < total(&started));
    assert_eq!(search.settled.as_ref(), Some(&report.committed));
    assert_eq!(spy.now, report.committed);
}

#[test]
fn a_refused_commit_settles_nothing_and_does_not_block_the_next_run() {
    let (mut m, mut spy, mut search) = (manager(), Spy::new(), Search::new(true));
    search.max_probes = 2;
    // Two probes then the commit: calls 0 and 1 are the probes, call 2 is the commit.
    spy.refuse_at = 2;
    let started = spy.now.copy();
    let err = run(&mut m, &mut spy, &mut search, good).err().unwrap();
    assert!(matches!(err, GainRunError::Control(_)), "{}", err.message());
    assert_eq!(search.settled, None, "a commit the device refused settles nothing");
    assert_eq!(spy.now, started);
    // And no re-run interval was started for a state the radio never reached.
    spy.refuse_at = usize::MAX;
    assert!(run(&mut m, &mut spy, &mut search, good).unwrap().is_some());
}

#[test]
fn a_second_run_inside_the_rerun_interval_issues_nothing() {
    let (mut m, mut spy, mut search) = (manager(), Spy::new(), Search::new(true));
    search.now_s = 500.0;
    assert!(run(&mut m, &mut spy, &mut search, good).unwrap().is_some());
    let actions = m.device_actions();
    assert!(run(&mut m, &mut spy, &mut search, good).unwrap().is_none());
    assert_eq!(m.device_actions(), actions, "a refused run costs nothing");
}

#[test]
fn a_device_with_no_adjustable_gain_has_no_manager() {
    let err = match GainManager::new(0, "replay") {
        Ok(_) => panic!("a device with no gain stage got a gain manager"),
        Err(e) => e,
    };
    assert_eq!(err.driver, "replay");
}

#[test]
fn a_search_that_refuses_a_measurement_ends_the_run() {
    let mut m = manager();
    assert_eq!(m.run(state(0.0, 0.0, 0.0), true), Order::Decide);
    assert!(matches!(m.step(GainStep::Probe(state(8.0, 0.0, 0.0))), Order::Command(_)));
    assert!(matches!(m.applied(Ok(state(8.0, 0.0, 0.0))), Order::Measure(_)));
    assert_eq!(m.measured(Ok(())), Order::Observe);
    assert_eq!(
        m.observed(Err("another state".to_owned())),
        Order::Restore(state(0.0, 0.0, 0.0))
    );
    match m.applied(Ok(state(0.0, 0.0, 0.0))) {
        Order::Fail(e) => assert_eq!(e.message(), "another state"),
        other => panic!("{other:?}"),
    }
    assert_eq!(m.run(state(0.0, 0.0, 0.0), true), Order::Decide);
    assert_eq!(m.step(GainStep::Hold), Order::Nothing);
    assert!(!m.running());
}
