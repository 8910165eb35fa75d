//! The front end that a server tunes and the pipeline that it runs, and acting on them.
//!
//! A request drives either through a handle of its own. What is asked through a handle is counted in
//! its dealings, so that a contract can say what was asked and that nothing else was.

use vstd::prelude::*;

use crate::body::{fail_v, Fail, FailV};
use crate::command::{
    display_update_view, gains_view, plan, planned, Available, Command, CommandV,
};
use crate::control::{
    Action, DeviceAction, DisplayLimits, DisplayState, DisplayUpdate, LiveTuning, NamedGain,
    RecordingState, RunState, Snapshot, SourceCapabilities,
};
use crate::dispatch::{
    applied_result, displayed, recorded, single_v, tuned, tuned_v, Applied, AppliedV,
};
use crate::double::Real;
use crate::json::{fields_view, Json, ToJson};
use crate::store::{dealt, record};
use crate::text::{opt_string, opt_text};

verus! {

/// What a front end or a pipeline refuses.
#[derive(Clone, Debug, PartialEq, Eq)]
pub struct LiveControlError {
    /// The HTTP status.
    pub status: u16,
    /// A machine code.
    pub code: &'static str,
    /// What went wrong, in words.
    pub message: String,
}

/// A refusal as it is answered.
pub open spec fn live_fail_of(e: LiveControlError) -> FailV {
    fail_v(e.status, e.code@, e.message@)
}

/// [`live_fail_of`].
pub fn live_fail(e: LiveControlError) -> (r: Fail)
    ensures
        r@ == live_fail_of(e),
{
    Fail::new(e.status, e.code, e.message)
}

/// What the pipeline made of a command.
pub enum RunAnswer {
    /// Of a display update.
    Display(Result<DisplayState, LiveControlError>),
    /// Of a recording started or stopped.
    Recording(Result<RecordingState, LiveControlError>),
}

/// A live front end, as one request holds it. Each setting is one device action and answers with
/// what the device took; reading asks nothing of the device. An implementation adds one dealing for
/// each setting that is asked for.
pub trait LiveControl {
    /// The settings asked for through this handle so far, each with its answer.
    open spec fn dealings(&self) -> Seq<(CommandV, Result<LiveTuning, LiveControlError>)> {
        record(self)
    }

    /// What the front end can do.
    fn capabilities(&self) -> (r: SourceCapabilities);

    /// Which front end it is.
    fn device_id(&self) -> (r: Option<String>);

    /// What is in force.
    fn tuning(&self) -> (r: LiveTuning);

    /// Sets the centre frequency, Hz.
    fn set_center(&mut self, hz: Real) -> (r: Result<LiveTuning, LiveControlError>)
        ensures
            final(self).dealings() == old(self).dealings().push((CommandV::Center(hz), r)),
    ;

    /// Sets the sample rate, Hz.
    fn set_rate(&mut self, hz: Real) -> (r: Result<LiveTuning, LiveControlError>)
        ensures
            final(self).dealings() == old(self).dealings().push((CommandV::Rate(hz), r)),
    ;

    /// Sets centre and rate as one action.
    fn set_window(&mut self, center_hz: Real, sample_rate_hz: Real) -> (r: Result<
        LiveTuning,
        LiveControlError,
    >)
        ensures
            final(self).dealings() == old(self).dealings().push(
                (CommandV::Window(center_hz, sample_rate_hz), r),
            ),
    ;

    /// Sets these gains.
    fn set_gains(&mut self, gains: &Vec<NamedGain>) -> (r: Result<LiveTuning, LiveControlError>)
        ensures
            final(self).dealings() == old(self).dealings().push(
                (CommandV::Gains(gains_view(gains@)), r),
            ),
    ;

    /// Switches the bias tee.
    fn set_bias_tee(&mut self, enabled: bool) -> (r: Result<LiveTuning, LiveControlError>)
        ensures
            final(self).dealings() == old(self).dealings().push((CommandV::BiasTee(enabled), r)),
    ;

    /// Sets the baseband filter, Hz.
    fn set_baseband_filter(&mut self, hz: Real) -> (r: Result<LiveTuning, LiveControlError>)
        ensures
            final(self).dealings() == old(self).dealings().push((CommandV::BasebandFilter(hz), r)),
    ;
}

/// Display and recording control of the running pipeline, of recordings and live runs alike, as one
/// request holds it.
pub trait RunControl {
    /// The commands given through this handle so far, each with its answer.
    open spec fn dealings(&self) -> Seq<(CommandV, RunAnswer)> {
        record(self)
    }

    /// The run's state.
    fn state(&self) -> (r: RunState);

    /// The bounds that [`RunControl::set_display`] accepts.
    fn display_limits(&self) -> (r: DisplayLimits);

    /// Applies a display update, all or nothing.
    fn set_display(&mut self, update: &DisplayUpdate) -> (r: Result<DisplayState, LiveControlError>)
        ensures
            final(self).dealings() == old(self).dealings().push(
                (CommandV::Display(display_update_view(*update)), RunAnswer::Display(r)),
            ),
    ;

    /// Starts a manual recording of the tuned window.
    fn start_recording(&mut self, label: Option<&str>, max_s: Option<Real>) -> (r: Result<
        RecordingState,
        LiveControlError,
    >)
        ensures
            final(self).dealings() == old(self).dealings().push(
                (CommandV::RecordStart(opt_text(label), max_s), RunAnswer::Recording(r)),
            ),
    ;

    /// Stops the manual recording.
    fn stop_recording(&mut self) -> (r: Result<RecordingState, LiveControlError>)
        ensures
            final(self).dealings() == old(self).dealings().push(
                (CommandV::RecordStop, RunAnswer::Recording(r)),
            ),
    ;
}

// ---------------------------------------------------------------------------------------------
// What is there
// ---------------------------------------------------------------------------------------------

/// What a snapshot holds of a front end and a pipeline: each part as they said it.
pub open spec fn snapshot_of<L: LiveControl + ?Sized, R: RunControl + ?Sized>(
    live: Option<&L>,
    run: Option<&R>,
    s: Snapshot,
) -> bool {
    &&& match live {
        Some(l) => s.live matches Some((id, c, t)) && call_ensures(L::device_id, (l,), id)
            && call_ensures(L::capabilities, (l,), c) && call_ensures(L::tuning, (l,), t),
        None => s.live is None,
    }
    &&& match run {
        Some(r) => s.run matches Some((state, limits)) && call_ensures(R::state, (r,), state)
            && call_ensures(R::display_limits, (r,), limits),
        None => s.run is None,
    }
}

/// What the server runs.
pub fn snapshot<L: LiveControl + ?Sized, R: RunControl + ?Sized>(
    live: Option<&L>,
    run: Option<&R>,
    scan: Option<Json>,
    audit: bool,
) -> (s: Snapshot)
    ensures
        snapshot_of(live, run, s),
        s.scan == scan,
        s.audit == audit,
{
    let live = match live {
        Some(l) => Some((l.device_id(), l.capabilities(), l.tuning())),
        None => None,
    };
    let run = match run {
        Some(r) => Some((r.state(), r.display_limits())),
        None => None,
    };
    Snapshot { live, run, scan, audit }
}

// ---------------------------------------------------------------------------------------------
// Device actions
// ---------------------------------------------------------------------------------------------

/// The device action that a command is.
pub open spec fn device_action_of(c: CommandV) -> Option<DeviceAction> {
    match c {
        CommandV::Center(_) => Some(DeviceAction::Retune),
        CommandV::Rate(_) => Some(DeviceAction::Rate),
        CommandV::Window(_, _) => Some(DeviceAction::Window),
        CommandV::Gains(_) => Some(DeviceAction::Gains),
        CommandV::BiasTee(_) => Some(DeviceAction::BiasTee),
        CommandV::BasebandFilter(_) => Some(DeviceAction::BasebandFilter),
        _ => None,
    }
}

fn command<L: LiveControl + ?Sized>(live: &mut L, c: &Command) -> (r: Option<
    (DeviceAction, Result<LiveTuning, LiveControlError>),
>)
    ensures
        match r {
            Some((action, answer)) => device_action_of(c@) == Some(action) && dealt(
                old(live).dealings(),
                final(live).dealings(),
                c@,
                answer,
            ),
            None => device_action_of(c@) is None && final(live).dealings() == old(live).dealings(),
        },
{
    match c {
        Command::Center(hz) => Some((DeviceAction::Retune, live.set_center(*hz))),
        Command::Rate(hz) => Some((DeviceAction::Rate, live.set_rate(*hz))),
        Command::Window(center, rate) => Some(
            (DeviceAction::Window, live.set_window(*center, *rate)),
        ),
        Command::Gains(gains) => Some((DeviceAction::Gains, live.set_gains(gains))),
        Command::BiasTee(on) => Some((DeviceAction::BiasTee, live.set_bias_tee(*on))),
        Command::BasebandFilter(hz) => Some(
            (DeviceAction::BasebandFilter, live.set_baseband_filter(*hz)),
        ),
        _ => None,
    }
}

/// The run's state where a pipeline runs.
pub open spec fn run_said<R: RunControl + ?Sized>(run: Option<&R>, s: Option<RunState>) -> bool {
    match run {
        Some(r) => s matches Some(s) && call_ensures(R::state, (r,), s),
        None => s is None,
    }
}

/// What a device action is answered with: the tuning before it, what the device took of it, and
/// the run and the front end's name after it. What the device refuses is answered as it said it.
pub open spec fn acted<L: LiveControl + ?Sized, R: RunControl + ?Sized>(
    live: &L,
    after: &L,
    run: Option<&R>,
    c: CommandV,
    answer: Result<LiveTuning, LiveControlError>,
    r: Result<AppliedV, FailV>,
) -> bool {
    exists|before: LiveTuning| #[trigger]
        call_ensures(L::tuning, (live,), before) && match answer {
            Err(e) => r == Err::<AppliedV, FailV>(live_fail_of(e)),
            Ok(took) => exists|state: Option<RunState>, id: Option<String>|
                #![trigger run_said(run, state), call_ensures(L::device_id, (after,), id)]
                run_said(run, state) && call_ensures(L::device_id, (after,), id) && r == Ok::<
                    AppliedV,
                    FailV,
                >(tuned_v(device_action_of(c)->0, before, took, state, opt_string(id))),
        }
}

/// Carries out a device action: the front end is asked for that one setting, and the answer is
/// [`acted`] of its answer.
pub fn act<L: LiveControl + ?Sized, R: RunControl + ?Sized>(
    live: &mut L,
    run: Option<&R>,
    c: &Command,
) -> (r: Result<Applied, Fail>)
    requires
        device_action_of(c@) is Some,
    ensures
        exists|answer: Result<LiveTuning, LiveControlError>|
            #[trigger] dealt(old(live).dealings(), final(live).dealings(), c@, answer) && acted(
                &*old(live),
                &*final(live),
                run,
                c@,
                answer,
                applied_result(r),
            ),
{
    let before = live.tuning();
    let (action, answer) = match command(live, c) {
        Some(x) => x,
        None => return Err(Fail::of(500, "failed", "not a control action")),
    };
    match answer {
        Err(e) => {
            assert(dealt(old(live).dealings(), live.dealings(), c@, Err(e)));
            Err(live_fail(e))
        },
        Ok(took) => {
            let state = match run {
                Some(r) => Some(r.state()),
                None => None,
            };
            let id = live.device_id();
            assert(run_said(run, state));
            assert(dealt(old(live).dealings(), live.dealings(), c@, Ok(took)));
            Ok(tuned(action, &before, &took, &state, &id))
        },
    }
}

// ---------------------------------------------------------------------------------------------
// The display and the recording
// ---------------------------------------------------------------------------------------------

/// A command to the pipeline.
pub open spec fn is_run_command(c: CommandV) -> bool {
    c is Display || c is RecordStart || c is RecordStop
}

/// What a command to the pipeline is answered with: what was before, and what the pipeline made of
/// the command. What it refuses is answered as it said it.
pub open spec fn changed<R: RunControl + ?Sized>(
    run: &R,
    answer: RunAnswer,
    r: Result<AppliedV, FailV>,
) -> bool {
    exists|before: RunState| #[trigger]
        call_ensures(R::state, (run,), before) && r == (match answer {
            RunAnswer::Display(Err(e)) => Err(live_fail_of(e)),
            RunAnswer::Display(Ok(after)) => Ok(
                single_v("display"@, before.display.json_v(), after.json_v()),
            ),
            RunAnswer::Recording(Err(e)) => Err(live_fail_of(e)),
            RunAnswer::Recording(Ok(after)) => Ok(
                single_v("recording"@, before.recording.json_v(), after.json_v()),
            ),
        })
}

/// Carries out a command to the pipeline: it is given that one command, and the answer is
/// [`changed`] of its answer.
pub fn change<R: RunControl + ?Sized>(run: &mut R, c: &Command) -> (r: Result<Applied, Fail>)
    requires
        is_run_command(c@),
    ensures
        exists|answer: RunAnswer|
            #[trigger] dealt(old(run).dealings(), final(run).dealings(), c@, answer) && (answer
                is Display == c@ is Display) && changed(&*old(run), answer, applied_result(r)),
{
    let before = run.state();
    match c {
        Command::Display(update) => {
            let answer = run.set_display(update);
            assert(dealt(old(run).dealings(), run.dealings(), c@, RunAnswer::Display(answer)));
            match answer {
                Ok(after) => Ok(displayed(&before.display, &after)),
                Err(e) => Err(live_fail(e)),
            }
        },
        Command::RecordStart(label, max_s) => {
            let given = match label {
                Some(s) => Some(s.as_str()),
                None => None,
            };
            let answer = run.start_recording(given, *max_s);
            assert(dealt(old(run).dealings(), run.dealings(), c@, RunAnswer::Recording(answer)));
            match answer {
                Ok(after) => Ok(recorded(&before.recording, &after)),
                Err(e) => Err(live_fail(e)),
            }
        },
        Command::RecordStop => {
            let answer = run.stop_recording();
            assert(dealt(old(run).dealings(), run.dealings(), c@, RunAnswer::Recording(answer)));
            match answer {
                Ok(after) => Ok(recorded(&before.recording, &after)),
                Err(e) => Err(live_fail(e)),
            }
        },
        _ => Err(Fail::of(500, "failed", "not a control action")),
    }
}

// ---------------------------------------------------------------------------------------------
// From a body to what was done
// ---------------------------------------------------------------------------------------------

/// What became of an action.
pub enum Applying {
    /// It was refused, or the front end or the pipeline answered it.
    Done(Result<Applied, Fail>),
    /// A command for a sweep or a store, which the caller carries out.
    Left(Command),
}

/// What became of an action, in plain values.
pub enum ApplyingV {
    /// It was refused, or the front end or the pipeline answered it.
    Done(Result<AppliedV, FailV>),
    /// A command for a sweep or a store.
    Left(CommandV),
}

impl Applying {
    /// What it holds.
    pub open spec fn view(&self) -> ApplyingV {
        match *self {
            Applying::Done(r) => ApplyingV::Done(applied_result(r)),
            Applying::Left(c) => ApplyingV::Left(c@),
        }
    }
}

/// Reads what an action's body asks for and carries it out. A body that is refused asks for
/// nothing; a device action asks the front end for that one setting and the pipeline for nothing; a
/// command to the pipeline is the other way about; anything else is left to the caller. `scan` and
/// `bookmarks` say whether the server has these.
pub fn apply_action<L: LiveControl + ?Sized, R: RunControl + ?Sized>(
    live: Option<&mut L>,
    run: Option<&mut R>,
    scan: bool,
    bookmarks: bool,
    action: Action,
    body: &Vec<(String, Json)>,
    name_max: usize,
) -> (r: Applying)
    ensures
        ({
            let server = Available { live: live is Some, run: run is Some, scan, bookmarks };
            let asked = planned(action, fields_view(body@), server, name_max);
            &&& match asked {
                Err(f) => r@ == ApplyingV::Done(Err(f)),
                Ok(c) => device_action_of(c) is None && !is_run_command(c) ==> r@
                    == ApplyingV::Left(c),
            }
            &&& match (live, asked) {
                (None, Ok(c)) => device_action_of(c) is None,
                (None, Err(_)) => true,
                (Some(l), Ok(c)) if device_action_of(c) is Some => r@ matches ApplyingV::Done(d)
                    && exists|answer: Result<LiveTuning, LiveControlError>|
                    #[trigger] dealt(l.dealings(), final(l).dealings(), c, answer) && acted(
                        &*l,
                        &*final(l),
                        match run {
                            Some(p) => Some(&*p),
                            None => None,
                        },
                        c,
                        answer,
                        d,
                    ),
                (Some(l), _) => final(l).dealings() == l.dealings(),
            }
            &&& match (run, asked) {
                (None, Ok(c)) => !is_run_command(c),
                (None, Err(_)) => true,
                (Some(p), Ok(c)) if is_run_command(c) => r@ matches ApplyingV::Done(d) && exists|
                    answer: RunAnswer,
                |
                    #[trigger] dealt(p.dealings(), final(p).dealings(), c, answer) && (answer
                        is Display == c is Display) && changed(&*p, answer, d),
                (Some(p), _) => final(p).dealings() == p.dealings(),
            }
        }),
{
    let server = Available { live: live.is_some(), run: run.is_some(), scan, bookmarks };
    let c = match plan(action, body, server, name_max) {
        Ok(c) => c,
        Err(f) => return Applying::Done(Err(f)),
    };
    match &c {
        Command::Center(_)
        | Command::Rate(_)
        | Command::Window(_, _)
        | Command::Gains(_)
        | Command::BiasTee(_)
        | Command::BasebandFilter(_) => match live {
            Some(l) => {
                let running = match run {
                    Some(p) => Some(&*p),
                    None => None,
                };
                Applying::Done(act(l, running, &c))
            },
            None => Applying::Done(Err(Fail::of(500, "failed", "not a control action"))),
        },
        Command::Display(_) | Command::RecordStart(_, _) | Command::RecordStop => match run {
            Some(p) => Applying::Done(change(p, &c)),
            None => Applying::Done(Err(Fail::of(500, "failed", "not a control action"))),
        },
        _ => Applying::Left(c),
    }
}

/// A command to a front end is logged as what it does; a command to the run is none of these. What a
/// handle refuses is passed on.
pub proof fn commands_do_what_they_are_logged_as(c: CommandV, e: LiveControlError)
    ensures
        c is Center <==> device_action_of(c) == Some(DeviceAction::Retune),
        c is Rate <==> device_action_of(c) == Some(DeviceAction::Rate),
        c is Window <==> device_action_of(c) == Some(DeviceAction::Window),
        c is Gains <==> device_action_of(c) == Some(DeviceAction::Gains),
        c is BiasTee <==> device_action_of(c) == Some(DeviceAction::BiasTee),
        c is BasebandFilter <==> device_action_of(c) == Some(DeviceAction::BasebandFilter),
        c is Display || c is RecordStart || c is RecordStop ==> is_run_command(c)
            && device_action_of(c) is None,
        device_action_of(c) is Some ==> !is_run_command(c),
        live_fail_of(e).status == e.status && live_fail_of(e).message == e.message@,
        live_fail_of(e).code == e.code@,
{
}

} // verus!
