//! The actuator of automatic gain management: one run commands the front end through a bounded
//! search that another decides.
//!
//! A [`GainManager`] says what is done next; the caller does it and says what came of it. Every
//! probe is one device action, and is measured under the state that the device took. A run that
//! cannot finish puts the front end back.

use vstd::prelude::*;

use crate::body::FailV;
use crate::control::NamedGain;
use crate::double::Real;
use crate::run::{live_fail_of, LiveControlError};

verus! {

/// The gains of a front end.
#[derive(Debug, PartialEq, Eq)]
pub struct GainState {
    /// The stages.
    pub gains: Vec<NamedGain>,
}

impl GainState {
    /// The stages and their values.
    pub open spec fn view(&self) -> Seq<(Seq<char>, Real)> {
        self.gains@.map_values(|g: NamedGain| (g.stage@, g.db))
    }

    /// The same gains again.
    pub fn copy(&self) -> (r: GainState)
        ensures
            r@ == self@,
    {
        let mut gains: Vec<NamedGain> = Vec::new();
        let mut i: usize = 0;
        while i < self.gains.len()
            invariant
                i <= self.gains@.len(),
                gains@.len() == i,
                forall|k: int|
                    0 <= k < i ==> (#[trigger] gains@[k]).stage@ == self.gains@[k].stage@
                        && gains@[k].db == self.gains@[k].db,
            decreases self.gains@.len() - i,
        {
            gains.push(
                NamedGain { stage: self.gains[i].stage.clone(), db: self.gains[i].db },
            );
            i += 1;
        }
        let r = GainState { gains };
        assert(r@ =~= self@);
        r
    }
}

/// Why a run stopped early.
#[derive(Debug, PartialEq, Eq)]
pub enum GainRunError {
    /// A device action was refused: as the front end said it.
    Control(LiveControlError),
    /// The search refused a measurement: in its words.
    Policy(String),
    /// A probe could not be measured: in the words of who measures.
    Measure(String),
}

/// What a [`GainRunError`] holds.
pub enum GainRunErrorV {
    /// A device action was refused.
    Control(FailV),
    /// The search refused a measurement.
    Policy(Seq<char>),
    /// A probe could not be measured.
    Measure(Seq<char>),
}

impl GainRunError {
    /// What it holds.
    pub open spec fn view(&self) -> GainRunErrorV {
        match self {
            GainRunError::Control(e) => GainRunErrorV::Control(live_fail_of(*e)),
            GainRunError::Policy(m) => GainRunErrorV::Policy(m@),
            GainRunError::Measure(m) => GainRunErrorV::Measure(m@),
        }
    }

    /// It in words.
    pub fn message(&self) -> (r: String)
        ensures
            r@ == (match self@ {
                GainRunErrorV::Control(e) => "a gain probe was refused: "@ + e.message,
                GainRunErrorV::Policy(m) => m,
                GainRunErrorV::Measure(m) => "a gain probe could not be measured: "@ + m,
            }),
    {
        match self {
            GainRunError::Control(e) => String::from_str("a gain probe was refused: ").concat(
                e.message.as_str(),
            ),
            GainRunError::Policy(m) => m.clone(),
            GainRunError::Measure(m) => String::from_str(
                "a gain probe could not be measured: ",
            ).concat(m.as_str()),
        }
    }
}

/// A front end that no manager can be made for.
#[derive(Debug, PartialEq, Eq)]
pub struct NoStages {
    /// Its driver.
    pub driver: String,
}

/// What the search asks for.
#[derive(Debug)]
pub enum GainStep {
    /// A probe under this state.
    Probe(GainState),
    /// This state is the one to stay in.
    Commit(GainState),
    /// Nothing more: it measured nothing, or is off.
    Hold,
}

/// What a [`GainStep`] holds.
pub enum GainStepV {
    /// A probe under this state.
    Probe(Seq<(Seq<char>, Real)>),
    /// This state is the one to stay in.
    Commit(Seq<(Seq<char>, Real)>),
    /// Nothing more.
    Hold,
}

impl GainStep {
    /// What it holds.
    pub open spec fn view(&self) -> GainStepV {
        match self {
            GainStep::Probe(s) => GainStepV::Probe(s@),
            GainStep::Commit(s) => GainStepV::Commit(s@),
            GainStep::Hold => GainStepV::Hold,
        }
    }
}

/// What is outstanding in a run.
#[derive(Debug)]
pub enum Phase {
    /// There is no run.
    Idle,
    /// The search's next step.
    Deciding,
    /// The device's answer to a probe.
    Probing,
    /// The measurement of a probe.
    Measuring,
    /// The search's view of the measurement.
    Observing,
    /// The device's answer to the commit.
    Committing,
    /// The device's answer to being put back; the run has failed.
    Restoring(GainRunError),
}

/// What a [`Phase`] holds.
pub enum PhaseV {
    /// There is no run.
    Idle,
    /// The search's next step.
    Deciding,
    /// The device's answer to a probe.
    Probing,
    /// The measurement of a probe.
    Measuring,
    /// The search's view of the measurement.
    Observing,
    /// The device's answer to the commit.
    Committing,
    /// The device's answer to being put back.
    Restoring(GainRunErrorV),
}

impl Phase {
    /// What it holds.
    pub open spec fn view(&self) -> PhaseV {
        match self {
            Phase::Idle => PhaseV::Idle,
            Phase::Deciding => PhaseV::Deciding,
            Phase::Probing => PhaseV::Probing,
            Phase::Measuring => PhaseV::Measuring,
            Phase::Observing => PhaseV::Observing,
            Phase::Committing => PhaseV::Committing,
            Phase::Restoring(e) => PhaseV::Restoring(e@),
        }
    }
}

/// What is to be done next.
#[derive(Debug, PartialEq, Eq)]
pub enum Order {
    /// Ask the search for its next step.
    Decide,
    /// Command these gains: one device action.
    Command(GainState),
    /// Measure under these gains, which the device took.
    Measure(GainState),
    /// Hand the measurement to the search.
    Observe,
    /// The search gives its run up; then command these gains: one device action.
    Restore(GainState),
    /// The run is over with nothing changed, and it issued nothing.
    Nothing,
    /// The device took the commit: the search settles on it, and the run is over.
    Settle,
    /// The run has failed, and is over.
    Fail(GainRunError),
}

/// What an [`Order`] holds.
pub enum OrderV {
    /// Ask the search for its next step.
    Decide,
    /// Command these gains.
    Command(Seq<(Seq<char>, Real)>),
    /// Measure under these gains.
    Measure(Seq<(Seq<char>, Real)>),
    /// Hand the measurement to the search.
    Observe,
    /// The search gives its run up; then command these gains.
    Restore(Seq<(Seq<char>, Real)>),
    /// The run is over with nothing changed.
    Nothing,
    /// The search settles.
    Settle,
    /// The run has failed.
    Fail(GainRunErrorV),
}

impl Order {
    /// What it holds.
    pub open spec fn view(&self) -> OrderV {
        match self {
            Order::Decide => OrderV::Decide,
            Order::Command(s) => OrderV::Command(s@),
            Order::Measure(s) => OrderV::Measure(s@),
            Order::Observe => OrderV::Observe,
            Order::Restore(s) => OrderV::Restore(s@),
            Order::Nothing => OrderV::Nothing,
            Order::Settle => OrderV::Settle,
            Order::Fail(e) => OrderV::Fail(e@),
        }
    }
}

/// Drives one front end.
#[derive(Debug)]
pub struct GainManager {
    /// What is outstanding.
    pub phase: Phase,
    /// The state that the run found.
    pub from: GainState,
    /// The device actions issued so far.
    pub actions: u64,
}

/// What a [`GainManager`] holds.
pub struct ManagerV {
    /// What is outstanding.
    pub phase: PhaseV,
    /// The state that the run found.
    pub from: Seq<(Seq<char>, Real)>,
    /// The device actions issued so far.
    pub actions: nat,
}

/// What came of an order.
pub enum Came {
    /// A run was asked for from this state; whether the search starts one.
    Asked(Seq<(Seq<char>, Real)>, bool),
    /// The search's step.
    Stepped(GainStepV),
    /// The state that the device took, or why it refused.
    Answered(Result<Seq<(Seq<char>, Real)>, FailV>),
    /// The measurement is there, or why it is not.
    Measured(Result<(), Seq<char>>),
    /// The search took the measurement, or why it refused it.
    Observed(Result<(), Seq<char>>),
}

impl ManagerV {
    /// The manager with something else outstanding.
    pub open spec fn at(self, phase: PhaseV) -> ManagerV {
        ManagerV { phase, ..self }
    }

    /// The manager after one more device action.
    pub open spec fn commanded(self, phase: PhaseV) -> ManagerV {
        ManagerV { phase, actions: self.actions + 1, ..self }
    }

    /// The run cannot finish: the front end is put back.
    pub open spec fn aborted(self, e: GainRunErrorV) -> (ManagerV, OrderV) {
        (self.commanded(PhaseV::Restoring(e)), OrderV::Restore(self.from))
    }

    /// Something can come of what is outstanding.
    pub open spec fn awaits(self, c: Came) -> bool {
        match c {
            Came::Asked(_, _) => self.phase is Idle,
            Came::Stepped(_) => self.phase is Deciding,
            Came::Answered(_) => self.phase is Probing || self.phase is Committing
                || self.phase is Restoring,
            Came::Measured(_) => self.phase is Measuring,
            Came::Observed(_) => self.phase is Observing,
        }
    }

    /// What is done next, after what came.
    pub open spec fn after(self, c: Came) -> (ManagerV, OrderV) {
        match c {
            Came::Asked(from, starts) => if starts {
                (ManagerV { from, ..self }.at(PhaseV::Deciding), OrderV::Decide)
            } else {
                (ManagerV { from, ..self }, OrderV::Nothing)
            },
            Came::Stepped(GainStepV::Probe(s)) => (
                self.commanded(PhaseV::Probing),
                OrderV::Command(s),
            ),
            Came::Stepped(GainStepV::Commit(s)) => (
                self.commanded(PhaseV::Committing),
                OrderV::Command(s),
            ),
            Came::Stepped(GainStepV::Hold) => (self.at(PhaseV::Idle), OrderV::Nothing),
            Came::Answered(a) => match self.phase {
                PhaseV::Restoring(e) => (self.at(PhaseV::Idle), OrderV::Fail(e)),
                PhaseV::Probing => match a {
                    Ok(took) => (self.at(PhaseV::Measuring), OrderV::Measure(took)),
                    Err(e) => self.aborted(GainRunErrorV::Control(e)),
                },
                _ => match a {
                    Ok(_) => (self.at(PhaseV::Idle), OrderV::Settle),
                    Err(e) => self.aborted(GainRunErrorV::Control(e)),
                },
            },
            Came::Measured(Ok(_)) => (self.at(PhaseV::Observing), OrderV::Observe),
            Came::Measured(Err(m)) => self.aborted(GainRunErrorV::Measure(m)),
            Came::Observed(Ok(_)) => (self.at(PhaseV::Deciding), OrderV::Decide),
            Came::Observed(Err(m)) => self.aborted(GainRunErrorV::Policy(m)),
        }
    }
}

/// What a device's answer holds.
pub open spec fn answer_v(a: Result<GainState, LiveControlError>) -> Result<
    Seq<(Seq<char>, Real)>,
    FailV,
> {
    match a {
        Ok(s) => Ok(s@),
        Err(e) => Err(live_fail_of(e)),
    }
}

/// What a plain answer holds.
pub open spec fn done_v(a: Result<(), String>) -> Result<(), Seq<char>> {
    match a {
        Ok(_) => Ok(()),
        Err(m) => Err(m@),
    }
}

impl GainManager {
    /// What it holds.
    pub open spec fn view(&self) -> ManagerV {
        ManagerV { phase: self.phase@, from: self.from@, actions: self.actions as nat }
    }

    /// A manager of a front end with this many adjustable stages.
    pub fn new(stages: usize, driver: &str) -> (r: Result<GainManager, NoStages>)
        ensures
            match r {
                Ok(m) => stages > 0 && m@.phase is Idle && m@.actions == 0,
                Err(e) => stages == 0 && e.driver@ == driver@,
            },
    {
        if stages == 0 {
            return Err(NoStages { driver: driver.to_owned() });
        }
        Ok(
            GainManager {
                phase: Phase::Idle,
                from: GainState { gains: Vec::new() },
                actions: 0,
            },
        )
    }

    /// The device actions issued so far.
    pub fn device_actions(&self) -> (r: u64)
        ensures
            r == self@.actions,
    {
        self.actions
    }

    /// A run is open.
    pub fn running(&self) -> (r: bool)
        ensures
            r == !(self@.phase is Idle),
    {
        match self.phase {
            Phase::Idle => false,
            _ => true,
        }
    }

    fn abort(&mut self, e: GainRunError) -> (r: Order)
        requires
            old(self)@.actions < u64::MAX,
        ensures
            (final(self)@, r@) == old(self)@.aborted(e@),
    {
        self.actions = self.actions + 1;
        let back = self.from.copy();
        self.phase = Phase::Restoring(e);
        Order::Restore(back)
    }

    /// A run is asked for: `from` is the state in force, and `starts` says that the search starts
    /// one.
    pub fn run(&mut self, from: GainState, starts: bool) -> (r: Order)
        requires
            old(self)@.phase is Idle,
        ensures
            (final(self)@, r@) == old(self)@.after(Came::Asked(from@, starts)),
    {
        self.from = from;
        if starts {
            self.phase = Phase::Deciding;
            Order::Decide
        } else {
            Order::Nothing
        }
    }

    /// The search's step.
    pub fn step(&mut self, s: GainStep) -> (r: Order)
        requires
            old(self)@.phase is Deciding,
            old(self)@.actions < u64::MAX,
        ensures
            (final(self)@, r@) == old(self)@.after(Came::Stepped(s@)),
    {
        match s {
            GainStep::Probe(s) => {
                self.actions = self.actions + 1;
                self.phase = Phase::Probing;
                Order::Command(s)
            },
            GainStep::Commit(s) => {
                self.actions = self.actions + 1;
                self.phase = Phase::Committing;
                Order::Command(s)
            },
            GainStep::Hold => {
                self.phase = Phase::Idle;
                Order::Nothing
            },
        }
    }

    /// The device's answer: the state that it took, or why it refused.
    pub fn applied(&mut self, answer: Result<GainState, LiveControlError>) -> (r: Order)
        requires
            old(self)@.awaits(Came::Answered(answer_v(answer))),
            old(self)@.actions < u64::MAX,
        ensures
            (final(self)@, r@) == old(self)@.after(Came::Answered(answer_v(answer))),
    {
        let mut phase = Phase::Idle;
        std::mem::swap(&mut phase, &mut self.phase);
        match phase {
            Phase::Restoring(e) => Order::Fail(e),
            Phase::Probing => match answer {
                Ok(took) => {
                    self.phase = Phase::Measuring;
                    Order::Measure(took)
                },
                Err(e) => self.abort(GainRunError::Control(e)),
            },
            _ => match answer {
                Ok(_) => Order::Settle,
                Err(e) => self.abort(GainRunError::Control(e)),
            },
        }
    }

    /// The measurement of a probe is there, or why it is not.
    pub fn measured(&mut self, answer: Result<(), String>) -> (r: Order)
        requires
            old(self)@.phase is Measuring,
            old(self)@.actions < u64::MAX,
        ensures
            (final(self)@, r@) == old(self)@.after(Came::Measured(done_v(answer))),
    {
        match answer {
            Ok(_) => {
                self.phase = Phase::Observing;
                Order::Observe
            },
            Err(m) => self.abort(GainRunError::Measure(m)),
        }
    }

    /// The search took the measurement, or why it refused it.
    pub fn observed(&mut self, answer: Result<(), String>) -> (r: Order)
        requires
            old(self)@.phase is Observing,
            old(self)@.actions < u64::MAX,
        ensures
            (final(self)@, r@) == old(self)@.after(Came::Observed(done_v(answer))),
    {
        match answer {
            Ok(_) => {
                self.phase = Phase::Deciding;
                Order::Decide
            },
            Err(m) => self.abort(GainRunError::Policy(m)),
        }
    }
}

// ---------------------------------------------------------------------------------------------
// Laws
// ---------------------------------------------------------------------------------------------

/// The manager after a history, and the orders that it gave, in which each thing came when it was
/// awaited.
pub open spec fn played(m: ManagerV, h: Seq<Came>) -> (ManagerV, Seq<OrderV>)
    decreases h.len(),
{
    if h.len() == 0 {
        (m, Seq::empty())
    } else {
        let (b, orders) = played(m, h.drop_last());
        let (next, order) = b.after(h.last());
        (next, orders.push(order))
    }
}

/// Each thing came when it was awaited.
pub open spec fn in_turn(m: ManagerV, h: Seq<Came>) -> bool {
    forall|i: int| 0 <= i < h.len() ==> played(m, h.take(i)).0.awaits(#[trigger] h[i])
}

/// An order that is one device action.
pub open spec fn is_action(o: OrderV) -> bool {
    o is Command || o is Restore
}

/// How many device actions some orders are.
pub open spec fn actions_in(v: Seq<OrderV>) -> nat
    decreases v.len(),
{
    if v.len() == 0 {
        0
    } else {
        actions_in(v.drop_last()) + (if is_action(v.last()) {
            1
        } else {
            0nat
        })
    }
}

/// Every probe, commit and restore is one device action, and nothing else is.
pub proof fn actions_are_counted(m: ManagerV, h: Seq<Came>)
    ensures
        played(m, h).0.actions == m.actions + actions_in(played(m, h).1),
    decreases h.len(),
{
    if h.len() > 0 {
        actions_are_counted(m, h.drop_last());
        let (b, orders) = played(m, h.drop_last());
        let order = b.after(h.last()).1;
        assert(orders.push(order).drop_last() =~= orders);
    }
}

/// A run that the search does not start touches nothing.
pub proof fn a_refused_run_touches_nothing(m: ManagerV, from: Seq<(Seq<char>, Real)>)
    requires
        m.phase is Idle,
    ensures
        m.after(Came::Asked(from, false)).1 is Nothing,
        m.after(Came::Asked(from, false)).0.actions == m.actions,
        m.after(Came::Asked(from, false)).0.phase is Idle,
{
}

/// A failed run puts the front end back where it found it, says why it failed whatever becomes of
/// that, and is over: the next one can start.
pub proof fn a_failed_run_puts_the_front_end_back(
    m: ManagerV,
    c: Came,
    restored: Result<Seq<(Seq<char>, Real)>, FailV>,
)
    requires
        m.awaits(c),
        !(m.phase is Restoring),
        match c {
            Came::Answered(a) => a is Err,
            Came::Measured(a) => a is Err,
            Came::Observed(a) => a is Err,
            _ => false,
        },
    ensures
        m.after(c).1 == OrderV::Restore(m.from),
        m.after(c).0.phase is Restoring,
        m.after(c).0.after(Came::Answered(restored)).1 == OrderV::Fail(
            match c {
                Came::Answered(a) => GainRunErrorV::Control(a->Err_0),
                Came::Measured(a) => GainRunErrorV::Measure(a->Err_0),
                Came::Observed(a) => GainRunErrorV::Policy(a->Err_0),
                _ => arbitrary(),
            },
        ),
        m.after(c).0.after(Came::Answered(restored)).0.phase is Idle,
{
}

/// The run keeps the state that it found, until another is asked for.
pub proof fn the_start_is_kept(m: ManagerV, c: Came)
    requires
        !(c is Asked),
    ensures
        m.after(c).0.from == m.from,
{
}

/// The search settles only on what the device took: only its answer to a commit makes it.
pub proof fn only_what_the_device_took_is_settled(m: ManagerV, c: Came)
    requires
        m.awaits(c),
        m.after(c).1 is Settle,
    ensures
        m.phase is Committing,
        c is Answered,
        c->Answered_0 is Ok,
{
}

/// A probe is measured under the state that the device took, not the one it was asked for.
pub proof fn probes_are_measured_under_what_was_taken(
    m: ManagerV,
    asked: Seq<(Seq<char>, Real)>,
    took: Seq<(Seq<char>, Real)>,
)
    requires
        m.phase is Deciding,
    ensures
        m.after(Came::Stepped(GainStepV::Probe(asked))).1 == OrderV::Command(asked),
        m.after(Came::Stepped(GainStepV::Probe(asked))).0.after(Came::Answered(Ok(took))).1
            == OrderV::Measure(took),
{
}

proof fn restoring_follows_a_restore(m: ManagerV, h: Seq<Came>)
    requires
        m.phase is Idle,
        in_turn(m, h),
        played(m, h).0.phase is Restoring,
    ensures
        h.len() > 0,
        played(m, h).1.last() == OrderV::Restore(played(m, h).0.from),
{
    if h.len() > 0 {
        assert(h.take(h.len() - 1) =~= h.drop_last());
        let b = played(m, h.drop_last()).0;
        assert(b.awaits(h[h.len() - 1]));
    }
}

/// In every history, a run that says it failed was put back just before: the order before the
/// failure commands the state that the run found.
pub proof fn failures_follow_a_restore(m: ManagerV, h: Seq<Came>)
    requires
        m.phase is Idle,
        in_turn(m, h),
        h.len() > 0,
        played(m, h).1.last() is Fail,
    ensures
        h.len() >= 2,
        played(m, h.drop_last()).1.last() == OrderV::Restore(played(m, h).0.from),
{
    let u = h.drop_last();
    assert(h.take(h.len() - 1) =~= u);
    let b = played(m, u).0;
    assert(b.awaits(h[h.len() - 1]));
    assert forall|i: int| 0 <= i < u.len() implies played(m, u.take(i)).0.awaits(
        #[trigger] u[i],
    ) by {
        assert(u.take(i) =~= h.take(i));
        assert(h[i] == u[i]);
    }
    assert(b.phase is Restoring);
    restoring_follows_a_restore(m, u);
}

/// A run ends exactly when it says so: a manager is idle after an order that ends the run, and
/// after no other.
pub proof fn runs_end_when_they_say(m: ManagerV, c: Came)
    requires
        m.awaits(c),
    ensures
        m.after(c).0.phase is Idle <==> (m.after(c).1 is Nothing || m.after(c).1 is Settle || m.after(
            c,
        ).1 is Fail),
{
}

/// How a run goes on: it starts by deciding; what is to be tried or settled is commanded, exactly as
/// it was decided; what was tried is measured, then observed, then decided on; and a decision to hold
/// ends it with nothing done.
pub proof fn a_run_goes_on(m: ManagerV, s: Seq<(Seq<char>, Real)>)
    ensures
        m.phase is Idle ==> m.after(Came::Asked(s, true)).1 is Decide && m.after(
            Came::Asked(s, true),
        ).0.from == s && m.after(Came::Asked(s, true)).0.actions == m.actions && m.after(
            Came::Asked(s, true),
        ).0.phase is Deciding,
        m.after(Came::Stepped(GainStepV::Commit(s))).1 == OrderV::Command(s),
        m.after(Came::Stepped(GainStepV::Commit(s))).0.phase is Committing,
        m.after(Came::Stepped(GainStepV::Commit(s))).0.actions == m.actions + 1,
        m.after(Came::Stepped(GainStepV::Probe(s))).0.phase is Probing,
        m.after(Came::Stepped(GainStepV::Probe(s))).0.actions == m.actions + 1,
        m.after(Came::Stepped(GainStepV::Hold)).1 is Nothing,
        m.after(Came::Stepped(GainStepV::Hold)).0.actions == m.actions,
        m.phase is Committing ==> m.after(Came::Answered(Ok(s))).1 is Settle,
        m.after(Came::Measured(Ok(()))).1 is Observe,
        m.after(Came::Measured(Ok(()))).0.phase is Observing,
        m.after(Came::Observed(Ok(()))).1 is Decide,
        m.after(Came::Observed(Ok(()))).0.phase is Deciding,
{
}

} // verus!
