//! The step sequencer: runs the steps of a plan strictly in order and stops at
//! the first failure. The host starts processes and feeds back what they report.

use vstd::prelude::*;
use crate::plan::{
    InstallPlan, Platform, Procedure, ProcedureView, StepView, steps_view,
    LINUX_DONE_MESSAGE, WINDOWS_DONE_MESSAGE,
};
use crate::progress::{EventView, InstallProgress, ProgressEvent, views_of};
use crate::text::{decimal, decimal_string, signed_decimal, signed_decimal_string};

verus! {

/// Where a run stands.
#[derive(PartialEq, Eq, Structural, Clone, Copy, Debug)]
pub enum RunState {
    NotStarted,
    AwaitingSecret,
    Running(usize),
    Succeeded,
    Failed(usize),
}

/// Reason of a run stopped from outside.
pub const CANCELLED_REASON: &'static str = "Installation cancelled";

/// What the process of the running step reported.
pub enum StepEvent {
    Stdout(String),
    Stderr(String),
    /// The process ended: its exit code, or `None` when a signal ended it.
    Terminated(Option<i32>),
    /// The step could not be carried out (its process did not start, or its
    /// procedure failed), for the given reason.
    Aborted(String),
}

/// What the host does next.
#[derive(PartialEq, Eq, Structural, Clone, Copy, Debug)]
pub enum Directive {
    /// Keep delivering the running step's events.
    Wait,
    /// Obtain the privileged secret and hand it over.
    RequestSecret,
    /// Start the step with this index.
    Launch(usize),
    /// The run is over; its outcome is available.
    Finished,
}

/// The events to publish, in order, and what to do next.
pub struct Reaction {
    pub events: Vec<ProgressEvent>,
    pub directive: Directive,
}

/// Runs one plan to completion or to its first failure.
pub struct StepSequencer {
    plan: InstallPlan,
    state: RunState,
    secret: Option<String>,
    failure: Option<String>,
}

/// The state after `ev` arrives in state `s` of a plan of `total` steps. Only the
/// running step's events move the run: exit code zero to the next step (or to
/// success after the last), any other ending to failure at that step.
pub open spec fn after_event(s: RunState, total: nat, ev: StepEvent) -> RunState {
    match s {
        RunState::Running(i) => match ev {
            StepEvent::Stdout(_) => s,
            StepEvent::Stderr(_) => s,
            StepEvent::Terminated(code) => if code == Some(0i32) {
                if i + 1 < total {
                    RunState::Running((i + 1) as usize)
                } else {
                    RunState::Succeeded
                }
            } else {
                RunState::Failed(i)
            },
            StepEvent::Aborted(_) => RunState::Failed(i),
        },
        _ => s,
    }
}

/// The step started by moving from `s` to `t`, if any.
pub open spec fn started_by(s: RunState, t: RunState) -> Option<nat> {
    match t {
        RunState::Running(j) => if s != t { Some(j as nat) } else { None },
        _ => None,
    }
}

/// The directive that goes with moving from `s` to `t`.
pub open spec fn directive_for(s: RunState, t: RunState) -> Directive {
    match t {
        RunState::Running(j) => if s != t { Directive::Launch(j) } else { Directive::Wait },
        RunState::AwaitingSecret => Directive::RequestSecret,
        RunState::Succeeded => Directive::Finished,
        RunState::Failed(_) => Directive::Finished,
        RunState::NotStarted => Directive::Wait,
    }
}

/// `[Step n/t] `, the tag of Linux step lines.
pub open spec fn step_tag(number: nat, total: nat) -> Seq<char> {
    "[Step "@ + decimal(number) + "/"@ + decimal(total) + "] "@
}

/// Reason of a step whose process exited with a nonzero code.
pub open spec fn exit_failure_text(code: int, number: nat, description: Seq<char>) -> Seq<char> {
    "Command failed with exit code "@ + signed_decimal(code) + " during step "@ + decimal(number)
        + ": "@ + description
}

/// Reason of a step whose process was ended by a signal.
pub open spec fn signal_failure_text(number: nat, description: Seq<char>) -> Seq<char> {
    "Command was terminated by a signal during step "@ + decimal(number) + ": "@ + description
}

/// Reason of a step that could not be carried out.
pub open spec fn abort_text(prefix: Seq<char>, reason: Seq<char>) -> Seq<char> {
    prefix + ": "@ + reason
}

/// Notice that step `i` begins.
pub open spec fn start_notice(p: Platform, i: nat, total: nat, description: Seq<char>) -> EventView {
    match p {
        Platform::Linux => EventView::Log(step_tag(i + 1, total) + description + " - Starting"@),
        Platform::Windows => EventView::Step {
            step: i + 1,
            total_steps: total,
            message: description,
            is_error: false,
        },
    }
}

/// Notices that step `i` ended well.
pub open spec fn done_notices(p: Platform, i: nat, total: nat, description: Seq<char>) -> Seq<
    EventView,
> {
    match p {
        Platform::Linux => seq![
            EventView::Log(step_tag(i + 1, total) + description + " - Completed"@),
        ],
        Platform::Windows => seq![],
    }
}

/// Notice that the whole run succeeded.
pub open spec fn completion_notice(p: Platform, total: nat) -> EventView {
    match p {
        Platform::Linux => EventView::Log(LINUX_DONE_MESSAGE@),
        Platform::Windows => EventView::Step {
            step: total,
            total_steps: total,
            message: WINDOWS_DONE_MESSAGE@,
            is_error: false,
        },
    }
}

/// Notice of a line of output of step `i`.
pub open spec fn output_notice(p: Platform, i: nat, total: nat, line: Seq<char>, is_error: bool) -> EventView {
    match p {
        Platform::Linux => if is_error {
            EventView::Error(step_tag(i + 1, total) + "ERROR: "@ + line)
        } else {
            EventView::Log(step_tag(i + 1, total) + line)
        },
        Platform::Windows => EventView::Step {
            step: i + 1,
            total_steps: total,
            message: line,
            is_error,
        },
    }
}

/// Notice that step `i` failed for `reason`.
pub open spec fn failure_notice(p: Platform, i: nat, total: nat, reason: Seq<char>) -> EventView {
    match p {
        Platform::Linux => EventView::Error(reason),
        Platform::Windows => EventView::Step {
            step: i + 1,
            total_steps: total,
            message: reason,
            is_error: true,
        },
    }
}

/// The reason of a failure of step `i` on `ev`.
pub open spec fn failure_reason(steps: Seq<StepView>, i: nat, ev: StepEvent) -> Seq<char> {
    match ev {
        StepEvent::Terminated(Some(code)) => exit_failure_text(
            code as int,
            i + 1,
            steps[i as int].description,
        ),
        StepEvent::Terminated(None) => signal_failure_text(i + 1, steps[i as int].description),
        StepEvent::Aborted(r) => abort_text(steps[i as int].failure_prefix, r@),
        _ => seq![],
    }
}

/// The events published when step `i` begins.
pub open spec fn launch_notices(p: Platform, steps: Seq<StepView>, i: nat) -> Seq<EventView> {
    seq![start_notice(p, i, steps.len(), steps[i as int].description)]
}

/// The events published when `ev` arrives in state `s`.
pub open spec fn event_notices(p: Platform, steps: Seq<StepView>, s: RunState, ev: StepEvent) -> Seq<
    EventView,
> {
    let total = steps.len();
    match s {
        RunState::Running(i) => match ev {
            StepEvent::Stdout(l) => seq![output_notice(p, i as nat, total, l@, false)],
            StepEvent::Stderr(l) => seq![output_notice(p, i as nat, total, l@, true)],
            StepEvent::Terminated(code) => if code == Some(0i32) {
                done_notices(p, i as nat, total, steps[i as int].description) + if i + 1 < total {
                    launch_notices(p, steps, (i + 1) as nat)
                } else {
                    seq![completion_notice(p, total)]
                }
            } else {
                seq![failure_notice(p, i as nat, total, failure_reason(steps, i as nat, ev))]
            },
            StepEvent::Aborted(_) => seq![
                failure_notice(p, i as nat, total, failure_reason(steps, i as nat, ev)),
            ],
        },
        _ => seq![],
    }
}

/// Some step of the plan runs with the privileged secret.
pub open spec fn needs_secret(steps: Seq<StepView>) -> bool {
    exists|i: int| 0 <= i < steps.len() && #[trigger] steps[i].needs_secret
}

/// Command line that runs `command` as the superuser, reading `secret` for sudo.
pub open spec fn privileged_command(secret: Seq<char>, command: Seq<char>) -> Seq<char> {
    "echo "@ + secret + " | sudo -S bash -c '"@ + command + "' 2>&1"@
}

impl StepSequencer {
    pub closed spec fn spec_plan(&self) -> InstallPlan {
        self.plan
    }

    /// The platform of the plan.
    pub open spec fn platform(&self) -> Platform {
        self.spec_plan().platform
    }

    /// The steps of the plan, as plain values.
    pub open spec fn steps(&self) -> Seq<StepView> {
        steps_view(self.spec_plan().steps@)
    }

    pub closed spec fn spec_state(&self) -> RunState {
        self.state
    }

    pub closed spec fn spec_secret(&self) -> Option<Seq<char>> {
        match self.secret {
            Some(s) => Some(s@),
            None => None,
        }
    }

    pub closed spec fn spec_failure(&self) -> Option<Seq<char>> {
        match self.failure {
            Some(s) => Some(s@),
            None => None,
        }
    }

    /// The state and the step list agree: a running or failed step exists,
    /// and a reason is kept exactly when the run failed.
    pub open spec fn wf(&self) -> bool {
        &&& match self.spec_state() {
            RunState::Running(i) => i < self.steps().len(),
            RunState::Failed(i) => i < self.steps().len() && self.spec_failure() is Some,
            _ => true,
        }
        &&& (self.spec_failure() is Some <==> self.spec_state() is Failed)
        &&& (self.spec_state() == RunState::AwaitingSecret ==> self.steps().len() > 0)
        &&& self.steps().len() < usize::MAX
    }

    /// A sequencer that has not started `plan` yet.
    pub fn new(plan: InstallPlan) -> (r: Self)
        requires
            plan.steps@.len() < usize::MAX,
        ensures
            r.wf(),
            r.spec_plan() == plan,
            r.spec_state() == RunState::NotStarted,
            r.spec_secret() is None,
    {
        StepSequencer { plan, state: RunState::NotStarted, secret: None, failure: None }
    }

    /// Where the run stands.
    pub fn state(&self) -> (r: RunState)
        ensures
            r == self.spec_state(),
    {
        self.state
    }

    /// Number of steps in the plan.
    pub fn total_steps(&self) -> (r: usize)
        ensures
            r == self.steps().len(),
    {
        self.plan.steps.len()
    }

    /// The outcome of a finished run: `Ok` after the last step succeeded, the
    /// failure reason after a step failed, `None` while the run goes on.
    pub fn outcome(&self) -> (r: Option<Result<(), String>>)
        requires
            self.wf(),
        ensures
            self.spec_state() == RunState::Succeeded ==> r == Some(Ok::<(), String>(())),
            self.spec_state() is Failed ==> (r matches Some(Err(m)) && Some(m@)
                == self.spec_failure()),
            !(self.spec_state() is Failed || self.spec_state() == RunState::Succeeded) ==> r
                is None,
    {
        match self.state {
            RunState::Succeeded => Some(Ok(())),
            RunState::Failed(_) => match &self.failure {
                Some(m) => Some(Err(m.clone())),
                None => None,
            },
            _ => None,
        }
    }

    fn step_tag_text(number: usize, total: usize) -> (r: String)
        ensures
            r@ == step_tag(number as nat, total as nat),
    {
        let mut s = String::from_str("[Step ");
        let n = decimal_string(number as u64);
        s.append(n.as_str());
        s.append("/");
        let t = decimal_string(total as u64);
        s.append(t.as_str());
        s.append("] ");
        s
    }

    fn start_event(&self, i: usize) -> (r: ProgressEvent)
        requires
            self.wf(),
            i < self.steps().len(),
        ensures
            r@ == start_notice(self.platform(), i as nat, self.steps().len(), self.steps()[i as int].description),
    {
        let total = self.plan.steps.len();
        let description = &self.plan.steps[i].description;
        match self.plan.platform {
            Platform::Linux => {
                let mut s = Self::step_tag_text(i + 1, total);
                s.append(description.as_str());
                s.append(" - Starting");
                ProgressEvent::LogLine(s)
            },
            Platform::Windows => ProgressEvent::Step(
                InstallProgress::new(i + 1, total, description.as_str(), false),
            ),
        }
    }

    fn output_event(&self, i: usize, line: &String, is_error: bool) -> (r: ProgressEvent)
        requires
            self.wf(),
            i < self.steps().len(),
        ensures
            r@ == output_notice(self.platform(), i as nat, self.steps().len(), line@, is_error),
    {
        let total = self.plan.steps.len();
        match self.plan.platform {
            Platform::Linux => {
                let mut s = Self::step_tag_text(i + 1, total);
                if is_error {
                    s.append("ERROR: ");
                    s.append(line.as_str());
                    ProgressEvent::ErrorLine(s)
                } else {
                    s.append(line.as_str());
                    ProgressEvent::LogLine(s)
                }
            },
            Platform::Windows => ProgressEvent::Step(
                InstallProgress::new(i + 1, total, line.as_str(), is_error),
            ),
        }
    }

    fn failure_event(&self, i: usize, reason: &String) -> (r: ProgressEvent)
        requires
            self.wf(),
            i < self.steps().len(),
        ensures
            r@ == failure_notice(self.platform(), i as nat, self.steps().len(), reason@),
    {
        match self.plan.platform {
            Platform::Linux => ProgressEvent::ErrorLine(reason.clone()),
            Platform::Windows => ProgressEvent::Step(
                InstallProgress::new(i + 1, self.plan.steps.len(), reason.as_str(), true),
            ),
        }
    }

    fn reason_of(&self, i: usize, ev: &StepEvent) -> (r: String)
        requires
            self.wf(),
            i < self.steps().len(),
            !(ev is Stdout || ev is Stderr),
            *ev != StepEvent::Terminated(Some(0i32)),
        ensures
            r@ == failure_reason(self.steps(), i as nat, *ev),
    {
        let description = &self.plan.steps[i].description;
        match ev {
            StepEvent::Terminated(Some(code)) => {
                let mut s = String::from_str("Command failed with exit code ");
                let c = signed_decimal_string(*code as i64);
                s.append(c.as_str());
                s.append(" during step ");
                let n = decimal_string((i + 1) as u64);
                s.append(n.as_str());
                s.append(": ");
                s.append(description.as_str());
                s
            },
            StepEvent::Terminated(None) => {
                let mut s = String::from_str("Command was terminated by a signal during step ");
                let n = decimal_string((i + 1) as u64);
                s.append(n.as_str());
                s.append(": ");
                s.append(description.as_str());
                s
            },
            StepEvent::Aborted(reason) => {
                let mut s = self.plan.steps[i].failure_prefix.clone();
                s.append(": ");
                s.append(reason.as_str());
                s
            },
            _ => String::new(),
        }
    }

    fn plan_needs_secret(&self) -> (r: bool)
        ensures
            r == needs_secret(self.steps()),
    {
        let mut i: usize = 0;
        while i < self.plan.steps.len()
            invariant
                i <= self.steps().len(),
                forall|k: int| 0 <= k < i ==> !(#[trigger] self.steps()[k]).needs_secret,
            decreases self.steps().len() - i,
        {
            if self.plan.steps[i].needs_secret {
                assert(self.steps()[i as int].needs_secret);
                return true;
            }
            i = i + 1;
        }
        false
    }

    fn launch(&mut self, i: usize) -> (r: Reaction)
        requires
            old(self).wf(),
            i < old(self).steps().len(),
            !(old(self).spec_state() is Failed),
            old(self).spec_state() != RunState::Running(i),
        ensures
            final(self).wf(),
            final(self).spec_plan() == old(self).spec_plan(),
            final(self).spec_secret() == old(self).spec_secret(),
            final(self).spec_state() == RunState::Running(i),
            views_of(r.events@) == launch_notices(old(self).platform(), old(self).steps(), i as nat),
            r.directive == Directive::Launch(i),
    {
        self.state = RunState::Running(i);
        let e = self.start_event(i);
        let mut events: Vec<ProgressEvent> = Vec::new();
        events.push(e);
        assert(views_of(events@) =~= launch_notices(self.platform(), self.steps(), i as nat));
        Reaction { events, directive: Directive::Launch(i) }
    }

    fn finish_successfully(&mut self) -> (r: Reaction)
        requires
            old(self).wf(),
            !(old(self).spec_state() is Failed),
        ensures
            final(self).wf(),
            final(self).spec_plan() == old(self).spec_plan(),
            final(self).spec_secret() == old(self).spec_secret(),
            final(self).spec_state() == RunState::Succeeded,
            views_of(r.events@) == seq![completion_notice(old(self).platform(), old(self).steps().len())],
            r.directive == Directive::Finished,
    {
        self.state = RunState::Succeeded;
        let total = self.plan.steps.len();
        let e = match self.plan.platform {
            Platform::Linux => ProgressEvent::LogLine(String::from_str(LINUX_DONE_MESSAGE)),
            Platform::Windows => ProgressEvent::Step(
                InstallProgress::new(total, total, WINDOWS_DONE_MESSAGE, false),
            ),
        };
        let mut events: Vec<ProgressEvent> = Vec::new();
        events.push(e);
        assert(views_of(events@) =~= seq![completion_notice(self.platform(), self.steps().len())]);
        Reaction { events, directive: Directive::Finished }
    }

    /// Begins the run: asks for the privileged secret first when a step needs
    /// it, else starts the first step (an empty plan succeeds at once).
    pub fn start(&mut self) -> (r: Reaction)
        requires
            old(self).wf(),
            old(self).spec_state() == RunState::NotStarted,
            old(self).spec_secret() is None,
        ensures
            final(self).wf(),
            final(self).spec_plan() == old(self).spec_plan(),
            final(self).spec_secret() is None,
            needs_secret(old(self).steps()) ==> {
                &&& final(self).spec_state() == RunState::AwaitingSecret
                &&& r.events@.len() == 0
                &&& r.directive == Directive::RequestSecret
            },
            !needs_secret(old(self).steps()) && old(self).steps().len() > 0 ==> {
                &&& final(self).spec_state() == RunState::Running(0)
                &&& views_of(r.events@) == launch_notices(old(self).platform(), old(self).steps(), 0)
                &&& r.directive == Directive::Launch(0)
            },
            old(self).steps().len() == 0 ==> {
                &&& final(self).spec_state() == RunState::Succeeded
                &&& views_of(r.events@) == seq![completion_notice(old(self).platform(), 0)]
                &&& r.directive == Directive::Finished
            },
    {
        if self.plan_needs_secret() {
            self.state = RunState::AwaitingSecret;
            Reaction { events: Vec::new(), directive: Directive::RequestSecret }
        } else if self.plan.steps.len() == 0 {
            self.finish_successfully()
        } else {
            self.launch(0)
        }
    }

    /// Hands over the privileged secret; the first step starts.
    pub fn provide_secret(&mut self, secret: String) -> (r: Reaction)
        requires
            old(self).wf(),
            old(self).spec_state() == RunState::AwaitingSecret,
        ensures
            final(self).wf(),
            final(self).spec_plan() == old(self).spec_plan(),
            final(self).spec_secret() == Some(secret@),
            final(self).spec_state() == RunState::Running(0),
            views_of(r.events@) == launch_notices(old(self).platform(), old(self).steps(), 0),
            r.directive == Directive::Launch(0),
    {
        self.secret = Some(secret);
        self.launch(0)
    }

    /// The secret could not be obtained (no answer in time, or the request
    /// could not be made): the run fails before its first step.
    pub fn secret_unavailable(&mut self, reason: String) -> (r: Reaction)
        requires
            old(self).wf(),
            old(self).spec_state() == RunState::AwaitingSecret,
        ensures
            final(self).wf(),
            final(self).spec_plan() == old(self).spec_plan(),
            final(self).spec_secret() == old(self).spec_secret(),
            final(self).spec_state() == RunState::Failed(0),
            final(self).spec_failure() == Some(reason@),
            views_of(r.events@) == seq![failure_notice(old(self).platform(), 0, old(self).steps().len(), reason@)],
            r.directive == Directive::Finished,
    {
        let e = self.failure_event(0, &reason);
        self.state = RunState::Failed(0);
        self.failure = Some(reason);
        let mut events: Vec<ProgressEvent> = Vec::new();
        events.push(e);
        assert(views_of(events@) =~= seq![failure_notice(self.platform(), 0, self.steps().len(), self.spec_failure()->0)]);
        Reaction { events, directive: Directive::Finished }
    }

    /// Takes in what the running step's process reported. Output is
    /// forwarded tagged with the step; exit code zero moves to the next step;
    /// any other ending fails the run at this step, and no later step runs.
    /// Outside a running step nothing changes and nothing is published.
    pub fn on_event(&mut self, ev: StepEvent) -> (r: Reaction)
        requires
            old(self).wf(),
        ensures
            final(self).wf(),
            final(self).spec_plan() == old(self).spec_plan(),
            final(self).spec_secret() == old(self).spec_secret(),
            final(self).spec_state() == after_event(old(self).spec_state(), old(self).steps().len(), ev),
            views_of(r.events@) == event_notices(old(self).platform(), old(self).steps(), old(self).spec_state(), ev),
            r.directive == directive_for(old(self).spec_state(), final(self).spec_state()),
            old(self).spec_state() is Running && final(self).spec_state() is Failed ==>
                final(self).spec_failure() == Some(failure_reason(old(self).steps(), old(self).spec_state()->Running_0 as nat, ev)),
            !(old(self).spec_state() is Running) ==> *final(self) == *old(self),
    {
        let i = match self.state {
            RunState::Running(i) => i,
            RunState::AwaitingSecret => {
                return Reaction { events: Vec::new(), directive: Directive::RequestSecret };
            },
            RunState::NotStarted => {
                return Reaction { events: Vec::new(), directive: Directive::Wait };
            },
            _ => {
                return Reaction { events: Vec::new(), directive: Directive::Finished };
            },
        };
        let total = self.plan.steps.len();
        match &ev {
            StepEvent::Stdout(line) => {
                let e = self.output_event(i, line, false);
                let mut events: Vec<ProgressEvent> = Vec::new();
                events.push(e);
                assert(views_of(events@) =~= event_notices(self.platform(), self.steps(), self.spec_state(), ev));
                return Reaction { events, directive: Directive::Wait };
            },
            StepEvent::Stderr(line) => {
                let e = self.output_event(i, line, true);
                let mut events: Vec<ProgressEvent> = Vec::new();
                events.push(e);
                assert(views_of(events@) =~= event_notices(self.platform(), self.steps(), self.spec_state(), ev));
                return Reaction { events, directive: Directive::Wait };
            },
            StepEvent::Terminated(Some(0)) => {
                let ghost old_self = *self;
                let mut events: Vec<ProgressEvent> = Vec::new();
                if self.plan.platform == Platform::Linux {
                    let mut s = Self::step_tag_text(i + 1, total);
                    s.append(self.plan.steps[i].description.as_str());
                    s.append(" - Completed");
                    events.push(ProgressEvent::LogLine(s));
                }
                assert(views_of(events@) =~= done_notices(self.platform(), i as nat, total as nat, self.steps()[i as int].description));
                let mut next = if i + 1 < total {
                    self.launch(i + 1)
                } else {
                    self.finish_successfully()
                };
                let ghost first = events@;
                let ghost second = next.events@;
                events.append(&mut next.events);
                assert(views_of(events@) =~= views_of(first) + views_of(second));
                proof {
                    assert(old_self.spec_state() == RunState::Running(i));
                }
                return Reaction { events, directive: next.directive };
            },
            _ => {},
        }
        let reason = self.reason_of(i, &ev);
        let e = self.failure_event(i, &reason);
        self.state = RunState::Failed(i);
        self.failure = Some(reason);
        let mut events: Vec<ProgressEvent> = Vec::new();
        events.push(e);
        Reaction { events, directive: Directive::Finished }
    }

    /// Stops the run from outside: a running step, or the wait for the
    /// secret, fails with the cancellation reason; a run that has not started
    /// or is over is left as it is.
    pub fn cancel(&mut self) -> (r: Reaction)
        requires
            old(self).wf(),
        ensures
            final(self).wf(),
            final(self).spec_plan() == old(self).spec_plan(),
            final(self).spec_secret() == old(self).spec_secret(),
            old(self).spec_state() matches RunState::Running(i) ==> {
                &&& final(self).spec_state() == RunState::Failed(i)
                &&& final(self).spec_failure() == Some(CANCELLED_REASON@)
                &&& views_of(r.events@) == seq![failure_notice(old(self).platform(), i as nat, old(self).steps().len(), CANCELLED_REASON@)]
                &&& r.directive == Directive::Finished
            },
            old(self).spec_state() == RunState::AwaitingSecret ==> {
                &&& final(self).spec_state() == RunState::Failed(0)
                &&& final(self).spec_failure() == Some(CANCELLED_REASON@)
                &&& views_of(r.events@) == seq![failure_notice(old(self).platform(), 0, old(self).steps().len(), CANCELLED_REASON@)]
                &&& r.directive == Directive::Finished
            },
            !(old(self).spec_state() is Running || old(self).spec_state() == RunState::AwaitingSecret) ==> {
                &&& *final(self) == *old(self)
                &&& r.events@.len() == 0
                &&& r.directive == directive_for(old(self).spec_state(), old(self).spec_state())
            },
    {
        let i = match self.state {
            RunState::Running(i) => i,
            RunState::AwaitingSecret => 0,
            RunState::NotStarted => {
                return Reaction { events: Vec::new(), directive: Directive::Wait };
            },
            _ => {
                return Reaction { events: Vec::new(), directive: Directive::Finished };
            },
        };
        let reason = String::from_str(CANCELLED_REASON);
        let e = self.failure_event(i, &reason);
        self.state = RunState::Failed(i);
        self.failure = Some(reason);
        let mut events: Vec<ProgressEvent> = Vec::new();
        events.push(e);
        assert(views_of(events@) =~= seq![failure_notice(self.platform(), i as nat, self.steps().len(), CANCELLED_REASON@)]);
        Reaction { events, directive: Directive::Finished }
    }

    /// The command line of step `i` when it is a shell step: the privileged
    /// form, carrying the secret, when the step needs it and the secret is held.
    pub fn command_line(&self, i: usize) -> (r: Option<String>)
        requires
            self.wf(),
            i < self.steps().len(),
        ensures
            match self.steps()[i as int].procedure {
                ProcedureView::Shell(c) => r matches Some(line) && line@ == (
                    if self.steps()[i as int].needs_secret && self.spec_secret() is Some {
                        privileged_command(self.spec_secret()->0, c)
                    } else {
                        c
                    }),
                _ => r is None,
            },
    {
        let step = &self.plan.steps[i];
        match &step.procedure {
            Procedure::Shell(c) => {
                if step.needs_secret {
                    match &self.secret {
                        Some(secret) => {
                            let mut s = String::from_str("echo ");
                            s.append(secret.as_str());
                            s.append(" | sudo -S bash -c '");
                            s.append(c.as_str());
                            s.append("' 2>&1");
                            return Some(s);
                        },
                        None => {},
                    }
                }
                Some(c.clone())
            },
            _ => None,
        }
    }

    /// The procedure of step `i`.
    pub fn procedure(&self, i: usize) -> (r: &Procedure)
        requires
            self.wf(),
            i < self.steps().len(),
        ensures
            r@ == self.steps()[i as int].procedure,
    {
        &self.plan.steps[i].procedure
    }
}


/// The state after the events `evs` arrive in turn, starting from `s`.
pub open spec fn run_events(s: RunState, total: nat, evs: Seq<StepEvent>) -> RunState
    decreases evs.len(),
{
    if evs.len() == 0 {
        s
    } else {
        run_events(after_event(s, total, evs[0]), total, evs.drop_first())
    }
}

/// The indices of the steps started, in order, while the events `evs` arrive.
pub open spec fn starts_during(s: RunState, total: nat, evs: Seq<StepEvent>) -> Seq<nat>
    decreases evs.len(),
{
    if evs.len() == 0 {
        seq![]
    } else {
        let t = after_event(s, total, evs[0]);
        let here: Seq<nat> = match started_by(s, t) {
            Some(j) => seq![j],
            None => seq![],
        };
        here + starts_during(t, total, evs.drop_first())
    }
}

/// How many of the events report exit code zero.
pub open spec fn zero_exits(evs: Seq<StepEvent>) -> nat
    decreases evs.len(),
{
    if evs.len() == 0 {
        0
    } else {
        (if evs[0] == StepEvent::Terminated(Some(0i32)) { 1nat } else { 0nat }) + zero_exits(
            evs.drop_first(),
        )
    }
}

/// `k` reports of exit code zero.
pub open spec fn clean_exits(k: nat) -> Seq<StepEvent> {
    Seq::new(k, |j: int| StepEvent::Terminated(Some(0i32)))
}

/// An event that ends the running step without success.
pub open spec fn is_failing_end(ev: StepEvent) -> bool {
    (ev is Terminated && ev != StepEvent::Terminated(Some(0i32))) || ev is Aborted
}

/// Steps begin strictly in their declared order: whatever the running step `i`
/// of a plan of `total` steps reports, the steps started next are `i + 1`,
/// `i + 2`, ... with none skipped, each one only after a report of exit code
/// zero, and the step running at the end is the last one started.
pub proof fn lemma_steps_start_in_order(i: nat, total: nat, evs: Seq<StepEvent>)
    requires
        i < total,
        total < usize::MAX,
    ensures
        ({
            let starts = starts_during(RunState::Running(i as usize), total, evs);
            &&& forall|j: int| 0 <= j < starts.len() ==> #[trigger] starts[j] == i + 1 + j
            &&& starts.len() <= zero_exits(evs)
            &&& i + starts.len() < total
            &&& run_events(RunState::Running(i as usize), total, evs) is Running ==> run_events(
                RunState::Running(i as usize),
                total,
                evs,
            ) == RunState::Running((i + starts.len()) as usize)
        }),
    decreases evs.len(),
{
    if evs.len() > 0 {
        let s = RunState::Running(i as usize);
        let t = after_event(s, total, evs[0]);
        let rest = evs.drop_first();
        match t {
            RunState::Running(k) => {
                lemma_steps_start_in_order(k as nat, total, rest);
                let tail = starts_during(t, total, rest);
                if k as nat == i {
                    assert(starts_during(s, total, evs) =~= tail);
                } else {
                    assert(k as nat == i + 1);
                    assert(starts_during(s, total, evs) =~= seq![k as nat] + tail);
                }
            },
            _ => {
                lemma_settled_run_stays(t, total, rest);
                assert(starts_during(s, total, evs) =~= seq![]);
            },
        }
    }
}

/// Once a run has succeeded or failed, no event changes its state or starts a step.
pub proof fn lemma_settled_run_stays(s: RunState, total: nat, evs: Seq<StepEvent>)
    requires
        s is Succeeded || s is Failed,
    ensures
        run_events(s, total, evs) == s,
        starts_during(s, total, evs) == Seq::<nat>::empty(),
    decreases evs.len(),
{
    if evs.len() > 0 {
        lemma_settled_run_stays(s, total, evs.drop_first());
        assert(starts_during(s, total, evs) =~= starts_during(s, total, evs.drop_first()));
    }
}

proof fn lemma_run_concat(s: RunState, total: nat, a: Seq<StepEvent>, b: Seq<StepEvent>)
    ensures
        run_events(s, total, a + b) == run_events(run_events(s, total, a), total, b),
        starts_during(s, total, a + b) == starts_during(s, total, a) + starts_during(
            run_events(s, total, a),
            total,
            b,
        ),
    decreases a.len(),
{
    if a.len() == 0 {
        assert(a + b =~= b);
    } else {
        let t = after_event(s, total, a[0]);
        assert((a + b).drop_first() =~= a.drop_first() + b);
        lemma_run_concat(t, total, a.drop_first(), b);
    }
}

proof fn lemma_clean_exits_advance(k: nat, total: nat)
    requires
        k < total,
        total < usize::MAX,
    ensures
        run_events(RunState::Running(0), total, clean_exits(k)) == RunState::Running(k as usize),
        starts_during(RunState::Running(0), total, clean_exits(k)) == Seq::new(
            k,
            |j: int| (j + 1) as nat,
        ),
    decreases k,
{
    if k > 0 {
        lemma_clean_exits_advance((k - 1) as nat, total);
        let last = seq![StepEvent::Terminated(Some(0i32))];
        assert(clean_exits(k) =~= clean_exits((k - 1) as nat) + last);
        lemma_run_concat(RunState::Running(0), total, clean_exits((k - 1) as nat), last);
        let s = RunState::Running((k - 1) as usize);
        assert(last.drop_first() =~= Seq::<StepEvent>::empty());
        assert(after_event(s, total, last[0]) == RunState::Running(k as usize));
        assert(starts_during(RunState::Running(k as usize), total, last.drop_first()) =~= seq![]);
        assert(run_events(RunState::Running(k as usize), total, last.drop_first()) == RunState::Running(k as usize));
        assert(started_by(s, RunState::Running(k as usize)) == Some(k));
        assert(starts_during(s, total, last) =~= seq![k]);
        assert(run_events(s, total, last) == RunState::Running(k as usize));
        assert(starts_during(RunState::Running(0), total, clean_exits(k)) =~= Seq::new(
            k,
            |j: int| (j + 1) as nat,
        ));
    } else {
        assert(starts_during(RunState::Running(0), total, clean_exits(k)) =~= Seq::new(
            k,
            |j: int| (j + 1) as nat,
        ));
    }
}

/// The first failing step ends the run: when steps `0 .. k` exit with code zero
/// and step `k` then exits otherwise (or cannot be carried out), the run fails
/// at step `k` whatever is reported afterwards, and the only steps started after
/// the first are `1 ..= k - 1`; step `k + 1` and later never start.
pub proof fn lemma_first_failure_stops_run(
    total: nat,
    k: nat,
    failing: StepEvent,
    later: Seq<StepEvent>,
)
    requires
        k < total,
        total < usize::MAX,
        is_failing_end(failing),
    ensures
        ({
            let evs = clean_exits(k) + seq![failing] + later;
            &&& run_events(RunState::Running(0), total, evs) == RunState::Failed(k as usize)
            &&& starts_during(RunState::Running(0), total, evs) == Seq::new(
                k,
                |j: int| (j + 1) as nat,
            )
        }),
{
    let head = clean_exits(k);
    let f = seq![failing];
    lemma_clean_exits_advance(k, total);
    lemma_run_concat(RunState::Running(0), total, head + f, later);
    lemma_run_concat(RunState::Running(0), total, head, f);
    let s = RunState::Running(k as usize);
    assert(f.drop_first() =~= Seq::<StepEvent>::empty());
    assert(after_event(s, total, failing) == RunState::Failed(k as usize));
    assert(f[0] == failing);
    assert(starts_during(RunState::Failed(k as usize), total, f.drop_first()) =~= seq![]);
    assert(run_events(RunState::Failed(k as usize), total, f.drop_first()) == RunState::Failed(k as usize));
    assert(starts_during(s, total, f) =~= seq![]);
    assert(run_events(s, total, f) == RunState::Failed(k as usize));
    lemma_settled_run_stays(RunState::Failed(k as usize), total, later);
    assert(starts_during(RunState::Running(0), total, head + f + later) =~= Seq::new(
        k,
        |j: int| (j + 1) as nat,
    ));
}

/// The events published, in order, while the events `evs` arrive.
pub open spec fn notices_during(
    p: Platform,
    steps: Seq<StepView>,
    s: RunState,
    evs: Seq<StepEvent>,
) -> Seq<EventView>
    decreases evs.len(),
{
    if evs.len() == 0 {
        seq![]
    } else {
        event_notices(p, steps, s, evs[0]) + notices_during(
            p,
            steps,
            after_event(s, steps.len(), evs[0]),
            evs.drop_first(),
        )
    }
}

/// The events of a run whose first `k` steps exit with code zero: for each of
/// them its completion notices, then the start notice of the step after it.
pub open spec fn clean_run_notices(p: Platform, steps: Seq<StepView>, k: nat) -> Seq<EventView>
    decreases k,
{
    if k == 0 {
        seq![]
    } else {
        clean_run_notices(p, steps, (k - 1) as nat) + done_notices(
            p,
            (k - 1) as nat,
            steps.len(),
            steps[k - 1].description,
        ) + launch_notices(p, steps, k)
    }
}

proof fn lemma_notices_concat(
    p: Platform,
    steps: Seq<StepView>,
    s: RunState,
    a: Seq<StepEvent>,
    b: Seq<StepEvent>,
)
    ensures
        notices_during(p, steps, s, a + b) == notices_during(p, steps, s, a) + notices_during(
            p,
            steps,
            run_events(s, steps.len(), a),
            b,
        ),
    decreases a.len(),
{
    if a.len() == 0 {
        assert(a + b =~= b);
    } else {
        assert((a + b).drop_first() =~= a.drop_first() + b);
        assert((a + b)[0] == a[0]);
        lemma_notices_concat(p, steps, after_event(s, steps.len(), a[0]), a.drop_first(), b);
        let here = event_notices(p, steps, s, a[0]);
        let t = after_event(s, steps.len(), a[0]);
        assert(notices_during(p, steps, s, a + b) =~= here + (notices_during(p, steps, t, a.drop_first())
            + notices_during(p, steps, run_events(t, steps.len(), a.drop_first()), b)));
    }
}

proof fn lemma_settled_run_silent(p: Platform, steps: Seq<StepView>, s: RunState, evs: Seq<StepEvent>)
    requires
        s is Succeeded || s is Failed,
    ensures
        notices_during(p, steps, s, evs) == Seq::<EventView>::empty(),
    decreases evs.len(),
{
    if evs.len() > 0 {
        lemma_settled_run_silent(p, steps, s, evs.drop_first());
        assert(notices_during(p, steps, s, evs) =~= Seq::<EventView>::empty());
    }
}

proof fn lemma_clean_run_notices(p: Platform, steps: Seq<StepView>, k: nat)
    requires
        k < steps.len(),
        steps.len() < usize::MAX,
    ensures
        notices_during(p, steps, RunState::Running(0), clean_exits(k)) == clean_run_notices(p, steps, k),
    decreases k,
{
    if k > 0 {
        let n = steps.len();
        lemma_clean_run_notices(p, steps, (k - 1) as nat);
        lemma_clean_exits_advance((k - 1) as nat, n);
        let last = seq![StepEvent::Terminated(Some(0i32))];
        assert(clean_exits(k) =~= clean_exits((k - 1) as nat) + last);
        lemma_notices_concat(p, steps, RunState::Running(0), clean_exits((k - 1) as nat), last);
        let s = RunState::Running((k - 1) as usize);
        assert(last.drop_first() =~= Seq::<StepEvent>::empty());
        assert(notices_during(p, steps, after_event(s, n, last[0]), last.drop_first()) =~= seq![]);
        assert(notices_during(p, steps, s, last) =~= event_notices(p, steps, s, last[0]));
    }
}

/// What the interface sees of a run that fails at step `k`: the notices of
/// the `k` clean steps before it (so start notices of steps `0 ..= k` only),
/// then one failure notice naming the reason, and nothing after it, whatever
/// is reported later.
pub proof fn lemma_failure_notice_is_last(
    p: Platform,
    steps: Seq<StepView>,
    k: nat,
    failing: StepEvent,
    later: Seq<StepEvent>,
)
    requires
        k < steps.len(),
        steps.len() < usize::MAX,
        is_failing_end(failing),
    ensures
        notices_during(p, steps, RunState::Running(0), clean_exits(k) + seq![failing] + later)
            == clean_run_notices(p, steps, k) + seq![
            failure_notice(p, k, steps.len(), failure_reason(steps, k, failing)),
        ],
{
    let n = steps.len();
    let head = clean_exits(k);
    let f = seq![failing];
    lemma_clean_exits_advance(k, n);
    lemma_clean_run_notices(p, steps, k);
    lemma_run_concat(RunState::Running(0), n, head, f);
    lemma_notices_concat(p, steps, RunState::Running(0), head + f, later);
    lemma_notices_concat(p, steps, RunState::Running(0), head, f);
    let s = RunState::Running(k as usize);
    assert(f.drop_first() =~= Seq::<StepEvent>::empty());
    assert(f[0] == failing);
    let failed = RunState::Failed(k as usize);
    assert(after_event(s, n, failing) == failed);
    assert(run_events(failed, n, f.drop_first()) == failed);
    assert(run_events(s, n, f) == failed);
    assert(notices_during(p, steps, failed, f.drop_first()) =~= seq![]);
    assert(notices_during(p, steps, s, f) =~= event_notices(p, steps, s, failing));
    lemma_settled_run_silent(p, steps, failed, later);
    assert(notices_during(p, steps, RunState::Running(0), head + f + later) =~= clean_run_notices(
        p,
        steps,
        k,
    ) + seq![failure_notice(p, k, n, failure_reason(steps, k, failing))]);
}

/// In a Linux run, after the first step the steps started are the declared
/// ones in declared order, none skipped, repeated or reordered, each run with
/// the privileged form of its declared command once the secret is held.
pub proof fn lemma_linux_commands_in_order(plan: InstallPlan, secret: Seq<char>, evs: Seq<StepEvent>)
    requires
        crate::plan::is_linux_plan(plan),
    ensures
        ({
            let steps = steps_view(plan.steps@);
            let starts = starts_during(RunState::Running(0), 7, evs);
            &&& starts.len() < 7
            &&& forall|j: int|
                0 <= j < starts.len() ==> {
                    &&& #[trigger] starts[j] == j + 1
                    &&& steps[j + 1].procedure == ProcedureView::Shell(crate::plan::linux_commands()[j + 1])
                    &&& steps[j + 1].needs_secret
                }
        }),
{
    lemma_steps_start_in_order(0, 7, evs);
    let steps = steps_view(plan.steps@);
    let starts = starts_during(RunState::Running(0), 7, evs);
    assert forall|j: int| 0 <= j < starts.len() implies {
        &&& #[trigger] starts[j] == j + 1
        &&& steps[j + 1].procedure == ProcedureView::Shell(crate::plan::linux_commands()[j + 1])
        &&& steps[j + 1].needs_secret
    } by {
        assert(plan.steps@[j + 1]@ == steps[j + 1]);
    }
}

} // verus!
