//! The supervisor: the order in which a submission probes, reports, resolves,
//! spawns and writes.
//!
//! The supervisor performs nothing itself. It asks the host for one action at a
//! time and is told what came of it; the host holds the process, its streams and
//! the lock that keeps submissions apart. Between `begin` and the `Finish` that
//! ends a submission the host must hold that lock, and it never holds it while
//! the worker's output is read.

use crate::error::{labelled, SupervisorError, SupervisorErrorView};
use crate::event::{Origin, OutputEvent, OutputEventView};
use crate::framing::{frame_message, framed};
use crate::resolver::{
    launch_plan, plan_of, resolution_of, resolve, resolve_root, root_of, LaunchPlan,
    LaunchPlanView, Layout, RootSurvey,
};
use vstd::prelude::*;
use vstd::string::*;
use vstd::utf8::*;

verus! {

/// How long a worker lives.
#[derive(Clone, Copy, Debug, PartialEq, Eq, Structural)]
pub enum Policy {
    /// One worker is kept across submissions and replaced when found dead.
    Supervised,
    /// Every submission gets a worker of its own and waits for it to end.
    FireOnce,
}

/// What the supervisor is waiting for.
#[derive(Clone, Copy, Debug, PartialEq, Eq, Structural)]
pub enum Phase {
    /// No submission is under way.
    Idle,
    /// Whether the held worker has exited.
    Probing,
    /// That the exit of the worker found dead was reported.
    Reporting,
    /// Where the root is.
    Locating,
    /// What lies under the root.
    Inspecting,
    /// Whether the worker came up.
    Spawning,
    /// Whether the message was written.
    Writing,
    /// How the worker of this submission ended.
    Draining,
    /// That the exit of the worker of this submission was reported.
    Closing,
}

/// What the host is asked to do next.
#[derive(Debug, PartialEq, Eq)]
pub enum Action {
    /// Ask the held worker, without waiting, whether it has exited.
    ProbeExit,
    /// Deliver the event to the collaborator.
    Emit(OutputEvent),
    /// Read the root override and look for the marker from the working
    /// directory upwards.
    FindRoot,
    /// Read the interpreter override and look for the entry point and the
    /// virtual environment under `root`.
    Inspect { root: String },
    /// Drop any worker held, start the process with its three streams piped
    /// and hold it. If `detached`, start one reader for each output stream
    /// before anything else is done.
    Spawn { plan: LaunchPlan, detached: bool },
    /// Write the bytes to the worker's input and flush.
    Write(Vec<u8>),
    /// Read both output streams to their end, the payload stream on the
    /// calling thread, then wait for the worker to exit and let go of it.
    Drain,
    /// The submission is over, with this result.
    Finish(Result<(), SupervisorError>),
}

/// The mathematical value of an [`Action`].
pub ghost enum ActionView {
    ProbeExit,
    Emit(OutputEventView),
    FindRoot,
    Inspect { root: Seq<char> },
    Spawn { plan: LaunchPlanView, detached: bool },
    Write(Seq<u8>),
    Drain,
    Finish(Result<(), SupervisorErrorView>),
}

impl View for Action {
    type V = ActionView;

    open spec fn view(&self) -> ActionView {
        match self {
            Action::ProbeExit => ActionView::ProbeExit,
            Action::Emit(event) => ActionView::Emit(event@),
            Action::FindRoot => ActionView::FindRoot,
            Action::Inspect { root } => ActionView::Inspect { root: root@ },
            Action::Spawn { plan, detached } => ActionView::Spawn {
                plan: plan@,
                detached: *detached,
            },
            Action::Write(bytes) => ActionView::Write(bytes@),
            Action::Drain => ActionView::Drain,
            Action::Finish(Ok(())) => ActionView::Finish(Ok(())),
            Action::Finish(Err(error)) => ActionView::Finish(Err(error@)),
        }
    }
}

/// What came of the action that the host was asked for.
#[derive(Debug, PartialEq, Eq)]
pub enum Event {
    /// The probe's answer: the exit status as text if the worker has exited,
    /// nothing if it runs or could not be asked.
    Probed(Option<String>),
    /// The event was handed to the collaborator.
    Emitted,
    /// What was seen of the root.
    RootSurveyed(RootSurvey),
    /// What was seen under the root.
    Inspected(Layout),
    /// The worker runs and is held.
    Spawned,
    /// The worker did not come up, for this reason.
    SpawnFailed(String),
    /// The bytes were written and flushed.
    Written,
    /// The bytes were not written, for this reason.
    WriteFailed(String),
    /// The worker's streams ended and it exited with this status, as text.
    Exited(String),
    /// The worker's exit could not be observed, for this reason.
    WaitFailed(String),
}

/// The event that reports a worker's exit.
pub open spec fn exit_report(status: Seq<char>) -> OutputEventView {
    OutputEventView { origin: Origin::Diagnostic, line: "sidecar exit: "@ + status }
}

/// The supervisor's state: its policy, whether the host holds a worker for it,
/// and how far the submission under way has come.
pub struct Supervisor {
    policy: Policy,
    holds_worker: bool,
    phase: Phase,
    message: String,
    root: String,
}

/// The mathematical value of a [`Supervisor`].
pub ghost struct SupervisorView {
    pub policy: Policy,
    pub holds_worker: bool,
    pub phase: Phase,
    /// The message of the submission under way.
    pub message: Seq<char>,
    /// The root that the submission under way resolved.
    pub root: Seq<char>,
}

impl View for Supervisor {
    type V = SupervisorView;

    closed spec fn view(&self) -> SupervisorView {
        SupervisorView {
            policy: self.policy,
            holds_worker: self.holds_worker,
            phase: self.phase,
            message: self.message@,
            root: self.root@,
        }
    }
}

impl SupervisorView {
    /// A supervisor that holds no worker and has nothing under way.
    pub open spec fn fresh(policy: Policy) -> SupervisorView {
        SupervisorView {
            policy,
            holds_worker: false,
            phase: Phase::Idle,
            message: Seq::empty(),
            root: Seq::empty(),
        }
    }

    /// This supervisor with nothing under way.
    pub open spec fn at_rest(self) -> SupervisorView {
        SupervisorView { phase: Phase::Idle, message: Seq::empty(), root: Seq::empty(), ..self }
    }

    /// The submission ends with `outcome`.
    pub open spec fn finish(self, outcome: Result<(), SupervisorErrorView>) -> (
        SupervisorView,
        ActionView,
    ) {
        (self.at_rest(), ActionView::Finish(outcome))
    }

    /// The search for a worker to launch starts.
    pub open spec fn locate(self) -> (SupervisorView, ActionView) {
        (SupervisorView { phase: Phase::Locating, ..self }, ActionView::FindRoot)
    }

    /// The message is sent: its bytes and one line feed, in one write.
    pub open spec fn write(self) -> (SupervisorView, ActionView) {
        (
            SupervisorView { phase: Phase::Writing, ..self },
            ActionView::Write(framed(encode_utf8(self.message))),
        )
    }

    /// The first action of a submission of `message`. A supervised worker
    /// that is held is probed; otherwise one is looked for.
    pub open spec fn begin(self, message: Seq<char>) -> (SupervisorView, ActionView) {
        let start = SupervisorView { message, root: Seq::empty(), ..self };
        if self.policy == Policy::Supervised && self.holds_worker {
            (SupervisorView { phase: Phase::Probing, ..start }, ActionView::ProbeExit)
        } else {
            start.locate()
        }
    }

    /// The state and the next action after the host's answer `event`.
    pub open spec fn step(self, event: Event) -> (SupervisorView, ActionView) {
        match (self.phase, event) {
            (Phase::Probing, Event::Probed(Some(status))) => (
                SupervisorView { phase: Phase::Reporting, holds_worker: false, ..self },
                ActionView::Emit(exit_report(status@)),
            ),
            (Phase::Probing, Event::Probed(None)) => self.write(),
            (Phase::Reporting, Event::Emitted) => self.locate(),
            (Phase::Locating, Event::RootSurveyed(survey)) => match root_of(survey) {
                Some(root) => (
                    SupervisorView { phase: Phase::Inspecting, root, ..self },
                    ActionView::Inspect { root },
                ),
                None => self.finish(Err(SupervisorErrorView::RootNotFound)),
            },
            (Phase::Inspecting, Event::Inspected(layout)) => match resolution_of(
                self.root,
                layout,
            ) {
                Ok(resolution) => (
                    SupervisorView { phase: Phase::Spawning, ..self },
                    ActionView::Spawn {
                        plan: plan_of(resolution),
                        detached: self.policy == Policy::Supervised,
                    },
                ),
                Err(error) => self.finish(Err(error)),
            },
            (Phase::Spawning, Event::Spawned) => SupervisorView {
                holds_worker: self.policy == Policy::Supervised,
                ..self
            }.write(),
            (Phase::Spawning, Event::SpawnFailed(reason)) => self.finish(
                Err(SupervisorErrorView::SpawnFailed { reason: reason@ }),
            ),
            (Phase::Writing, Event::Written) => if self.policy == Policy::Supervised {
                self.finish(Ok(()))
            } else {
                (SupervisorView { phase: Phase::Draining, ..self }, ActionView::Drain)
            },
            (Phase::Writing, Event::WriteFailed(reason)) => self.finish(
                Err(SupervisorErrorView::WriteFailed { reason: reason@ }),
            ),
            (Phase::Draining, Event::Exited(status)) => (
                SupervisorView { phase: Phase::Closing, ..self },
                ActionView::Emit(exit_report(status@)),
            ),
            (Phase::Draining, Event::WaitFailed(reason)) => self.finish(
                Err(SupervisorErrorView::WaitFailed { reason: reason@ }),
            ),
            (Phase::Closing, Event::Emitted) => self.finish(Ok(())),
            _ => self.finish(Err(SupervisorErrorView::OutOfTurn)),
        }
    }
}

impl Supervisor {
    /// A supervisor that holds no worker.
    pub fn new(policy: Policy) -> (supervisor: Supervisor)
        ensures
            supervisor@ == SupervisorView::fresh(policy),
    {
        Supervisor {
            policy,
            holds_worker: false,
            phase: Phase::Idle,
            message: String::new(),
            root: String::new(),
        }
    }

    /// The policy that this supervisor was made with.
    pub fn policy(&self) -> (policy: Policy)
        ensures
            policy == self@.policy,
    {
        self.policy
    }

    /// Whether the host holds a worker for this supervisor.
    pub fn holds_worker(&self) -> (held: bool)
        ensures
            held == self@.holds_worker,
    {
        self.holds_worker
    }

    /// What the supervisor is waiting for.
    pub fn phase(&self) -> (phase: Phase)
        ensures
            phase == self@.phase,
    {
        self.phase
    }

    /// Starts the submission of `message` and returns its first action. A
    /// submission that was under way is given up.
    pub fn begin(&mut self, message: &str) -> (action: Action)
        ensures
            final(self)@ == old(self)@.begin(message@).0,
            action@ == old(self)@.begin(message@).1,
    {
        self.message = String::from_str(message);
        self.root = String::new();
        if self.policy == Policy::Supervised && self.holds_worker {
            self.phase = Phase::Probing;
            Action::ProbeExit
        } else {
            self.phase = Phase::Locating;
            Action::FindRoot
        }
    }

    /// Takes the host's answer to the last action and returns the next one. An
    /// answer to anything but the last action ends the submission with
    /// `OutOfTurn`.
    pub fn advance(&mut self, event: Event) -> (action: Action)
        ensures
            final(self)@ == old(self)@.step(event).0,
            action@ == old(self)@.step(event).1,
    {
        match self.phase {
            Phase::Probing => match event {
                Event::Probed(Some(status)) => {
                    self.phase = Phase::Reporting;
                    self.holds_worker = false;
                    Action::Emit(exit_event(status.as_str()))
                },
                Event::Probed(None) => self.send(),
                _ => self.end(Err(SupervisorError::OutOfTurn)),
            },
            Phase::Reporting => match event {
                Event::Emitted => {
                    self.phase = Phase::Locating;
                    Action::FindRoot
                },
                _ => self.end(Err(SupervisorError::OutOfTurn)),
            },
            Phase::Locating => match event {
                Event::RootSurveyed(survey) => match resolve_root(&survey) {
                    Ok(root) => {
                        self.phase = Phase::Inspecting;
                        self.root = root.clone();
                        Action::Inspect { root }
                    },
                    Err(error) => self.end(Err(error)),
                },
                _ => self.end(Err(SupervisorError::OutOfTurn)),
            },
            Phase::Inspecting => match event {
                Event::Inspected(layout) => match resolve(self.root.clone(), &layout) {
                    Ok(resolution) => {
                        self.phase = Phase::Spawning;
                        Action::Spawn {
                            plan: launch_plan(resolution),
                            detached: self.policy == Policy::Supervised,
                        }
                    },
                    Err(error) => self.end(Err(error)),
                },
                _ => self.end(Err(SupervisorError::OutOfTurn)),
            },
            Phase::Spawning => match event {
                Event::Spawned => {
                    self.holds_worker = self.policy == Policy::Supervised;
                    self.send()
                },
                Event::SpawnFailed(reason) => self.end(
                    Err(SupervisorError::SpawnFailed { reason }),
                ),
                _ => self.end(Err(SupervisorError::OutOfTurn)),
            },
            Phase::Writing => match event {
                Event::Written => if self.policy == Policy::Supervised {
                    self.end(Ok(()))
                } else {
                    self.phase = Phase::Draining;
                    Action::Drain
                },
                Event::WriteFailed(reason) => self.end(
                    Err(SupervisorError::WriteFailed { reason }),
                ),
                _ => self.end(Err(SupervisorError::OutOfTurn)),
            },
            Phase::Draining => match event {
                Event::Exited(status) => {
                    self.phase = Phase::Closing;
                    Action::Emit(exit_event(status.as_str()))
                },
                Event::WaitFailed(reason) => self.end(
                    Err(SupervisorError::WaitFailed { reason }),
                ),
                _ => self.end(Err(SupervisorError::OutOfTurn)),
            },
            Phase::Closing => match event {
                Event::Emitted => self.end(Ok(())),
                _ => self.end(Err(SupervisorError::OutOfTurn)),
            },
            Phase::Idle => self.end(Err(SupervisorError::OutOfTurn)),
        }
    }

    /// Asks for the message of the submission under way to be written.
    fn send(&mut self) -> (action: Action)
        ensures
            final(self)@ == old(self)@.write().0,
            action@ == old(self)@.write().1,
    {
        self.phase = Phase::Writing;
        Action::Write(frame_message(self.message.as_str()))
    }

    /// Ends the submission under way.
    fn end(&mut self, outcome: Result<(), SupervisorError>) -> (action: Action)
        ensures
            final(self)@ == old(self)@.at_rest(),
            action@ == Action::Finish(outcome)@,
    {
        self.phase = Phase::Idle;
        self.message = String::new();
        self.root = String::new();
        Action::Finish(outcome)
    }
}

/// The diagnostic event that reports a worker's exit with `status`.
pub fn exit_event(status: &str) -> (event: OutputEvent)
    ensures
        event@ == exit_report(status@),
{
    OutputEvent { origin: Origin::Diagnostic, line: labelled("sidecar exit: ", status) }
}

} // verus!
