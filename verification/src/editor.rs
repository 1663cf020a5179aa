//! The control loop: render, wait for an event, filter it, translate it, and
//! either note the request to quit or forward the command.
//!
//! The loop itself is a state machine. Rendering and the wait for the next
//! event are carried out by the caller; each method here takes what happened
//! and says what is to be done next.

use vstd::prelude::*;
use crate::command::{
    EventReadError,
    FatalError,
    ReadOutcome,
    SemanticCommand,
    TerminationPolicy,
    UnsupportedCommandError,
};
use crate::event::{accepted, should_process, RawInputEvent};
use crate::keymap::{translation, KeyMap, KeyMapView};

verus! {

/// Where the control loop stands.
#[derive(Clone, Copy, Debug, PartialEq, Eq, Structural)]
pub enum Phase {
    /// At the top of an iteration: the screen is to be refreshed next.
    Rendering,
    /// The screen is fresh and the loop waits for the next event.
    AwaitingEvent,
    /// The loop has ended after a request to quit.
    Terminating,
    /// The loop has ended on a failure that the policy takes as fatal.
    Aborted(FatalError),
}

/// One request to the terminal device or to the document view.
#[derive(Clone, Copy, Debug, PartialEq, Eq, Structural)]
pub enum Action {
    HideCaret,
    RenderDocument,
    /// Move the terminal's caret to the caret position of the document view.
    PlaceCaret,
    ShowCaret,
    Flush,
    /// Hand the command to the document view.
    Dispatch(SemanticCommand),
}

/// What became of one event.
#[derive(Clone, Copy, Debug, PartialEq, Eq, Structural)]
pub enum Disposition {
    /// The filter turned the event away: it was not translated.
    Rejected,
    /// The event's command is to be forwarded to the document view.
    Forwarded(SemanticCommand),
    /// The event asked to quit: nothing is forwarded.
    QuitRequested,
    /// The event passed the filter and has no command.
    Unsupported(UnsupportedCommandError),
    /// The loop was not waiting for an event: the event was not looked at.
    NotAwaited,
}

/// The control loop's state as a mathematical value.
pub struct EditorState {
    pub should_quit: bool,
    pub phase: Phase,
    pub policy: TerminationPolicy,
    pub keymap: KeyMapView,
}

/// What was done with a batch of read outcomes, as a mathematical value.
pub struct RunOutcome {
    pub state: EditorState,
    pub actions: Seq<Action>,
    pub consumed: nat,
}

/// One refresh of the screen: the caret is hidden while the document is
/// drawn and shown again once it stands at the document's caret position.
pub open spec fn render_plan() -> Seq<Action> {
    seq![
        Action::HideCaret,
        Action::RenderDocument,
        Action::PlaceCaret,
        Action::ShowCaret,
        Action::Flush,
    ]
}

/// What becomes of `event` under `keymap`: filtered first, translated only
/// if accepted.
pub open spec fn disposition(keymap: KeyMapView, event: RawInputEvent) -> Disposition {
    if !accepted(event) {
        Disposition::Rejected
    } else {
        match translation(keymap, event) {
            Ok(SemanticCommand::Quit) => Disposition::QuitRequested,
            Ok(command) => Disposition::Forwarded(command),
            Err(error) => Disposition::Unsupported(error),
        }
    }
}

/// What one read outcome sends to the document view under `keymap`.
pub open spec fn dispatch_for(keymap: KeyMapView, input: ReadOutcome) -> Seq<Action> {
    match input {
        Ok(event) => match disposition(keymap, event) {
            Disposition::Forwarded(command) => seq![Action::Dispatch(command)],
            _ => Seq::empty(),
        },
        Err(_) => Seq::empty(),
    }
}

impl EditorState {
    /// The state in which every editor starts.
    pub open spec fn initial(policy: TerminationPolicy, keymap: KeyMapView) -> EditorState {
        EditorState { should_quit: false, phase: Phase::Rendering, policy, keymap }
    }

    /// The loop waits for an event only while no request to quit is pending,
    /// ends cleanly only after one, and aborts only without one.
    pub open spec fn consistent(self) -> bool {
        &&& self.phase is AwaitingEvent ==> !self.should_quit
        &&& self.phase is Terminating ==> self.should_quit
        &&& self.phase is Aborted ==> !self.should_quit
    }

    /// The loop has not ended.
    pub open spec fn running(self) -> bool {
        self.phase is Rendering || self.phase is AwaitingEvent
    }

    /// The state with another phase.
    pub open spec fn at(self, phase: Phase) -> EditorState {
        EditorState { phase, ..self }
    }

    /// After a refresh of the screen. At the top of an iteration the loop
    /// ends if a request to quit is pending and waits for an event if not;
    /// anywhere else a refresh changes nothing.
    pub open spec fn after_render(self) -> EditorState {
        if self.phase is Rendering {
            if self.should_quit {
                self.at(Phase::Terminating)
            } else {
                self.at(Phase::AwaitingEvent)
            }
        } else {
            self
        }
    }

    /// What the loop answers to `event`.
    pub open spec fn response(self, event: RawInputEvent) -> Disposition {
        if self.phase is AwaitingEvent {
            disposition(self.keymap, event)
        } else {
            Disposition::NotAwaited
        }
    }

    /// After `event` was handed over. While the loop waits, the event ends
    /// the iteration: a request to quit is noted, an event without a command
    /// aborts the loop under the strict policy, and in every other case the
    /// loop goes back to its top. While the loop does not wait, nothing
    /// changes.
    pub open spec fn after_event(self, event: RawInputEvent) -> EditorState {
        match self.response(event) {
            Disposition::NotAwaited => self,
            Disposition::QuitRequested => EditorState {
                should_quit: true,
                phase: Phase::Rendering,
                ..self
            },
            Disposition::Unsupported(error) => match self.policy {
                TerminationPolicy::Strict => self.at(
                    Phase::Aborted(FatalError::UnsupportedCommand(error)),
                ),
                TerminationPolicy::Lenient => self.at(Phase::Rendering),
            },
            _ => self.at(Phase::Rendering),
        }
    }

    /// After the event source failed. While the loop waits, the failure
    /// aborts it under the strict policy and is dropped under the lenient
    /// one; while the loop does not wait, nothing changes.
    pub open spec fn after_read_failure(self, error: EventReadError) -> EditorState {
        if self.phase is AwaitingEvent {
            match self.policy {
                TerminationPolicy::Strict => self.at(Phase::Aborted(FatalError::EventRead(error))),
                TerminationPolicy::Lenient => self.at(Phase::Rendering),
            }
        } else {
            self
        }
    }

    /// After one read outcome.
    pub open spec fn after_input(self, input: ReadOutcome) -> EditorState {
        match input {
            Ok(event) => self.after_event(event),
            Err(error) => self.after_read_failure(error),
        }
    }
}

/// The control loop run from `state` over the read outcomes `inputs`, in
/// the order in which they arrived.
///
/// At the top of an iteration the screen is refreshed. While the loop waits,
/// it takes the next outcome, if there is one, and forwards what that
/// outcome dispatches. It stops where the outcomes run out or the loop has
/// ended, and reports the state then, every action asked for on the way, and
/// how many outcomes it took.
pub open spec fn run_outcome(state: EditorState, inputs: Seq<ReadOutcome>) -> RunOutcome
    decreases inputs.len(), (if state.phase is Rendering { 1nat } else { 0nat }),
{
    match state.phase {
        Phase::Rendering => {
            let rest = run_outcome(state.after_render(), inputs);
            RunOutcome {
                state: rest.state,
                actions: render_plan() + rest.actions,
                consumed: rest.consumed,
            }
        },
        Phase::AwaitingEvent => {
            if inputs.len() == 0 {
                RunOutcome { state, actions: Seq::empty(), consumed: 0 }
            } else {
                let rest = run_outcome(state.after_input(inputs[0]), inputs.skip(1));
                RunOutcome {
                    state: rest.state,
                    actions: dispatch_for(state.keymap, inputs[0]) + rest.actions,
                    consumed: rest.consumed + 1,
                }
            }
        },
        _ => RunOutcome { state, actions: Seq::empty(), consumed: 0 },
    }
}

/// What a call of [`Editor::run`] did.
pub struct RunReport {
    /// The requests to carry out, in this order.
    pub actions: Vec<Action>,
    /// How many of the read outcomes were taken.
    pub consumed: usize,
}

/// The editor's control state.
pub struct Editor {
    should_quit: bool,
    phase: Phase,
    policy: TerminationPolicy,
    keymap: KeyMap,
}

impl View for Editor {
    type V = EditorState;

    closed spec fn view(&self) -> EditorState {
        EditorState {
            should_quit: self.should_quit,
            phase: self.phase,
            policy: self.policy,
            keymap: self.keymap@,
        }
    }
}

impl Editor {
    #[verifier::type_invariant]
    spec fn valid(self) -> bool {
        self@.consistent()
    }

    /// An editor at the top of its first iteration, with no request to quit.
    pub fn new(policy: TerminationPolicy, keymap: KeyMap) -> (editor: Editor)
        ensures
            editor@ == EditorState::initial(policy, keymap@),
    {
        Editor { should_quit: false, phase: Phase::Rendering, policy, keymap }
    }

    /// Whether a request to quit has been noted.
    pub fn should_quit(&self) -> (flag: bool)
        ensures
            flag == self@.should_quit,
    {
        self.should_quit
    }

    /// Where the loop stands.
    pub fn phase(&self) -> (phase: Phase)
        ensures
            phase == self@.phase,
            self@.consistent(),
    {
        proof {
            use_type_invariant(self);
        }
        self.phase
    }

    /// The policy the editor was made with.
    pub fn policy(&self) -> (policy: TerminationPolicy)
        ensures
            policy == self@.policy,
    {
        self.policy
    }

    /// The key map the editor was made with.
    pub fn keymap(&self) -> (keymap: &KeyMap)
        ensures
            keymap@ == self@.keymap,
    {
        &self.keymap
    }

    /// Refreshes the screen: returns the requests that do so, in order.
    /// At the top of an iteration this is the loop's render step, after which
    /// the loop ends or waits for an event.
    pub fn refresh_screen(&mut self) -> (plan: Vec<Action>)
        ensures
            plan@ == render_plan(),
            final(self)@ == old(self)@.after_render(),
    {
        let mut plan: Vec<Action> = Vec::new();
        plan.push(Action::HideCaret);
        plan.push(Action::RenderDocument);
        plan.push(Action::PlaceCaret);
        plan.push(Action::ShowCaret);
        plan.push(Action::Flush);
        assert(plan@ =~= render_plan());
        match self.phase {
            Phase::Rendering => {
                if self.should_quit {
                    self.phase = Phase::Terminating;
                } else {
                    self.phase = Phase::AwaitingEvent;
                }
            },
            _ => {},
        }
        plan
    }

    /// Takes the event that the event source delivered: filters it,
    /// translates it if accepted, and notes a request to quit. A command to
    /// forward comes back in the result; the caller hands it to the document
    /// view.
    pub fn evaluate_event(&mut self, event: RawInputEvent) -> (outcome: Disposition)
        ensures
            outcome == old(self)@.response(event),
            final(self)@ == old(self)@.after_event(event),
    {
        proof {
            use_type_invariant(&*self);
        }
        match self.phase {
            Phase::AwaitingEvent => {},
            _ => {
                return Disposition::NotAwaited;
            },
        }
        if !should_process(&event) {
            self.phase = Phase::Rendering;
            return Disposition::Rejected;
        }
        match self.keymap.translate(event) {
            Ok(command) => {
                self.phase = Phase::Rendering;
                if command == SemanticCommand::Quit {
                    self.should_quit = true;
                    Disposition::QuitRequested
                } else {
                    Disposition::Forwarded(command)
                }
            },
            Err(error) => {
                match self.policy {
                    TerminationPolicy::Strict => {
                        self.phase = Phase::Aborted(FatalError::UnsupportedCommand(error));
                    },
                    TerminationPolicy::Lenient => {
                        self.phase = Phase::Rendering;
                    },
                }
                Disposition::Unsupported(error)
            },
        }
    }

    /// Takes the failure of the event source to deliver an event.
    pub fn read_failed(&mut self, error: EventReadError)
        ensures
            final(self)@ == old(self)@.after_read_failure(error),
    {
        proof {
            use_type_invariant(&*self);
        }
        match self.phase {
            Phase::AwaitingEvent => {
                match self.policy {
                    TerminationPolicy::Strict => {
                        self.phase = Phase::Aborted(FatalError::EventRead(error));
                    },
                    TerminationPolicy::Lenient => {
                        self.phase = Phase::Rendering;
                    },
                }
            },
            _ => {},
        }
    }

    /// Runs the control loop over the read outcomes that have arrived, and
    /// returns what is to be carried out. The loop stops where it needs an
    /// outcome that is not there yet, or where it has ended; the next call
    /// goes on from there.
    pub fn run(&mut self, inputs: &Vec<ReadOutcome>) -> (report: RunReport)
        ensures
            final(self)@ == run_outcome(old(self)@, inputs@).state,
            report.actions@ == run_outcome(old(self)@, inputs@).actions,
            report.consumed == run_outcome(old(self)@, inputs@).consumed,
    {
        let ghost whole = run_outcome(self@, inputs@);
        let mut actions: Vec<Action> = Vec::new();
        let mut consumed: usize = 0;
        assert(inputs@.skip(0) =~= inputs@);
        loop
            invariant
                consumed <= inputs.len(),
                whole.state == run_outcome(self@, inputs@.skip(consumed as int)).state,
                whole.actions =~= actions@ + run_outcome(
                    self@,
                    inputs@.skip(consumed as int),
                ).actions,
                whole.consumed == consumed + run_outcome(
                    self@,
                    inputs@.skip(consumed as int),
                ).consumed,
            ensures
                whole.state == self@,
                whole.actions =~= actions@,
                whole.consumed == consumed,
            decreases inputs.len() - consumed, (if self@.phase is Rendering { 1nat } else { 0nat }),
        {
            let ghost before = self@;
            let ghost pending = inputs@.skip(consumed as int);
            match self.phase {
                Phase::Rendering => {
                    let mut plan = self.refresh_screen();
                    actions.append(&mut plan);
                },
                Phase::AwaitingEvent => {
                    if consumed == inputs.len() {
                        break ;
                    }
                    assert(pending[0] == inputs@[consumed as int]);
                    assert(pending.skip(1) =~= inputs@.skip(consumed + 1));
                    match inputs[consumed] {
                        Ok(event) => {
                            match self.evaluate_event(event) {
                                Disposition::Forwarded(command) => {
                                    actions.push(Action::Dispatch(command));
                                },
                                _ => {},
                            }
                        },
                        Err(error) => {
                            self.read_failed(error);
                        },
                    }
                    consumed = consumed + 1;
                },
                _ => {
                    break ;
                },
            }
        }
        RunReport { actions, consumed }
    }
}

} // verus!
