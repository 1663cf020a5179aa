//! What holds of every run of the control loop, whatever the key map, the
//! policy and the events.

use vstd::prelude::*;
use crate::command::{EventReadError, FatalError, ReadOutcome, SemanticCommand, TerminationPolicy};
use crate::editor::{
    dispatch_for,
    disposition,
    render_plan,
    run_outcome,
    Action,
    Disposition,
    EditorState,
    Phase,
    RunOutcome,
};
use crate::event::RawInputEvent;
use crate::keymap::KeyMapView;
use crate::lifecycle::{disposal_plan, interception_plan, LifecycleStep};

verus! {

/// The actions that hand a command to the document view.
pub open spec fn is_dispatch() -> spec_fn(Action) -> bool {
    |action: Action| action is Dispatch
}

/// The command that a dispatch hands over.
pub open spec fn command_in() -> spec_fn(Action) -> SemanticCommand {
    |action: Action| action->Dispatch_0
}

/// The commands that `actions` hand to the document view, in order.
pub open spec fn dispatched(actions: Seq<Action>) -> Seq<SemanticCommand> {
    actions.filter(is_dispatch()).map_values(command_in())
}

/// `input` is an event that passes the filter and has a command other than
/// the one to quit.
pub open spec fn forwards(keymap: KeyMapView, input: ReadOutcome) -> bool {
    input matches Ok(event) && disposition(keymap, event) is Forwarded
}

/// The command that `input` forwards.
pub open spec fn forwarded_command(keymap: KeyMapView, input: ReadOutcome) -> SemanticCommand
    recommends
        forwards(keymap, input),
{
    disposition(keymap, input->Ok_0)->Forwarded_0
}

/// `input` is an event that passes the filter and asks to quit.
pub open spec fn quits(keymap: KeyMapView, input: ReadOutcome) -> bool {
    input matches Ok(event) && disposition(keymap, event) is QuitRequested
}

/// [`forwards`] under a fixed key map.
pub open spec fn forwards_under(keymap: KeyMapView) -> spec_fn(ReadOutcome) -> bool {
    |input: ReadOutcome| forwards(keymap, input)
}

/// [`forwarded_command`] under a fixed key map.
pub open spec fn command_under(keymap: KeyMapView) -> spec_fn(ReadOutcome) -> SemanticCommand {
    |input: ReadOutcome| forwarded_command(keymap, input)
}

/// The commands of those among `inputs` that forward one, in the order of
/// `inputs`.
pub open spec fn forwarded(keymap: KeyMapView, inputs: Seq<ReadOutcome>) -> Seq<SemanticCommand> {
    inputs.filter(forwards_under(keymap)).map_values(command_under(keymap))
}

/// `actions` is made of dispatches and of refreshes of the screen that are
/// complete.
pub open spec fn whole_renders(actions: Seq<Action>) -> bool
    decreases actions.len(),
{
    if actions.len() == 0 {
        true
    } else if actions[0] is Dispatch {
        whole_renders(actions.skip(1))
    } else {
        &&& actions.len() >= render_plan().len()
        &&& actions.take(render_plan().len() as int) == render_plan()
        &&& whole_renders(actions.skip(render_plan().len() as int))
    }
}

/// One run after another, as a single run.
pub open spec fn followed_by(first: RunOutcome, second: RunOutcome) -> RunOutcome {
    RunOutcome {
        state: second.state,
        actions: first.actions + second.actions,
        consumed: first.consumed + second.consumed,
    }
}

proof fn lemma_dispatched_concat(a: Seq<Action>, b: Seq<Action>)
    ensures
        dispatched(a + b) == dispatched(a) + dispatched(b),
{
    Seq::filter_distributes_over_add(a, b, is_dispatch());
    assert(dispatched(a + b) =~= dispatched(a) + dispatched(b));
}

proof fn lemma_forwarded_concat(keymap: KeyMapView, a: Seq<ReadOutcome>, b: Seq<ReadOutcome>)
    ensures
        forwarded(keymap, a + b) == forwarded(keymap, a) + forwarded(keymap, b),
{
    Seq::filter_distributes_over_add(a, b, forwards_under(keymap));
    assert(forwarded(keymap, a + b) =~= forwarded(keymap, a) + forwarded(keymap, b));
}

proof fn lemma_nothing_dispatched()
    ensures
        dispatched(Seq::empty()) == Seq::<SemanticCommand>::empty(),
        dispatched(render_plan()) == Seq::<SemanticCommand>::empty(),
{
    reveal_with_fuel(Seq::filter, 6);
    assert(dispatched(Seq::empty()) =~= Seq::<SemanticCommand>::empty());
    assert(dispatched(render_plan()) =~= Seq::<SemanticCommand>::empty());
}

proof fn lemma_one_input(keymap: KeyMapView, input: ReadOutcome)
    ensures
        dispatched(dispatch_for(keymap, input)) == forwarded(keymap, seq![input]),
        forwarded(keymap, Seq::empty()) == Seq::<SemanticCommand>::empty(),
        forwards(keymap, input) ==> dispatch_for(keymap, input) == seq![
            Action::Dispatch(forwarded_command(keymap, input)),
        ],
        !forwards(keymap, input) ==> dispatch_for(keymap, input) == Seq::<Action>::empty(),
{
    reveal_with_fuel(Seq::filter, 2);
    assert(forwarded(keymap, Seq::empty()) =~= Seq::<SemanticCommand>::empty());
    if forwards(keymap, input) {
        let command = forwarded_command(keymap, input);
        assert(dispatch_for(keymap, input) =~= seq![Action::Dispatch(command)]);
        assert(dispatched(seq![Action::Dispatch(command)]) =~= seq![command]);
        assert(forwarded(keymap, seq![input]) =~= seq![command]);
    } else {
        assert(dispatch_for(keymap, input) =~= Seq::<Action>::empty());
        assert(dispatched(Seq::empty()) =~= Seq::<SemanticCommand>::empty());
        assert(forwarded(keymap, seq![input]) =~= Seq::<SemanticCommand>::empty());
    }
}

/// A run keeps the state sound and leaves policy and key map as they were.
/// It never takes more outcomes than there are, never stops at the top of an
/// iteration, and leaves outcomes untouched only where the loop has ended.
pub proof fn lemma_run_is_sound(state: EditorState, inputs: Seq<ReadOutcome>)
    requires
        state.consistent(),
    ensures
        run_outcome(state, inputs).state.consistent(),
        run_outcome(state, inputs).state.policy == state.policy,
        run_outcome(state, inputs).state.keymap == state.keymap,
        run_outcome(state, inputs).consumed <= inputs.len(),
        !(run_outcome(state, inputs).state.phase is Rendering),
        run_outcome(state, inputs).consumed < inputs.len() ==> !run_outcome(
            state,
            inputs,
        ).state.running(),
    decreases inputs.len(), (if state.phase is Rendering { 1nat } else { 0nat }),
{
    match state.phase {
        Phase::Rendering => {
            lemma_run_is_sound(state.after_render(), inputs);
        },
        Phase::AwaitingEvent => {
            if inputs.len() > 0 {
                lemma_run_is_sound(state.after_input(inputs[0]), inputs.skip(1));
            }
        },
        _ => {},
    }
}

/// The document view receives the commands in the order in which their
/// events arrived: what a run dispatches is, one for one and in the same
/// order, the commands of those outcomes it took that forward one. Nothing
/// is dispatched twice, merged, or moved.
pub proof fn lemma_dispatch_follows_arrival(state: EditorState, inputs: Seq<ReadOutcome>)
    ensures
        run_outcome(state, inputs).consumed <= inputs.len(),
        dispatched(run_outcome(state, inputs).actions) == forwarded(
            state.keymap,
            inputs.take(run_outcome(state, inputs).consumed as int),
        ),
    decreases inputs.len(), (if state.phase is Rendering { 1nat } else { 0nat }),
{
    let keymap = state.keymap;
    lemma_nothing_dispatched();
    match state.phase {
        Phase::Rendering => {
            let next = state.after_render();
            lemma_dispatch_follows_arrival(next, inputs);
            let rest = run_outcome(next, inputs);
            lemma_dispatched_concat(render_plan(), rest.actions);
            assert(dispatched(render_plan()) + dispatched(rest.actions) =~= dispatched(
                rest.actions,
            ));
        },
        Phase::AwaitingEvent => {
            if inputs.len() == 0 {
                lemma_one_input(keymap, Err(EventReadError {  }));
                assert(inputs.take(0) =~= Seq::<ReadOutcome>::empty());
            } else {
                let next = state.after_input(inputs[0]);
                let tail = inputs.skip(1);
                lemma_dispatch_follows_arrival(next, tail);
                let rest = run_outcome(next, tail);
                assert(next.keymap == keymap);
                assert(inputs.take(rest.consumed as int + 1) =~= seq![inputs[0]] + tail.take(
                    rest.consumed as int,
                ));
                lemma_forwarded_concat(keymap, seq![inputs[0]], tail.take(rest.consumed as int));
                lemma_dispatched_concat(dispatch_for(keymap, inputs[0]), rest.actions);
                lemma_one_input(keymap, inputs[0]);
            }
        },
        _ => {
            lemma_one_input(keymap, Err(EventReadError {  }));
            assert(inputs.take(0) =~= Seq::<ReadOutcome>::empty());
        },
    }
}

/// Where every outcome is an accepted event with a command other than the
/// one to quit, a loop that is running with no request to quit takes them
/// all and dispatches one command for each: the i-th dispatch is the command
/// of the i-th event.
pub proof fn lemma_one_dispatch_per_event(state: EditorState, inputs: Seq<ReadOutcome>)
    requires
        state.running(),
        !state.should_quit,
        forall|i: int| 0 <= i < inputs.len() ==> forwards(state.keymap, #[trigger] inputs[i]),
    ensures
        run_outcome(state, inputs).consumed == inputs.len(),
        run_outcome(state, inputs).state == state.at(Phase::AwaitingEvent),
        dispatched(run_outcome(state, inputs).actions).len() == inputs.len(),
        forall|i: int|
            0 <= i < inputs.len() ==> #[trigger] dispatched(run_outcome(state, inputs).actions)[i]
                == forwarded_command(state.keymap, inputs[i]),
    decreases inputs.len(), (if state.phase is Rendering { 1nat } else { 0nat }),
{
    let keymap = state.keymap;
    lemma_nothing_dispatched();
    match state.phase {
        Phase::Rendering => {
            let next = state.after_render();
            lemma_one_dispatch_per_event(next, inputs);
            let rest = run_outcome(next, inputs);
            lemma_dispatched_concat(render_plan(), rest.actions);
            assert(dispatched(render_plan()) + dispatched(rest.actions) =~= dispatched(
                rest.actions,
            ));
        },
        Phase::AwaitingEvent => {
            if inputs.len() > 0 {
                let next = state.after_input(inputs[0]);
                let tail = inputs.skip(1);
                assert(forwards(keymap, inputs[0]));
                assert(next == state.at(Phase::Rendering));
                assert forall|i: int| 0 <= i < tail.len() implies forwards(
                    next.keymap,
                    #[trigger] tail[i],
                ) by {
                    assert(tail[i] == inputs[i + 1]);
                }
                lemma_one_dispatch_per_event(next, tail);
                let rest = run_outcome(next, tail);
                lemma_one_input(keymap, inputs[0]);
                let command = forwarded_command(keymap, inputs[0]);
                lemma_dispatched_concat(seq![Action::Dispatch(command)], rest.actions);
                assert(dispatched(seq![Action::Dispatch(command)]) =~= seq![command]) by {
                    reveal_with_fuel(Seq::filter, 2);
                }
                let all = dispatched(run_outcome(state, inputs).actions);
                assert(all =~= seq![command] + dispatched(rest.actions));
                assert forall|i: int| 0 <= i < inputs.len() implies #[trigger] all[i]
                    == forwarded_command(keymap, inputs[i]) by {
                    if i > 0 {
                        assert(all[i] == dispatched(rest.actions)[i - 1]);
                        assert(tail[i - 1] == inputs[i]);
                    }
                }
            }
        },
        _ => {},
    }
}

/// The request to quit is noted at the end of a run exactly if it was noted
/// before or one of the outcomes that the run took asks to quit. Until such
/// an outcome is taken, the flag stays down; once up, it stays up.
pub proof fn lemma_quit_only_on_request(state: EditorState, inputs: Seq<ReadOutcome>)
    ensures
        run_outcome(state, inputs).consumed <= inputs.len(),
        run_outcome(state, inputs).state.should_quit <==> (state.should_quit || exists|i: int|
            0 <= i < run_outcome(state, inputs).consumed && quits(
                state.keymap,
                #[trigger] inputs[i],
            )),
    decreases inputs.len(), (if state.phase is Rendering { 1nat } else { 0nat }),
{
    let keymap = state.keymap;
    let out = run_outcome(state, inputs);
    match state.phase {
        Phase::Rendering => {
            lemma_quit_only_on_request(state.after_render(), inputs);
        },
        Phase::AwaitingEvent => {
            if inputs.len() > 0 {
                let next = state.after_input(inputs[0]);
                let tail = inputs.skip(1);
                lemma_quit_only_on_request(next, tail);
                let rest = run_outcome(next, tail);
                assert(next.keymap == keymap);
                assert(next.should_quit <==> (state.should_quit || quits(keymap, inputs[0])));
                if out.state.should_quit && !state.should_quit && !quits(keymap, inputs[0]) {
                    let j = choose|j: int|
                        0 <= j < rest.consumed && quits(keymap, #[trigger] tail[j]);
                    assert(tail[j] == inputs[j + 1]);
                    assert(quits(keymap, inputs[j + 1]));
                }
                if exists|i: int| 0 <= i < out.consumed && quits(keymap, #[trigger] inputs[i]) {
                    let i = choose|i: int|
                        0 <= i < out.consumed && quits(keymap, #[trigger] inputs[i]);
                    if i > 0 {
                        assert(tail[i - 1] == inputs[i]);
                        assert(quits(keymap, tail[i - 1]));
                    }
                }
            }
        },
        _ => {},
    }
}

/// Once a request to quit is noted, the loop takes no further outcome and
/// forwards no further command: it completes the refresh of the screen that
/// is due, if one is, and ends. An event offered to it all the same is not
/// looked at.
pub proof fn lemma_quit_ends_the_loop(state: EditorState, inputs: Seq<ReadOutcome>)
    requires
        state.consistent(),
        state.should_quit,
    ensures
        forall|event: RawInputEvent| #[trigger]
            state.response(event) == Disposition::NotAwaited && state.after_event(event) == state,
        run_outcome(state, inputs).consumed == 0,
        run_outcome(state, inputs).state == state.at(Phase::Terminating),
        run_outcome(state, inputs).actions == (if state.phase is Rendering {
            render_plan()
        } else {
            Seq::empty()
        }),
        dispatched(run_outcome(state, inputs).actions) == Seq::<SemanticCommand>::empty(),
{
    reveal_with_fuel(run_outcome, 2);
    lemma_nothing_dispatched();
    if state.phase is Rendering {
        assert(run_outcome(state, inputs).actions =~= render_plan());
    }
}

/// The loop never stops in the middle of a refresh of the screen: the
/// actions of a run are dispatches and complete refreshes.
pub proof fn lemma_renders_are_whole(state: EditorState, inputs: Seq<ReadOutcome>)
    ensures
        whole_renders(run_outcome(state, inputs).actions),
    decreases inputs.len(), (if state.phase is Rendering { 1nat } else { 0nat }),
{
    match state.phase {
        Phase::Rendering => {
            let rest = run_outcome(state.after_render(), inputs);
            lemma_renders_are_whole(state.after_render(), inputs);
            let all = render_plan() + rest.actions;
            assert(all.take(render_plan().len() as int) =~= render_plan());
            assert(all.skip(render_plan().len() as int) =~= rest.actions);
        },
        Phase::AwaitingEvent => {
            if inputs.len() > 0 {
                let keymap = state.keymap;
                let rest = run_outcome(state.after_input(inputs[0]), inputs.skip(1));
                lemma_renders_are_whole(state.after_input(inputs[0]), inputs.skip(1));
                lemma_one_input(keymap, inputs[0]);
                let all = dispatch_for(keymap, inputs[0]) + rest.actions;
                if forwards(keymap, inputs[0]) {
                    assert(all.skip(1) =~= rest.actions);
                } else {
                    assert(all =~= rest.actions);
                }
            }
        },
        _ => {},
    }
}

/// Outcomes are taken strictly in the order of their arrival, each one
/// wholly before the next: to run the loop over two batches, one after the
/// other, is to run it over both at once. Where the loop ends within the
/// first batch, the second changes nothing.
pub proof fn lemma_run_in_batches(
    state: EditorState,
    first: Seq<ReadOutcome>,
    second: Seq<ReadOutcome>,
)
    ensures
        run_outcome(state, first + second) == (if run_outcome(state, first).consumed
            == first.len() {
            followed_by(
                run_outcome(state, first),
                run_outcome(run_outcome(state, first).state, second),
            )
        } else {
            run_outcome(state, first)
        }),
    decreases first.len(), (if state.phase is Rendering { 1nat } else { 0nat }),
{
    let both = first + second;
    let head = run_outcome(state, first);
    match state.phase {
        Phase::Rendering => {
            let next = state.after_render();
            lemma_run_in_batches(next, first, second);
            let inner = run_outcome(next, first);
            if inner.consumed == first.len() {
                let tail = run_outcome(inner.state, second);
                assert(render_plan() + (inner.actions + tail.actions) =~= (render_plan()
                    + inner.actions) + tail.actions);
            }
        },
        Phase::AwaitingEvent => {
            if first.len() == 0 {
                assert(both =~= second);
                let tail = run_outcome(state, second);
                assert(Seq::<Action>::empty() + tail.actions =~= tail.actions);
            } else {
                let next = state.after_input(first[0]);
                assert(both[0] == first[0]);
                assert(both.skip(1) =~= first.skip(1) + second);
                lemma_run_in_batches(next, first.skip(1), second);
                let inner = run_outcome(next, first.skip(1));
                let lead = dispatch_for(state.keymap, first[0]);
                if inner.consumed == first.skip(1).len() {
                    let tail = run_outcome(inner.state, second);
                    assert(lead + (inner.actions + tail.actions) =~= (lead + inner.actions)
                        + tail.actions);
                }
            }
        },
        _ => {
            if first.len() == 0 {
                assert(both =~= second);
                assert(Seq::<Action>::empty() + Seq::<Action>::empty() =~= Seq::<Action>::empty());
            }
        },
    }
}

/// A failure of the event source, met while the loop waits.
///
/// Under the strict policy it ends the loop at once: nothing more is asked
/// for, no later outcome is taken, and the disposal that follows restores the
/// terminal and prints no farewell. Under the lenient policy it is dropped:
/// the loop refreshes the screen and goes on with the later outcomes as if
/// the failure had not been.
pub proof fn lemma_read_failure_by_policy(
    state: EditorState,
    error: EventReadError,
    later: Seq<ReadOutcome>,
)
    requires
        state.consistent(),
        state.phase is AwaitingEvent,
    ensures
        state.policy is Strict ==> run_outcome(state, seq![Err(error)] + later) == (RunOutcome {
            state: state.at(Phase::Aborted(FatalError::EventRead(error))),
            actions: Seq::empty(),
            consumed: 1,
        }),
        state.policy is Strict ==> disposal_plan(
            run_outcome(state, seq![Err(error)] + later).state.should_quit,
        ) == seq![LifecycleStep::RestoreTerminal],
        state.policy is Lenient ==> run_outcome(state, seq![Err(error)] + later) == (RunOutcome {
            state: run_outcome(state, later).state,
            actions: render_plan() + run_outcome(state, later).actions,
            consumed: run_outcome(state, later).consumed + 1,
        }),
{
    let inputs = seq![Err::<RawInputEvent, EventReadError>(error)] + later;
    assert(inputs[0] == Err::<RawInputEvent, EventReadError>(error));
    assert(inputs.skip(1) =~= later);
    let next = state.after_input(inputs[0]);
    reveal_with_fuel(run_outcome, 3);
    match state.policy {
        TerminationPolicy::Strict => {
            assert(run_outcome(state, inputs).actions =~= Seq::<Action>::empty());
        },
        TerminationPolicy::Lenient => {
            assert(next.after_render() == state);
            let rest = run_outcome(state, later);
            assert(run_outcome(state, inputs).actions =~= render_plan() + rest.actions);
        },
    }
}

/// The farewell is printed exactly when the editor is disposed of with the
/// request to quit noted: always after a loop that ended on such a request,
/// never after one that was aborted. The terminal is restored first on every
/// path, at disposal and in the interceptor alike.
pub proof fn lemma_farewell_only_after_quit(state: EditorState)
    requires
        state.consistent(),
    ensures
        disposal_plan(state.should_quit).contains(LifecycleStep::PrintFarewell)
            <==> state.should_quit,
        state.phase is Terminating ==> disposal_plan(state.should_quit) == seq![
            LifecycleStep::RestoreTerminal,
            LifecycleStep::PrintFarewell,
        ],
        state.phase is Aborted ==> disposal_plan(state.should_quit) == seq![
            LifecycleStep::RestoreTerminal,
        ],
        disposal_plan(state.should_quit)[0] == LifecycleStep::RestoreTerminal,
        interception_plan()[0] == LifecycleStep::RestoreTerminal,
{
    let plan = disposal_plan(state.should_quit);
    if state.should_quit {
        assert(plan[1] == LifecycleStep::PrintFarewell);
    }
}

} // verus!
