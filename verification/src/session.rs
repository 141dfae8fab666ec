//! What holds of whole submissions, and of one submission after another.
//!
//! A call is a message together with the answers that the host gave while the
//! call was under way. The theorems below speak of every call: the host's
//! answers may be any events at all, in any number.

use crate::framing::{
    complete_lines, framed, joined, lemma_lines_of_joined, lemma_text_is_single_line,
    single_line, unfinished,
};
use crate::resolver::{plan_of, resolution_of, root_of, Layout, RootSurvey};
use crate::supervisor::{exit_report, ActionView, Event, Phase, Policy, SupervisorView};
use vstd::prelude::*;
use vstd::utf8::*;

verus! {

/// One submission as the host saw it.
pub ghost struct Call {
    pub message: Seq<char>,
    pub answers: Seq<Event>,
}

/// The state after the host's `answers`, and the actions that they were
/// answered with, in order.
pub open spec fn run(state: SupervisorView, answers: Seq<Event>) -> (
    SupervisorView,
    Seq<ActionView>,
)
    decreases answers.len(),
{
    if answers.len() == 0 {
        (state, Seq::empty())
    } else {
        let (before, asked) = run(state, answers.drop_last());
        let (after, action) = before.step(answers.last());
        (after, asked.push(action))
    }
}

/// The state after a call, and every action that the host was asked for during
/// it, the first one included.
pub open spec fn submission(state: SupervisorView, call: Call) -> (
    SupervisorView,
    Seq<ActionView>,
) {
    let (started, first) = state.begin(call.message);
    let (ended, asked) = run(started, call.answers);
    (ended, seq![first] + asked)
}

/// The state after `calls`, one after another, and every action asked for.
/// The order of the calls is the order in which they took the host's lock.
pub open spec fn session(state: SupervisorView, calls: Seq<Call>) -> (
    SupervisorView,
    Seq<ActionView>,
)
    decreases calls.len(),
{
    if calls.len() == 0 {
        (state, Seq::empty())
    } else {
        let (before, asked) = session(state, calls.drop_last());
        let (after, more) = submission(before, calls.last());
        (after, asked + more)
    }
}

/// How many processes the actions start.
pub open spec fn spawns(actions: Seq<ActionView>) -> nat
    decreases actions.len(),
{
    if actions.len() == 0 {
        0
    } else {
        spawns(actions.drop_last()) + if actions.last() is Spawn {
            1nat
        } else {
            0nat
        }
    }
}

/// What the actions put on the worker's input, in order.
pub open spec fn input_stream(actions: Seq<ActionView>) -> Seq<u8>
    decreases actions.len(),
{
    if actions.len() == 0 {
        Seq::empty()
    } else {
        match actions.last() {
            ActionView::Write(bytes) => input_stream(actions.drop_last()) + bytes,
            _ => input_stream(actions.drop_last()),
        }
    }
}

/// Whether the answer says that the held worker was found dead.
pub open spec fn found_dead(event: Event) -> bool {
    match event {
        Event::Probed(Some(_)) => true,
        _ => false,
    }
}

/// The messages of `calls` as the lines they travel as.
pub open spec fn message_lines(calls: Seq<Call>) -> Seq<Seq<u8>> {
    calls.map_values(|call: Call| encode_utf8(call.message))
}

/// The processes started by two runs of actions add up.
pub proof fn lemma_spawns_concat(first: Seq<ActionView>, second: Seq<ActionView>)
    ensures
        spawns(first + second) == spawns(first) + spawns(second),
    decreases second.len(),
{
    if second.len() == 0 {
        assert(first + second =~= first);
    } else {
        lemma_spawns_concat(first, second.drop_last());
        assert((first + second).drop_last() =~= first + second.drop_last());
        assert((first + second).last() == second.last());
    }
}

/// What two runs of actions write is what the first writes, then what the
/// second writes.
pub proof fn lemma_input_stream_concat(first: Seq<ActionView>, second: Seq<ActionView>)
    ensures
        input_stream(first + second) == input_stream(first) + input_stream(second),
    decreases second.len(),
{
    if second.len() == 0 {
        assert(first + second =~= first);
        assert(input_stream(first) + input_stream(second) =~= input_stream(first));
    } else {
        lemma_input_stream_concat(first, second.drop_last());
        assert((first + second).drop_last() =~= first + second.drop_last());
        assert((first + second).last() == second.last());
        match second.last() {
            ActionView::Write(bytes) => {
                assert((input_stream(first) + input_stream(second.drop_last())) + bytes
                    =~= input_stream(first) + (input_stream(second.drop_last()) + bytes));
            },
            _ => {},
        }
    }
}

/// The first action of a call starts no process and writes nothing.
pub proof fn lemma_first_action_starts_nothing(state: SupervisorView, message: Seq<char>)
    ensures
        spawns(seq![state.begin(message).1]) == 0,
        input_stream(seq![state.begin(message).1]) == Seq::<u8>::empty(),
{
    let first = seq![state.begin(message).1];
    assert(first.drop_last() =~= Seq::<ActionView>::empty());
    assert(spawns(first.drop_last()) == 0);
    assert(input_stream(first.drop_last()) == Seq::<u8>::empty());
}

/// A supervised worker that is held and alive, at any point of a call.
spec fn reusing(state: SupervisorView) -> bool {
    &&& state.policy == Policy::Supervised
    &&& state.holds_worker
    &&& (state.phase == Phase::Probing || state.phase == Phase::Writing || state.phase
        == Phase::Idle)
}

proof fn lemma_run_reuses(state: SupervisorView, answers: Seq<Event>)
    requires
        reusing(state),
        forall|j: int| 0 <= j < answers.len() ==> !found_dead(#[trigger] answers[j]),
    ensures
        reusing(run(state, answers).0),
        spawns(run(state, answers).1) == 0,
    decreases answers.len(),
{
    if answers.len() != 0 {
        lemma_run_reuses(state, answers.drop_last());
        assert(!found_dead(answers[answers.len() - 1]));
        let asked = run(state, answers.drop_last()).1;
        let action = run(state, answers.drop_last()).0.step(answers.last()).1;
        assert(asked.push(action).drop_last() =~= asked);
    }
}

/// A supervised call that began without a worker, at any point: `started`
/// processes were asked for so far.
spec fn launching(state: SupervisorView, started: nat) -> bool {
    &&& state.policy == Policy::Supervised
    &&& match state.phase {
        Phase::Locating | Phase::Inspecting => started == 0 && !state.holds_worker,
        Phase::Spawning => started == 1 && !state.holds_worker,
        Phase::Writing => started == 1 && state.holds_worker,
        Phase::Idle => started <= 1 && (state.holds_worker ==> started == 1),
        _ => false,
    }
}

proof fn lemma_run_launches(state: SupervisorView, answers: Seq<Event>)
    requires
        launching(state, 0),
    ensures
        launching(run(state, answers).0, spawns(run(state, answers).1)),
    decreases answers.len(),
{
    if answers.len() != 0 {
        lemma_run_launches(state, answers.drop_last());
        let asked = run(state, answers.drop_last()).1;
        let action = run(state, answers.drop_last()).0.step(answers.last()).1;
        assert(asked.push(action).drop_last() =~= asked);
    }
}

/// While a supervised worker is held and no probe finds it dead, a call starts
/// no process and the worker stays held.
pub proof fn theorem_live_worker_is_reused(state: SupervisorView, call: Call)
    requires
        state.policy == Policy::Supervised,
        state.holds_worker,
        forall|j: int| 0 <= j < call.answers.len() ==> !found_dead(#[trigger] call.answers[j]),
    ensures
        spawns(submission(state, call).1) == 0,
        submission(state, call).0.holds_worker,
        submission(state, call).0.policy == Policy::Supervised,
{
    let (started, first) = state.begin(call.message);
    lemma_run_reuses(started, call.answers);
    lemma_spawns_concat(seq![first], run(started, call.answers).1);
    lemma_first_action_starts_nothing(state, call.message);
}

/// A supervised call that begins without a worker starts at most one process,
/// and exactly one if a worker is held when it ends.
pub proof fn theorem_first_call_spawns_once(state: SupervisorView, call: Call)
    requires
        state.policy == Policy::Supervised,
        !state.holds_worker,
    ensures
        spawns(submission(state, call).1) <= 1,
        submission(state, call).0.holds_worker ==> spawns(submission(state, call).1) == 1,
        submission(state, call).0.policy == Policy::Supervised,
{
    let (started, first) = state.begin(call.message);
    lemma_run_launches(started, call.answers);
    lemma_spawns_concat(seq![first], run(started, call.answers).1);
    lemma_first_action_starts_nothing(state, call.message);
}

/// However many calls are made: if the first one brings a worker up and no
/// later probe finds it dead, exactly one process is started in all.
pub proof fn theorem_one_spawn_while_alive(policy: Policy, calls: Seq<Call>)
    requires
        policy == Policy::Supervised,
        calls.len() >= 1,
        submission(SupervisorView::fresh(policy), calls[0]).0.holds_worker,
        forall|i: int, j: int|
            1 <= i < calls.len() && 0 <= j < calls[i].answers.len() ==> !found_dead(
                #[trigger] calls[i].answers[j],
            ),
    ensures
        spawns(session(SupervisorView::fresh(policy), calls).1) == 1,
        session(SupervisorView::fresh(policy), calls).0.holds_worker,
        session(SupervisorView::fresh(policy), calls).0.policy == Policy::Supervised,
    decreases calls.len(),
{
    let fresh = SupervisorView::fresh(policy);
    let earlier = calls.drop_last();
    if calls.len() == 1 {
        assert(session(fresh, earlier).1 =~= Seq::<ActionView>::empty());
        assert(session(fresh, earlier).0 == fresh);
        theorem_first_call_spawns_once(fresh, calls[0]);
        assert(Seq::<ActionView>::empty() + submission(fresh, calls[0]).1 =~= submission(
            fresh,
            calls[0],
        ).1);
    } else {
        assert(earlier[0] == calls[0]);
        assert forall|i: int, j: int|
            1 <= i < earlier.len() && 0 <= j < earlier[i].answers.len() implies !found_dead(
            #[trigger] earlier[i].answers[j],
        ) by {
            assert(earlier[i] == calls[i]);
        }
        theorem_one_spawn_while_alive(policy, earlier);
        let last = calls.last();
        assert forall|j: int| 0 <= j < last.answers.len() implies !found_dead(
            #[trigger] last.answers[j],
        ) by {
            assert(last == calls[calls.len() - 1]);
        }
        theorem_live_worker_is_reused(session(fresh, earlier).0, last);
        lemma_spawns_concat(
            session(fresh, earlier).1,
            submission(session(fresh, earlier).0, last).1,
        );
    }
}

/// Any call, at any point: `started` processes were asked for so far.
spec fn within_one_spawn(state: SupervisorView, started: nat) -> bool {
    match state.phase {
        Phase::Probing | Phase::Reporting | Phase::Locating | Phase::Inspecting => started == 0,
        Phase::Spawning => started == 1,
        _ => started <= 1,
    }
}

proof fn lemma_run_spawns_at_most_once(state: SupervisorView, answers: Seq<Event>)
    requires
        within_one_spawn(state, 0),
        state.phase == Phase::Probing || state.phase == Phase::Locating,
    ensures
        within_one_spawn(run(state, answers).0, spawns(run(state, answers).1)),
    decreases answers.len(),
{
    if answers.len() != 0 {
        lemma_run_spawns_at_most_once(state, answers.drop_last());
        let asked = run(state, answers.drop_last()).1;
        let action = run(state, answers.drop_last()).0.step(answers.last()).1;
        assert(asked.push(action).drop_last() =~= asked);
    }
}

/// No call starts more than one process, whatever the policy, the state it
/// begins in and the host's answers.
pub proof fn theorem_at_most_one_spawn(state: SupervisorView, call: Call)
    ensures
        spawns(submission(state, call).1) <= 1,
{
    let (started, first) = state.begin(call.message);
    lemma_run_spawns_at_most_once(started, call.answers);
    lemma_spawns_concat(seq![first], run(started, call.answers).1);
    lemma_first_action_starts_nothing(state, call.message);
}

/// One more answer adds one step to a run.
pub proof fn lemma_run_push(state: SupervisorView, answers: Seq<Event>, event: Event)
    ensures
        run(state, answers.push(event)).0 == run(state, answers).0.step(event).0,
        run(state, answers.push(event)).1 == run(state, answers).1.push(
            run(state, answers).0.step(event).1,
        ),
{
    assert(answers.push(event).drop_last() =~= answers);
}

/// A held worker that the probe finds dead is replaced: its exit is reported
/// first, then the root is resolved anew and one process is started, and the
/// message goes to the new worker.
pub proof fn theorem_dead_worker_is_replaced(
    state: SupervisorView,
    message: Seq<char>,
    status: String,
    survey: RootSurvey,
    layout: Layout,
)
    requires
        state.policy == Policy::Supervised,
        state.holds_worker,
        root_of(survey) is Some,
        layout.entry_exists,
    ensures
        ({
            let call = Call {
                message,
                answers: seq![
                    Event::Probed(Some(status)),
                    Event::Emitted,
                    Event::RootSurveyed(survey),
                    Event::Inspected(layout),
                    Event::Spawned,
                    Event::Written,
                ],
            };
            let root = root_of(survey)->0;
            let resolution = resolution_of(root, layout)->Ok_0;
            &&& submission(state, call).1 == seq![
                ActionView::ProbeExit,
                ActionView::Emit(exit_report(status@)),
                ActionView::FindRoot,
                ActionView::Inspect { root },
                ActionView::Spawn { plan: plan_of(resolution), detached: true },
                ActionView::Write(framed(encode_utf8(message))),
                ActionView::Finish(Ok(())),
            ]
            &&& submission(state, call).0 == SupervisorView { holds_worker: true, ..state }.at_rest()
            &&& spawns(submission(state, call).1) == 1
        }),
{
    let e1 = Event::Probed(Some(status));
    let e2 = Event::Emitted;
    let e3 = Event::RootSurveyed(survey);
    let e4 = Event::Inspected(layout);
    let e5 = Event::Spawned;
    let e6 = Event::Written;
    let answers = seq![e1, e2, e3, e4, e5, e6];
    let call = Call { message, answers };
    let started = state.begin(message).0;
    let none = Seq::<Event>::empty();
    lemma_run_push(started, none, e1);
    lemma_run_push(started, none.push(e1), e2);
    lemma_run_push(started, none.push(e1).push(e2), e3);
    lemma_run_push(started, none.push(e1).push(e2).push(e3), e4);
    lemma_run_push(started, none.push(e1).push(e2).push(e3).push(e4), e5);
    lemma_run_push(started, none.push(e1).push(e2).push(e3).push(e4).push(e5), e6);
    assert(answers =~= none.push(e1).push(e2).push(e3).push(e4).push(e5).push(e6));
    let root = root_of(survey)->0;
    let resolution = resolution_of(root, layout)->Ok_0;
    let expected = seq![
        ActionView::ProbeExit,
        ActionView::Emit(exit_report(status@)),
        ActionView::FindRoot,
        ActionView::Inspect { root },
        ActionView::Spawn { plan: plan_of(resolution), detached: true },
        ActionView::Write(framed(encode_utf8(message))),
        ActionView::Finish(Ok(())),
    ];
    assert(submission(state, call).1 =~= expected);
    theorem_at_most_one_spawn(state, call);
    lemma_spawns_concat(expected.take(5), expected.skip(5));
    assert(expected.take(5) + expected.skip(5) =~= expected);
    assert(expected.take(5).last() is Spawn);
}

/// Whether the actions end a call with success.
pub open spec fn succeeded(actions: Seq<ActionView>) -> bool {
    actions.len() > 0 && actions.last() == ActionView::Finish(Ok(()))
}

/// Any call of `message`, at any point, with the actions asked since it began.
spec fn within_one_write(state: SupervisorView, message: Seq<char>, asked: Seq<ActionView>) -> bool {
    let line = framed(encode_utf8(message));
    match state.phase {
        Phase::Probing | Phase::Reporting | Phase::Locating | Phase::Inspecting | Phase::Spawning => {
            &&& state.message == message
            &&& input_stream(asked) == Seq::<u8>::empty()
            &&& !succeeded(asked)
        },
        Phase::Writing | Phase::Draining | Phase::Closing => {
            &&& input_stream(asked) == line
            &&& !succeeded(asked)
        },
        Phase::Idle => {
            &&& input_stream(asked) == Seq::<u8>::empty() || input_stream(asked) == line
            &&& succeeded(asked) ==> input_stream(asked) == line
        },
    }
}

proof fn lemma_run_writes_once(
    state: SupervisorView,
    message: Seq<char>,
    first: ActionView,
    answers: Seq<Event>,
)
    requires
        state.message == message,
        state.phase == Phase::Probing || state.phase == Phase::Locating,
        first is ProbeExit || first is FindRoot,
    ensures
        within_one_write(run(state, answers).0, message, seq![first] + run(state, answers).1),
    decreases answers.len(),
{
    if answers.len() == 0 {
        assert(seq![first] + run(state, answers).1 =~= seq![first]);
        assert(seq![first].drop_last() =~= Seq::<ActionView>::empty());
        assert(input_stream(seq![first].drop_last()) == Seq::<u8>::empty());
    } else {
        lemma_run_writes_once(state, message, first, answers.drop_last());
        let before = run(state, answers.drop_last()).0;
        let asked = run(state, answers.drop_last()).1;
        let action = before.step(answers.last()).1;
        assert((seq![first] + asked.push(action)).drop_last() =~= seq![first] + asked);
        assert((seq![first] + asked.push(action)).last() == action);
        assert(Seq::<u8>::empty() + framed(encode_utf8(message)) =~= framed(
            encode_utf8(message),
        ));
    }
}

/// A call puts on the worker's input either nothing or its message as one
/// line, whole and once; a call that succeeds has put it there.
pub proof fn theorem_message_written_whole(state: SupervisorView, call: Call)
    ensures
        input_stream(submission(state, call).1) == Seq::<u8>::empty() || input_stream(
            submission(state, call).1,
        ) == framed(encode_utf8(call.message)),
        succeeded(submission(state, call).1) ==> input_stream(submission(state, call).1)
            == framed(encode_utf8(call.message)),
{
    let (started, first) = state.begin(call.message);
    lemma_run_writes_once(started, call.message, first, call.answers);
}

/// Whether each of `calls`, made one after another from `state`, succeeds.
pub open spec fn all_succeeded(state: SupervisorView, calls: Seq<Call>) -> bool
    decreases calls.len(),
{
    calls.len() == 0 || {
        &&& all_succeeded(state, calls.drop_last())
        &&& succeeded(submission(session(state, calls.drop_last()).0, calls.last()).1)
    }
}

/// The worker's input after calls that all succeed is their messages, one
/// line each, in the order of the calls: no line is missing, doubled or mixed
/// with another.
pub proof fn theorem_input_is_the_messages(state: SupervisorView, calls: Seq<Call>)
    requires
        all_succeeded(state, calls),
    ensures
        input_stream(session(state, calls).1) == joined(message_lines(calls)),
    decreases calls.len(),
{
    if calls.len() != 0 {
        let earlier = calls.drop_last();
        theorem_input_is_the_messages(state, earlier);
        theorem_message_written_whole(session(state, earlier).0, calls.last());
        lemma_input_stream_concat(
            session(state, earlier).1,
            submission(session(state, earlier).0, calls.last()).1,
        );
        assert(message_lines(calls).drop_last() =~= message_lines(earlier));
        assert(message_lines(calls).last() == encode_utf8(calls.last().message));
    }
}

/// If no message of calls that all succeed holds a line feed, the worker reads
/// from its input exactly the messages, each as one line, and no unfinished
/// line is left.
pub proof fn theorem_worker_reads_the_messages(state: SupervisorView, calls: Seq<Call>)
    requires
        all_succeeded(state, calls),
        forall|i: int| 0 <= i < calls.len() ==> !(#[trigger] calls[i]).message.contains('\n'),
    ensures
        complete_lines(input_stream(session(state, calls).1)) == message_lines(calls),
        unfinished(input_stream(session(state, calls).1)) == Seq::<u8>::empty(),
{
    theorem_input_is_the_messages(state, calls);
    let lines = message_lines(calls);
    assert forall|k: int| 0 <= k < lines.len() implies single_line(#[trigger] lines[k]) by {
        lemma_text_is_single_line(calls[k].message);
    }
    lemma_lines_of_joined(lines, Seq::empty());
    assert(joined(lines) + Seq::<u8>::empty() =~= joined(lines));
}

} // verus!
