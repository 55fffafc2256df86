//! What a program that follows the usual loop sees of the iterations of the
//! event loop: it waits, receives the input events until they are over, then
//! the redraw requests until they are over, and waits again.
use vstd::prelude::*;
use crate::event::{EventAsync, LoopControlFlow, LoopEvent, LoopStartCause};
use crate::future::{
    as_input, is_input, next_input_step, next_redraw_step, open_receiver_step, open_redraws_step,
    wait_step, Progress, SharedState,
};

verus! {

/// The future that such a program awaits.
pub enum Stage {
    /// `runner.wait()`
    Waiting,
    /// `runner.recv_events()`
    Opening,
    /// `receiver.next()`, a fresh one after each event
    Receiving,
    /// `receiver.redraw_requests()`
    OpeningRedraws,
    /// `redraw_receiver.next()`, a fresh one after each request
    Redrawing,
}

/// What one poll of the program's current future yields: its next stage, the
/// shared state afterwards, the input event or the window it got, and whether
/// the future was ready, so that the program goes on to its next await.
pub open spec fn stage_poll<E: 'static>(stage: Stage, s: SharedState<E>) -> (
    Stage,
    SharedState<E>,
    Option<EventAsync<E>>,
    Option<winit::window::WindowId>,
    bool,
) {
    match stage {
        Stage::Waiting => {
            let (s2, cause) = wait_step(s, LoopControlFlow::Wait);
            if cause is Some {
                (Stage::Opening, s2, None, None, true)
            } else {
                (Stage::Waiting, s2, None, None, false)
            }
        },
        Stage::Opening => {
            let (s2, ready) = open_receiver_step(s);
            if ready {
                (Stage::Receiving, s2, None, None, true)
            } else {
                (Stage::Opening, s2, None, None, false)
            }
        },
        Stage::Receiving => {
            let (_, s2, r) = next_input_step(false, s);
            match r {
                Progress::Ready(Some(e)) => (Stage::Receiving, s2, Some(e), None, true),
                Progress::Ready(None) => (Stage::OpeningRedraws, s2, None, None, true),
                Progress::Pending => (Stage::Receiving, s2, None, None, false),
            }
        },
        Stage::OpeningRedraws => {
            let (s2, ready) = open_redraws_step(s);
            if ready {
                (Stage::Redrawing, s2, None, None, true)
            } else {
                (Stage::OpeningRedraws, s2, None, None, false)
            }
        },
        Stage::Redrawing => {
            let (_, s2, r) = next_redraw_step(false, s);
            match r {
                Progress::Ready(Some(w)) => (Stage::Redrawing, s2, None, Some(w), true),
                Progress::Ready(None) => (Stage::Waiting, s2, None, None, true),
                Progress::Pending => (Stage::Redrawing, s2, None, None, false),
            }
        },
    }
}

/// The sequence of zero or one item.
pub open spec fn opt_seq<T>(o: Option<T>) -> Seq<T> {
    match o {
        Some(x) => seq![x],
        None => Seq::empty(),
    }
}

/// The program polled until its current future is pending, at most `fuel`
/// times: its stage, the shared state, and the input events and windows it got.
pub open spec fn run_stage<E: 'static>(stage: Stage, s: SharedState<E>, fuel: nat) -> (
    Stage,
    SharedState<E>,
    Seq<EventAsync<E>>,
    Seq<winit::window::WindowId>,
)
    decreases fuel,
{
    if fuel == 0 {
        (stage, s, Seq::empty(), Seq::empty())
    } else {
        let (st2, s2, e, w, progressed) = stage_poll(stage, s);
        if !progressed {
            (st2, s2, Seq::empty(), Seq::empty())
        } else {
            let (st3, s3, es, ws) = run_stage(st2, s2, (fuel - 1) as nat);
            (st3, s3, opt_seq(e) + es, opt_seq(w) + ws)
        }
    }
}

/// One callback of the loop with `ev` while the loop's control flow is
/// `control_flow`: the program's handler polled until it is pending.
pub open spec fn callback<E: 'static>(stage: Stage, control_flow: LoopControlFlow, ev: LoopEvent<E>) -> (
    Stage,
    SharedState<E>,
    Seq<EventAsync<E>>,
    Seq<winit::window::WindowId>,
) {
    run_stage(stage, SharedState { next_event: Some(ev), control_flow }, 5)
}

/// Callbacks with the events `evs` in turn, each starting from the control flow
/// the one before left: the stage at the end, the control flow, and all input
/// events and windows the program got, in order.
pub open spec fn run_callbacks<E: 'static>(stage: Stage, control_flow: LoopControlFlow, evs: Seq<LoopEvent<E>>) -> (
    Stage,
    LoopControlFlow,
    Seq<EventAsync<E>>,
    Seq<winit::window::WindowId>,
)
    decreases evs.len(),
{
    if evs.len() == 0 {
        (stage, control_flow, Seq::empty(), Seq::empty())
    } else {
        let (st1, s1, es1, ws1) = callback(stage, control_flow, evs[0]);
        let (st2, cf2, es2, ws2) = run_callbacks(st1, s1.control_flow, evs.drop_first());
        (st2, cf2, es1 + es2, ws1 + ws2)
    }
}

/// One iteration of winit's loop as its documentation orders it: a new
/// iteration, the input events, the end of the input events, the redraw
/// requests, and the end of the iteration.
pub open spec fn iteration<E: 'static>(
    cause: LoopStartCause,
    inputs: Seq<LoopEvent<E>>,
    windows: Seq<winit::window::WindowId>,
) -> Seq<LoopEvent<E>> {
    seq![LoopEvent::NewEvents(cause)] + inputs + seq![LoopEvent::MainEventsCleared]
        + windows.map_values(|w: winit::window::WindowId| LoopEvent::RedrawRequested(w))
        + seq![LoopEvent::RedrawEventsCleared]
}

proof fn lemma_run_callbacks_append<E: 'static>(
    stage: Stage,
    control_flow: LoopControlFlow,
    a: Seq<LoopEvent<E>>,
    b: Seq<LoopEvent<E>>,
)
    ensures
        ({
            let (st1, cf1, es1, ws1) = run_callbacks(stage, control_flow, a);
            let (st2, cf2, es2, ws2) = run_callbacks(st1, cf1, b);
            run_callbacks(stage, control_flow, a + b) == (st2, cf2, es1 + es2, ws1 + ws2)
        }),
    decreases a.len(),
{
    if a.len() == 0 {
        assert(a + b =~= b);
        let (st2, cf2, es2, ws2) = run_callbacks(stage, control_flow, b);
        assert(Seq::<EventAsync<E>>::empty() + es2 =~= es2);
        assert(Seq::<winit::window::WindowId>::empty() + ws2 =~= ws2);
    } else {
        let (st1, s1, es1, ws1) = callback(stage, control_flow, a[0]);
        assert((a + b)[0] == a[0]);
        assert((a + b).drop_first() =~= a.drop_first() + b);
        lemma_run_callbacks_append(st1, s1.control_flow, a.drop_first(), b);
        let (sta, cfa, esa, wsa) = run_callbacks(st1, s1.control_flow, a.drop_first());
        let (stb, cfb, esb, wsb) = run_callbacks(sta, cfa, b);
        assert(es1 + (esa + esb) =~= (es1 + esa) + esb);
        assert(ws1 + (wsa + wsb) =~= (ws1 + wsa) + wsb);
    }
}

/// The input event that the program gets of an input event of the loop.
pub open spec fn input_of<E: 'static>(ev: LoopEvent<E>) -> EventAsync<E> {
    as_input(ev).unwrap()
}

proof fn lemma_callback_new_events<E: 'static>(control_flow: LoopControlFlow, cause: LoopStartCause)
    ensures
        callback(Stage::Waiting, control_flow, LoopEvent::<E>::NewEvents(cause)) == (
            Stage::Receiving,
            SharedState::<E> { next_event: None, control_flow: LoopControlFlow::Poll },
            Seq::<EventAsync<E>>::empty(),
            Seq::<winit::window::WindowId>::empty(),
        ),
{
    reveal_with_fuel(run_stage, 4);
}

proof fn lemma_callback_input<E: 'static>(control_flow: LoopControlFlow, ev: LoopEvent<E>)
    requires
        is_input(ev),
    ensures
        callback(Stage::Receiving, control_flow, ev) == (
            Stage::Receiving,
            SharedState::<E> { next_event: None, control_flow },
            seq![input_of(ev)],
            Seq::<winit::window::WindowId>::empty(),
        ),
{
    reveal_with_fuel(run_stage, 3);
    assert(seq![input_of(ev)] + Seq::<EventAsync<E>>::empty() =~= seq![input_of(ev)]);
}

proof fn lemma_callback_main_events_cleared<E: 'static>(control_flow: LoopControlFlow)
    ensures
        callback(Stage::Receiving, control_flow, LoopEvent::<E>::MainEventsCleared) == (
            Stage::OpeningRedraws,
            SharedState::<E> { next_event: None, control_flow },
            Seq::<EventAsync<E>>::empty(),
            Seq::<winit::window::WindowId>::empty(),
        ),
{
    reveal_with_fuel(run_stage, 3);
}

proof fn lemma_callback_redraw<E: 'static>(stage: Stage, control_flow: LoopControlFlow, window_id: winit::window::WindowId)
    requires
        stage is OpeningRedraws || stage is Redrawing,
    ensures
        callback(stage, control_flow, LoopEvent::<E>::RedrawRequested(window_id)) == (
            Stage::Redrawing,
            SharedState::<E> { next_event: None, control_flow },
            Seq::<EventAsync<E>>::empty(),
            seq![window_id],
        ),
{
    reveal_with_fuel(run_stage, 4);
    assert(seq![window_id] + Seq::<winit::window::WindowId>::empty() =~= seq![window_id]);
}

proof fn lemma_callback_redraw_events_cleared<E: 'static>(stage: Stage, control_flow: LoopControlFlow)
    requires
        stage is OpeningRedraws || stage is Redrawing,
    ensures
        callback(stage, control_flow, LoopEvent::<E>::RedrawEventsCleared) == (
            Stage::Waiting,
            SharedState::<E> { next_event: None, control_flow: LoopControlFlow::Wait },
            Seq::<EventAsync<E>>::empty(),
            Seq::<winit::window::WindowId>::empty(),
        ),
{
    reveal_with_fuel(run_stage, 4);
}

proof fn lemma_run_inputs<E: 'static>(control_flow: LoopControlFlow, inputs: Seq<LoopEvent<E>>)
    requires
        forall|i: int| 0 <= i < inputs.len() ==> is_input(#[trigger] inputs[i]),
    ensures
        run_callbacks(Stage::Receiving, control_flow, inputs) == (
            Stage::Receiving,
            control_flow,
            inputs.map_values(|ev: LoopEvent<E>| input_of(ev)),
            Seq::<winit::window::WindowId>::empty(),
        ),
    decreases inputs.len(),
{
    if inputs.len() > 0 {
        lemma_callback_input(control_flow, inputs[0]);
        let rest = inputs.drop_first();
        assert forall|i: int| 0 <= i < rest.len() implies is_input(#[trigger] rest[i]) by {
            assert(rest[i] == inputs[i + 1]);
        }
        lemma_run_callbacks_append_empty_ws::<E>();
        lemma_run_inputs(control_flow, rest);
        assert(seq![input_of(inputs[0])] + rest.map_values(|ev: LoopEvent<E>| input_of(ev))
            =~= inputs.map_values(|ev: LoopEvent<E>| input_of(ev)));
    } else {
        assert(inputs.map_values(|ev: LoopEvent<E>| input_of(ev)) =~= Seq::<EventAsync<E>>::empty());
    }
}

proof fn lemma_run_callbacks_append_empty_ws<E: 'static>()
    ensures
        Seq::<winit::window::WindowId>::empty() + Seq::<winit::window::WindowId>::empty()
            == Seq::<winit::window::WindowId>::empty(),
        Seq::<EventAsync<E>>::empty() + Seq::<EventAsync<E>>::empty() == Seq::<EventAsync<E>>::empty(),
{
    assert(Seq::<winit::window::WindowId>::empty() + Seq::<winit::window::WindowId>::empty()
        =~= Seq::<winit::window::WindowId>::empty());
    assert(Seq::<EventAsync<E>>::empty() + Seq::<EventAsync<E>>::empty() =~= Seq::<EventAsync<E>>::empty());
}

proof fn lemma_run_redraws<E: 'static>(control_flow: LoopControlFlow, windows: Seq<winit::window::WindowId>)
    ensures
        run_callbacks(
            Stage::Redrawing,
            control_flow,
            windows.map_values(|w: winit::window::WindowId| LoopEvent::<E>::RedrawRequested(w)),
        ) == (Stage::Redrawing, control_flow, Seq::<EventAsync<E>>::empty(), windows),
    decreases windows.len(),
{
    let evs = windows.map_values(|w: winit::window::WindowId| LoopEvent::<E>::RedrawRequested(w));
    if windows.len() > 0 {
        lemma_callback_redraw::<E>(Stage::Redrawing, control_flow, windows[0]);
        let rest = windows.drop_first();
        assert(evs.drop_first() =~= rest.map_values(|w: winit::window::WindowId| LoopEvent::<E>::RedrawRequested(w)));
        assert(evs[0] == LoopEvent::<E>::RedrawRequested(windows[0]));
        lemma_run_redraws::<E>(control_flow, rest);
        lemma_run_callbacks_append_empty_ws::<E>();
        assert(seq![windows[0]] + rest =~= windows);
    } else {
        assert(evs.len() == 0);
        assert(windows =~= Seq::<winit::window::WindowId>::empty());
    }
}

proof fn lemma_run_one<E: 'static>(stage: Stage, control_flow: LoopControlFlow, ev: LoopEvent<E>)
    ensures
        ({
            let (st1, s1, es1, ws1) = callback(stage, control_flow, ev);
            run_callbacks(stage, control_flow, seq![ev]) == (st1, s1.control_flow, es1, ws1)
        }),
{
    reveal_with_fuel(run_callbacks, 2);
    let (st1, s1, es1, ws1) = callback(stage, control_flow, ev);
    assert(seq![ev][0] == ev);
    assert(seq![ev].drop_first() =~= Seq::<LoopEvent<E>>::empty());
    assert(es1 + Seq::<EventAsync<E>>::empty() =~= es1);
    assert(ws1 + Seq::<winit::window::WindowId>::empty() =~= ws1);
}

/// The redraw side of an iteration, from the opening of the redraw receiver to
/// the end of the iteration: the program gets each window once, in order, and
/// waits again while the loop sleeps.
proof fn lemma_run_redraw_side<E: 'static>(control_flow: LoopControlFlow, windows: Seq<winit::window::WindowId>)
    ensures
        run_callbacks(
            Stage::OpeningRedraws,
            control_flow,
            windows.map_values(|w: winit::window::WindowId| LoopEvent::<E>::RedrawRequested(w))
                + seq![LoopEvent::<E>::RedrawEventsCleared],
        ) == (Stage::Waiting, LoopControlFlow::Wait, Seq::<EventAsync<E>>::empty(), windows),
{
    let d = windows.map_values(|w: winit::window::WindowId| LoopEvent::<E>::RedrawRequested(w));
    let f = seq![LoopEvent::<E>::RedrawEventsCleared];
    lemma_run_callbacks_append_empty_ws::<E>();
    if windows.len() == 0 {
        assert(d + f =~= f);
        lemma_callback_redraw_events_cleared::<E>(Stage::OpeningRedraws, control_flow);
        lemma_run_one::<E>(Stage::OpeningRedraws, control_flow, LoopEvent::<E>::RedrawEventsCleared);
        assert(windows =~= Seq::<winit::window::WindowId>::empty());
    } else {
        let first = seq![LoopEvent::<E>::RedrawRequested(windows[0])];
        let rest = windows.drop_first();
        let d_rest = rest.map_values(|w: winit::window::WindowId| LoopEvent::<E>::RedrawRequested(w));
        assert(d =~= first + d_rest);
        assert(d + f =~= first + (d_rest + f));
        lemma_callback_redraw::<E>(Stage::OpeningRedraws, control_flow, windows[0]);
        lemma_run_one::<E>(Stage::OpeningRedraws, control_flow, LoopEvent::<E>::RedrawRequested(windows[0]));
        lemma_run_redraws::<E>(control_flow, rest);
        lemma_callback_redraw_events_cleared::<E>(Stage::Redrawing, control_flow);
        lemma_run_one::<E>(Stage::Redrawing, control_flow, LoopEvent::<E>::RedrawEventsCleared);
        lemma_run_callbacks_append::<E>(Stage::Redrawing, control_flow, d_rest, f);
        lemma_run_callbacks_append::<E>(Stage::OpeningRedraws, control_flow, first, d_rest + f);
        assert(seq![windows[0]] + (rest + Seq::<winit::window::WindowId>::empty()) =~= windows);
    }
}

/// The events that winit hands over in one iteration reach a program that
/// waits, receives and redraws in turn: each input event once and in order
/// through the event receiver, each redraw request once and in order through
/// the redraw receiver; then the program waits again and the loop sleeps until
/// the next events, whatever control flow the loop had before.
pub proof fn lemma_iteration_reaches_program<E: 'static>(
    control_flow: LoopControlFlow,
    cause: LoopStartCause,
    inputs: Seq<LoopEvent<E>>,
    windows: Seq<winit::window::WindowId>,
)
    requires
        forall|i: int| 0 <= i < inputs.len() ==> is_input(#[trigger] inputs[i]),
    ensures
        run_callbacks(Stage::Waiting, control_flow, iteration(cause, inputs, windows)) == (
            Stage::Waiting,
            LoopControlFlow::Wait,
            inputs.map_values(|ev: LoopEvent<E>| input_of(ev)),
            windows,
        ),
{
    let a = seq![LoopEvent::<E>::NewEvents(cause)];
    let c = seq![LoopEvent::<E>::MainEventsCleared];
    let df = windows.map_values(|w: winit::window::WindowId| LoopEvent::<E>::RedrawRequested(w))
        + seq![LoopEvent::<E>::RedrawEventsCleared];
    let got = inputs.map_values(|ev: LoopEvent<E>| input_of(ev));
    assert(iteration(cause, inputs, windows) =~= a + (inputs + (c + df)));
    lemma_run_callbacks_append_empty_ws::<E>();

    lemma_callback_new_events::<E>(control_flow, cause);
    lemma_run_one::<E>(Stage::Waiting, control_flow, LoopEvent::<E>::NewEvents(cause));
    lemma_run_inputs::<E>(LoopControlFlow::Poll, inputs);
    lemma_callback_main_events_cleared::<E>(LoopControlFlow::Poll);
    lemma_run_one::<E>(Stage::Receiving, LoopControlFlow::Poll, LoopEvent::<E>::MainEventsCleared);
    lemma_run_redraw_side::<E>(LoopControlFlow::Poll, windows);

    lemma_run_callbacks_append::<E>(Stage::Receiving, LoopControlFlow::Poll, c, df);
    lemma_run_callbacks_append::<E>(Stage::Receiving, LoopControlFlow::Poll, inputs, c + df);
    lemma_run_callbacks_append::<E>(Stage::Waiting, control_flow, a, inputs + (c + df));
    assert(Seq::<EventAsync<E>>::empty() + (got + Seq::<EventAsync<E>>::empty()) =~= got);
    assert(Seq::<winit::window::WindowId>::empty() + (Seq::<winit::window::WindowId>::empty() + (
        Seq::<winit::window::WindowId>::empty() + windows)) =~= windows);
}

} // verus!
