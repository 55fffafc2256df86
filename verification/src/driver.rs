//! The driver that turns the event loop's events into calls of an event sink:
//! its phases and the decision it takes on each event, while the caller awaits
//! the events and makes the calls.
use vstd::prelude::*;
use crate::event::{EventAsync, LoopEvent, LoopStartCause};
use crate::cycle::iteration;
use crate::future::as_input;

verus! {

/// What the driver hands to the sink: each variant is one method of the sink.
#[derive(Debug)]
pub enum AsyncDriverEvent<E: 'static> {
    Event(EventAsync<E>),
    EventsCleared,
    Redraw(winit::window::WindowId),
    RedrawsCleared,
    SetWait,
    WakeUp(LoopStartCause),
}

impl<E> AsyncDriverEvent<E> {
    /// The call under another user-event type: the same call, unless it hands
    /// on a user event, which comes back as the error.
    pub open spec fn nonuser_event<T>(self) -> Result<AsyncDriverEvent<T>, AsyncDriverEvent<E>> {
        match self {
            AsyncDriverEvent::Event(event) => match event.nonuser_event::<T>() {
                Ok(e) => Ok(AsyncDriverEvent::Event(e)),
                Err(e) => Err(AsyncDriverEvent::Event(e)),
            },
            AsyncDriverEvent::EventsCleared => Ok(AsyncDriverEvent::EventsCleared),
            AsyncDriverEvent::Redraw(window_id) => Ok(AsyncDriverEvent::Redraw(window_id)),
            AsyncDriverEvent::RedrawsCleared => Ok(AsyncDriverEvent::RedrawsCleared),
            AsyncDriverEvent::SetWait => Ok(AsyncDriverEvent::SetWait),
            AsyncDriverEvent::WakeUp(cause) => Ok(AsyncDriverEvent::WakeUp(cause)),
        }
    }

    pub fn map_nonuser_event<T>(self) -> (r: Result<AsyncDriverEvent<T>, AsyncDriverEvent<E>>)
        ensures
            r == self.nonuser_event::<T>(),
            r is Err <==> (self matches AsyncDriverEvent::Event(e) && e is UserEvent),
    {
        match self {
            AsyncDriverEvent::Event(event) => match event.map_nonuser_event() {
                Ok(e) => Ok(AsyncDriverEvent::Event(e)),
                Err(e) => Err(AsyncDriverEvent::Event(e)),
            },
            AsyncDriverEvent::EventsCleared => Ok(AsyncDriverEvent::EventsCleared),
            AsyncDriverEvent::Redraw(window_id) => Ok(AsyncDriverEvent::Redraw(window_id)),
            AsyncDriverEvent::RedrawsCleared => Ok(AsyncDriverEvent::RedrawsCleared),
            AsyncDriverEvent::SetWait => Ok(AsyncDriverEvent::SetWait),
            AsyncDriverEvent::WakeUp(cause) => Ok(AsyncDriverEvent::WakeUp(cause)),
        }
    }
}

/// Changing the user-event type of a call and changing it back gives the call
/// back; a call that hands on a user event is refused and handed back unchanged.
pub proof fn lemma_map_nonuser_call_round_trip<E, T>(call: AsyncDriverEvent<E>)
    ensures
        (call matches AsyncDriverEvent::Event(e) && e is UserEvent) ==> call.nonuser_event::<T>() == Err::<
            AsyncDriverEvent<T>,
            AsyncDriverEvent<E>,
        >(call),
        call.nonuser_event::<T>() matches Ok(m) ==> m.nonuser_event::<E>() == Ok::<
            AsyncDriverEvent<E>,
            AsyncDriverEvent<T>,
        >(call),
{
}

/// Where the driver stands in an iteration of the event loop.
#[derive(Clone, Copy, Debug, PartialEq, Eq)]
pub enum DriverPhase {
    /// Between iterations: the loop sleeps or begins a new iteration.
    Waiting,
    /// The input events of an iteration.
    MainEvents,
    /// The redraw requests of an iteration.
    Redraws,
}

/// What the driver asks of its caller after one step.
#[derive(Debug)]
pub enum DriverStep<E: 'static> {
    /// Nothing to call; step again.
    Continue,
    /// Make this call of the sink; stop when the sink answers that it is done,
    /// step again otherwise.
    Call(AsyncDriverEvent<E>),
    /// The loop is over: stop.
    Return,
}

/// The driver between two steps: its phase, the event that ended the previous
/// phase and that the current one takes first, if any, and whether it is over,
/// because the loop ended or the sink answered that it is done.
pub struct AsyncDriver<E: 'static> {
    pub phase: DriverPhase,
    pub break_event: Option<LoopEvent<E>>,
    pub finished: bool,
}

/// The event that a step takes: the one held back, or else the one that came in.
pub open spec fn current_event<E>(break_event: Option<LoopEvent<E>>, incoming: Option<LoopEvent<E>>) -> LoopEvent<E> {
    match break_event {
        Some(ev) => ev,
        None => incoming.unwrap(),
    }
}

/// The event that the sink gets of an input event or a suspension, if it is one.
pub open spec fn dispatched<E>(ev: LoopEvent<E>) -> Option<EventAsync<E>> {
    match ev {
        LoopEvent::Suspended => Some(EventAsync::Suspended),
        LoopEvent::Resumed => Some(EventAsync::Resumed),
        _ => as_input(ev),
    }
}

/// A mark that the events of a part of the iteration were all handed out: the
/// end of the input events or the end of the redraw requests.
pub open spec fn is_cleared_mark<E>(ev: LoopEvent<E>) -> bool {
    ev is MainEventsCleared || ev is RedrawEventsCleared
}

/// The events that a phase can meet: no new iteration among the input events,
/// and only redraw requests, cleared marks, a new iteration or the end of the
/// loop among the redraw requests.
pub open spec fn driver_accepts<E>(phase: DriverPhase, ev: LoopEvent<E>) -> bool {
    match phase {
        DriverPhase::Waiting => true,
        DriverPhase::MainEvents => !(ev is NewEvents),
        DriverPhase::Redraws => !(dispatched(ev) is Some),
    }
}

/// One step of the driver in `phase` on `ev`: the next phase, the event held
/// back for it, and what the caller is to do.
pub open spec fn driver_step<E>(phase: DriverPhase, ev: LoopEvent<E>) -> (DriverPhase, Option<LoopEvent<E>>, DriverStep<E>) {
    match phase {
        DriverPhase::Waiting => match ev {
            LoopEvent::NewEvents(cause) => (DriverPhase::Waiting, None, DriverStep::Call(AsyncDriverEvent::WakeUp(cause))),
            LoopEvent::MainEventsCleared => (DriverPhase::Waiting, None, DriverStep::Call(AsyncDriverEvent::SetWait)),
            LoopEvent::RedrawEventsCleared => (DriverPhase::Waiting, None, DriverStep::Call(AsyncDriverEvent::SetWait)),
            _ => (DriverPhase::MainEvents, Some(ev), DriverStep::Continue),
        },
        DriverPhase::MainEvents => if ev is RedrawRequested || is_cleared_mark(ev) {
            (DriverPhase::Redraws, Some(ev), DriverStep::Call(AsyncDriverEvent::EventsCleared))
        } else if ev is LoopDestroyed {
            (DriverPhase::MainEvents, None, DriverStep::Return)
        } else {
            (DriverPhase::MainEvents, None, DriverStep::Call(AsyncDriverEvent::Event(dispatched(ev).unwrap())))
        },
        DriverPhase::Redraws => match ev {
            LoopEvent::RedrawRequested(window_id) => (DriverPhase::Redraws, None, DriverStep::Call(AsyncDriverEvent::Redraw(window_id))),
            LoopEvent::NewEvents(_) => (DriverPhase::Waiting, Some(ev), DriverStep::Call(AsyncDriverEvent::RedrawsCleared)),
            LoopEvent::LoopDestroyed => (DriverPhase::Redraws, None, DriverStep::Return),
            _ => (DriverPhase::Redraws, None, DriverStep::Continue),
        },
    }
}

/// A driver before the first event.
pub open spec fn fresh_driver<E>() -> AsyncDriver<E> {
    AsyncDriver { phase: DriverPhase::Waiting, break_event: None, finished: false }
}

/// Whether a driver can step on `incoming`: a driver that is over takes
/// anything; otherwise it takes a new event exactly when it holds none back, and
/// the event it steps on must be one its phase can meet.
pub open spec fn step_allowed<E>(d: AsyncDriver<E>, incoming: Option<LoopEvent<E>>) -> bool {
    !d.finished ==> {
        &&& (d.break_event is None <==> incoming is Some)
        &&& driver_accepts(d.phase, current_event(d.break_event, incoming))
    }
}

/// One step of a driver on `incoming`: a driver that is over returns and stays
/// as it is; otherwise it takes the step of its phase, and is over once that step
/// returns.
pub open spec fn driver_next<E>(d: AsyncDriver<E>, incoming: Option<LoopEvent<E>>) -> (AsyncDriver<E>, DriverStep<E>) {
    if d.finished {
        (d, DriverStep::Return)
    } else {
        let (phase, break_event, st) = driver_step(d.phase, current_event(d.break_event, incoming));
        (AsyncDriver { phase, break_event, finished: st is Return }, st)
    }
}

/// A driver told the sink's answer to the last call: over once the sink is done.
pub open spec fn answered<E>(d: AsyncDriver<E>, done: bool) -> AsyncDriver<E> {
    AsyncDriver { phase: d.phase, break_event: d.break_event, finished: d.finished || done }
}

impl<E> AsyncDriver<E> {
    pub fn new() -> (r: Self)
        ensures
            r == fresh_driver::<E>(),
    {
        AsyncDriver { phase: DriverPhase::Waiting, break_event: None, finished: false }
    }

    /// Whether the next step needs the next event of the loop: while the driver
    /// is not over and holds no event back.
    pub fn needs_event(&self) -> (r: bool)
        ensures
            r == (!self.finished && self.break_event is None),
    {
        !self.finished && self.break_event.is_none()
    }

    /// Whether the next step can take `incoming` (ignored while an event is held
    /// back); a driver that is over, or one without any event, has nothing to
    /// refuse.
    pub fn accepts(&self, incoming: &Option<LoopEvent<E>>) -> (r: bool)
        ensures
            r == (self.finished || ((self.break_event is Some || incoming is Some) ==> driver_accepts(
                self.phase,
                current_event(self.break_event, *incoming),
            ))),
    {
        if self.finished {
            return true;
        }
        let ev = match &self.break_event {
            Some(ev) => ev,
            None => match incoming {
                Some(ev) => ev,
                None => return true,
            },
        };
        match self.phase {
            DriverPhase::Waiting => true,
            DriverPhase::MainEvents => match ev {
                LoopEvent::NewEvents(_) => false,
                _ => true,
            },
            DriverPhase::Redraws => match ev {
                LoopEvent::WindowEvent { .. } | LoopEvent::DeviceEvent { .. } | LoopEvent::UserEvent(_)
                | LoopEvent::Suspended | LoopEvent::Resumed => false,
                _ => true,
            },
        }
    }

    /// Takes the sink's answer to the last call, and tells whether the driver is
    /// over, so that no call follows an answer that the sink is done.
    pub fn answer(&mut self, done: bool) -> (stop: bool)
        ensures
            *final(self) == answered(*old(self), done),
            stop == final(self).finished,
    {
        if done {
            self.finished = true;
        }
        self.finished
    }

    /// One step on the held-back event, or else on `incoming`, the next event of
    /// the loop.
    pub fn step(&mut self, incoming: Option<LoopEvent<E>>) -> (r: DriverStep<E>)
        requires
            step_allowed(*old(self), incoming),
        ensures
            (*final(self), r) == driver_next(*old(self), incoming),
    {
        if self.finished {
            return DriverStep::Return;
        }
        let event = match self.break_event.take() {
            Some(ev) => ev,
            None => incoming.unwrap(),
        };
        match self.phase {
            DriverPhase::Waiting => match event {
                LoopEvent::NewEvents(cause) => DriverStep::Call(AsyncDriverEvent::WakeUp(cause)),
                LoopEvent::MainEventsCleared | LoopEvent::RedrawEventsCleared => DriverStep::Call(
                    AsyncDriverEvent::SetWait,
                ),
                other => {
                    self.phase = DriverPhase::MainEvents;
                    self.break_event = Some(other);
                    DriverStep::Continue
                },
            },
            DriverPhase::MainEvents => match event {
                LoopEvent::RedrawRequested(_) | LoopEvent::MainEventsCleared | LoopEvent::RedrawEventsCleared => {
                    self.phase = DriverPhase::Redraws;
                    self.break_event = Some(event);
                    DriverStep::Call(AsyncDriverEvent::EventsCleared)
                },
                LoopEvent::LoopDestroyed => {
                    self.finished = true;
                    DriverStep::Return
                },
                LoopEvent::WindowEvent { window_id, event } => DriverStep::Call(
                    AsyncDriverEvent::Event(EventAsync::WindowEvent { window_id, event }),
                ),
                LoopEvent::DeviceEvent { device_id, event } => DriverStep::Call(
                    AsyncDriverEvent::Event(EventAsync::DeviceEvent { device_id, event }),
                ),
                LoopEvent::UserEvent(event) => DriverStep::Call(AsyncDriverEvent::Event(EventAsync::UserEvent(event))),
                LoopEvent::Suspended => DriverStep::Call(AsyncDriverEvent::Event(EventAsync::Suspended)),
                LoopEvent::Resumed => DriverStep::Call(AsyncDriverEvent::Event(EventAsync::Resumed)),
                LoopEvent::NewEvents(_) => DriverStep::Continue,
            },
            DriverPhase::Redraws => match event {
                LoopEvent::RedrawRequested(window_id) => DriverStep::Call(AsyncDriverEvent::Redraw(window_id)),
                LoopEvent::NewEvents(cause) => {
                    self.phase = DriverPhase::Waiting;
                    self.break_event = Some(LoopEvent::NewEvents(cause));
                    DriverStep::Call(AsyncDriverEvent::RedrawsCleared)
                },
                LoopEvent::LoopDestroyed => {
                    self.finished = true;
                    DriverStep::Return
                },
                _ => DriverStep::Continue,
            },
        }
    }
}

/// The sink calls that one step asks for.
pub open spec fn calls_of<E>(st: DriverStep<E>) -> Seq<AsyncDriverEvent<E>> {
    match st {
        DriverStep::Call(call) => seq![call],
        _ => Seq::empty(),
    }
}

/// The driver in `phase` fed the loop's event `ev` and stepped until it needs
/// the next event (at most `fuel` steps), with a sink that never asks to stop:
/// its phase afterwards, the sink calls in order, and whether the driver
/// returned.
pub open spec fn drive_event<E>(phase: DriverPhase, ev: LoopEvent<E>, fuel: nat) -> (
    DriverPhase,
    Seq<AsyncDriverEvent<E>>,
    bool,
)
    decreases fuel,
{
    let (p, held, st) = driver_step(phase, ev);
    if st is Return {
        (p, Seq::empty(), true)
    } else if fuel == 0 {
        (p, calls_of(st), false)
    } else {
        match held {
            Some(ev2) => {
                let (p2, calls2, returned) = drive_event(p, ev2, (fuel - 1) as nat);
                (p2, calls_of(st) + calls2, returned)
            },
            None => (p, calls_of(st), false),
        }
    }
}

/// The driver in `phase` fed the loop's events `evs` in turn until it returns.
pub open spec fn drive<E>(phase: DriverPhase, evs: Seq<LoopEvent<E>>) -> (
    DriverPhase,
    Seq<AsyncDriverEvent<E>>,
    bool,
)
    decreases evs.len(),
{
    if evs.len() == 0 {
        (phase, Seq::empty(), false)
    } else {
        let (p1, calls1, returned) = drive_event(phase, evs[0], 2);
        if returned {
            (p1, calls1, true)
        } else {
            let (p2, calls2, returned2) = drive(p1, evs.drop_first());
            (p2, calls1 + calls2, returned2)
        }
    }
}

proof fn lemma_drive_append<E: 'static>(phase: DriverPhase, a: Seq<LoopEvent<E>>, b: Seq<LoopEvent<E>>)
    requires
        !drive(phase, a).2,
    ensures
        ({
            let (p1, c1, _) = drive(phase, a);
            let (p2, c2, r2) = drive(p1, b);
            drive(phase, a + b) == (p2, c1 + c2, r2)
        }),
    decreases a.len(),
{
    if a.len() == 0 {
        assert(a + b =~= b);
        let (p2, c2, r2) = drive(phase, b);
        assert(Seq::<AsyncDriverEvent<E>>::empty() + c2 =~= c2);
    } else {
        let (p1, c1, r1) = drive_event(phase, a[0], 2);
        assert((a + b)[0] == a[0]);
        assert((a + b).drop_first() =~= a.drop_first() + b);
        lemma_drive_append(p1, a.drop_first(), b);
        let (pa, ca, _) = drive(p1, a.drop_first());
        let (pb, cb, _) = drive(pa, b);
        assert(c1 + (ca + cb) =~= (c1 + ca) + cb);
    }
}

proof fn lemma_drive_one<E: 'static>(phase: DriverPhase, ev: LoopEvent<E>)
    requires
        !drive_event(phase, ev, 2).2,
    ensures
        drive(phase, seq![ev]) == drive_event(phase, ev, 2),
{
    reveal_with_fuel(drive, 2);
    assert(seq![ev][0] == ev);
    assert(seq![ev].drop_first() =~= Seq::<LoopEvent<E>>::empty());
    let (p, c, r) = drive_event(phase, ev, 2);
    assert(c + Seq::<AsyncDriverEvent<E>>::empty() =~= c);
}

proof fn lemma_drive_dispatches<E: 'static>(inputs: Seq<LoopEvent<E>>)
    requires
        forall|i: int| 0 <= i < inputs.len() ==> (#[trigger] dispatched(inputs[i])) is Some,
    ensures
        drive(DriverPhase::MainEvents, inputs) == (
            DriverPhase::MainEvents,
            inputs.map_values(|ev: LoopEvent<E>| AsyncDriverEvent::Event(dispatched(ev).unwrap())),
            false,
        ),
    decreases inputs.len(),
{
    let calls = inputs.map_values(|ev: LoopEvent<E>| AsyncDriverEvent::Event(dispatched(ev).unwrap()));
    if inputs.len() > 0 {
        let rest = inputs.drop_first();
        assert(dispatched(inputs[0]) is Some);
        assert forall|i: int| 0 <= i < rest.len() implies (#[trigger] dispatched(rest[i])) is Some by {
            assert(rest[i] == inputs[i + 1]);
        }
        lemma_drive_dispatches(rest);
        assert(calls =~= seq![calls[0]] + rest.map_values(
            |ev: LoopEvent<E>| AsyncDriverEvent::Event(dispatched(ev).unwrap()),
        ));
    } else {
        assert(calls =~= Seq::<AsyncDriverEvent<E>>::empty());
    }
}

proof fn lemma_drive_redraws<E: 'static>(windows: Seq<winit::window::WindowId>)
    ensures
        drive(
            DriverPhase::Redraws,
            windows.map_values(|w: winit::window::WindowId| LoopEvent::<E>::RedrawRequested(w)),
        ) == (
            DriverPhase::Redraws,
            windows.map_values(|w: winit::window::WindowId| AsyncDriverEvent::<E>::Redraw(w)),
            false,
        ),
    decreases windows.len(),
{
    let evs = windows.map_values(|w: winit::window::WindowId| LoopEvent::<E>::RedrawRequested(w));
    let calls = windows.map_values(|w: winit::window::WindowId| AsyncDriverEvent::<E>::Redraw(w));
    if windows.len() > 0 {
        let rest = windows.drop_first();
        assert(evs[0] == LoopEvent::<E>::RedrawRequested(windows[0]));
        assert(evs.drop_first() =~= rest.map_values(|w: winit::window::WindowId| LoopEvent::<E>::RedrawRequested(w)));
        lemma_drive_redraws::<E>(rest);
        assert(calls =~= seq![AsyncDriverEvent::<E>::Redraw(windows[0])] + rest.map_values(
            |w: winit::window::WindowId| AsyncDriverEvent::<E>::Redraw(w),
        ));
    } else {
        assert(calls =~= Seq::<AsyncDriverEvent<E>>::empty());
        assert(evs =~= Seq::<LoopEvent<E>>::empty());
    }
}

/// An iteration of the loop with input events, followed by the start of the
/// next one, reaches a sink that never asks to stop in this order: woken up with
/// the cause of the iteration, each input event in order, the end of the input
/// events, each redraw request in order, the end of the redraw requests when
/// the next iteration begins, and woken up with its cause; the driver is then
/// between iterations again.
pub proof fn lemma_iteration_reaches_sink<E: 'static>(
    cause: LoopStartCause,
    inputs: Seq<LoopEvent<E>>,
    windows: Seq<winit::window::WindowId>,
    next_cause: LoopStartCause,
)
    requires
        inputs.len() > 0,
        forall|i: int| 0 <= i < inputs.len() ==> (#[trigger] dispatched(inputs[i])) is Some,
    ensures
        drive(DriverPhase::Waiting, iteration(cause, inputs, windows) + seq![LoopEvent::NewEvents(next_cause)]) == (
            DriverPhase::Waiting,
            seq![AsyncDriverEvent::WakeUp(cause)]
                + inputs.map_values(|ev: LoopEvent<E>| AsyncDriverEvent::Event(dispatched(ev).unwrap()))
                + seq![AsyncDriverEvent::EventsCleared]
                + windows.map_values(|w: winit::window::WindowId| AsyncDriverEvent::<E>::Redraw(w))
                + seq![AsyncDriverEvent::RedrawsCleared, AsyncDriverEvent::WakeUp(next_cause)],
            false,
        ),
{
    reveal_with_fuel(drive_event, 3);
    let ne = seq![LoopEvent::<E>::NewEvents(cause)];
    let first = seq![inputs[0]];
    let rest = inputs.drop_first();
    let mec = seq![LoopEvent::<E>::MainEventsCleared];
    let rr = windows.map_values(|w: winit::window::WindowId| LoopEvent::<E>::RedrawRequested(w));
    let rec = seq![LoopEvent::<E>::RedrawEventsCleared];
    let nne = seq![LoopEvent::<E>::NewEvents(next_cause)];
    let dispatch_calls = inputs.map_values(|ev: LoopEvent<E>| AsyncDriverEvent::Event(dispatched(ev).unwrap()));
    let rest_calls = rest.map_values(|ev: LoopEvent<E>| AsyncDriverEvent::Event(dispatched(ev).unwrap()));
    let redraw_calls = windows.map_values(|w: winit::window::WindowId| AsyncDriverEvent::<E>::Redraw(w));
    assert(inputs =~= first + rest);
    assert(iteration(cause, inputs, windows) + nne =~= ne + (first + (rest + (mec + (rr + (rec + nne))))));

    assert forall|i: int| 0 <= i < rest.len() implies (#[trigger] dispatched(rest[i])) is Some by {
        assert(rest[i] == inputs[i + 1]);
    }
    assert(dispatched(inputs[0]) is Some);
    lemma_drive_one::<E>(DriverPhase::Waiting, LoopEvent::NewEvents(cause));
    lemma_drive_one::<E>(DriverPhase::Waiting, inputs[0]);
    lemma_drive_dispatches::<E>(rest);
    lemma_drive_one::<E>(DriverPhase::MainEvents, LoopEvent::MainEventsCleared);
    lemma_drive_redraws::<E>(windows);
    lemma_drive_one::<E>(DriverPhase::Redraws, LoopEvent::RedrawEventsCleared);
    lemma_drive_one::<E>(DriverPhase::Redraws, LoopEvent::NewEvents(next_cause));

    lemma_drive_append::<E>(DriverPhase::Redraws, rec, nne);
    lemma_drive_append::<E>(DriverPhase::Redraws, rr, rec + nne);
    lemma_drive_append::<E>(DriverPhase::MainEvents, mec, rr + (rec + nne));
    lemma_drive_append::<E>(DriverPhase::MainEvents, rest, mec + (rr + (rec + nne)));
    lemma_drive_append::<E>(DriverPhase::Waiting, first, rest + (mec + (rr + (rec + nne))));
    lemma_drive_append::<E>(DriverPhase::Waiting, ne, first + (rest + (mec + (rr + (rec + nne)))));

    assert(dispatch_calls =~= seq![AsyncDriverEvent::Event(dispatched(inputs[0]).unwrap())] + rest_calls);
    let expected = seq![AsyncDriverEvent::WakeUp(cause)] + dispatch_calls + seq![AsyncDriverEvent::EventsCleared]
        + redraw_calls + seq![AsyncDriverEvent::RedrawsCleared, AsyncDriverEvent::WakeUp(next_cause)];
    let got = seq![AsyncDriverEvent::WakeUp(cause)] + (seq![AsyncDriverEvent::Event(dispatched(inputs[0]).unwrap())]
        + (rest_calls + (seq![AsyncDriverEvent::EventsCleared] + (redraw_calls + (Seq::<AsyncDriverEvent<E>>::empty()
        + seq![AsyncDriverEvent::RedrawsCleared, AsyncDriverEvent::WakeUp(next_cause)])))));
    assert(got =~= expected);
}

/// An iteration with redraw requests but without input events, followed by the
/// start of the next one, reaches a sink that never asks to stop in this order:
/// woken up with the cause of the iteration, told to wait at the end of the
/// (empty) input events, the end of the input events when the first redraw
/// request comes, each redraw request in order, the end of the redraw requests
/// when the next iteration begins, and woken up with its cause.
pub proof fn lemma_redraw_only_iteration_reaches_sink<E: 'static>(
    cause: LoopStartCause,
    windows: Seq<winit::window::WindowId>,
    next_cause: LoopStartCause,
)
    requires
        windows.len() > 0,
    ensures
        drive(
            DriverPhase::Waiting,
            iteration(cause, Seq::<LoopEvent<E>>::empty(), windows) + seq![LoopEvent::NewEvents(next_cause)],
        ) == (
            DriverPhase::Waiting,
            seq![AsyncDriverEvent::<E>::WakeUp(cause), AsyncDriverEvent::SetWait, AsyncDriverEvent::EventsCleared]
                + windows.map_values(|w: winit::window::WindowId| AsyncDriverEvent::<E>::Redraw(w))
                + seq![AsyncDriverEvent::RedrawsCleared, AsyncDriverEvent::WakeUp(next_cause)],
            false,
        ),
{
    reveal_with_fuel(drive_event, 3);
    let ne = seq![LoopEvent::<E>::NewEvents(cause)];
    let mec = seq![LoopEvent::<E>::MainEventsCleared];
    let first = seq![LoopEvent::<E>::RedrawRequested(windows[0])];
    let rest = windows.drop_first();
    let rr_rest = rest.map_values(|w: winit::window::WindowId| LoopEvent::<E>::RedrawRequested(w));
    let rec = seq![LoopEvent::<E>::RedrawEventsCleared];
    let nne = seq![LoopEvent::<E>::NewEvents(next_cause)];
    let redraw_calls = windows.map_values(|w: winit::window::WindowId| AsyncDriverEvent::<E>::Redraw(w));
    let rest_calls = rest.map_values(|w: winit::window::WindowId| AsyncDriverEvent::<E>::Redraw(w));
    assert(windows.map_values(|w: winit::window::WindowId| LoopEvent::<E>::RedrawRequested(w)) =~= first + rr_rest);
    assert(iteration(cause, Seq::<LoopEvent<E>>::empty(), windows) + nne
        =~= ne + (mec + (first + (rr_rest + (rec + nne)))));

    lemma_drive_one::<E>(DriverPhase::Waiting, LoopEvent::NewEvents(cause));
    lemma_drive_one::<E>(DriverPhase::Waiting, LoopEvent::MainEventsCleared);
    lemma_drive_one::<E>(DriverPhase::Waiting, LoopEvent::RedrawRequested(windows[0]));
    lemma_drive_redraws::<E>(rest);
    lemma_drive_one::<E>(DriverPhase::Redraws, LoopEvent::RedrawEventsCleared);
    lemma_drive_one::<E>(DriverPhase::Redraws, LoopEvent::NewEvents(next_cause));

    lemma_drive_append::<E>(DriverPhase::Redraws, rec, nne);
    lemma_drive_append::<E>(DriverPhase::Redraws, rr_rest, rec + nne);
    lemma_drive_append::<E>(DriverPhase::Waiting, first, rr_rest + (rec + nne));
    lemma_drive_append::<E>(DriverPhase::Waiting, mec, first + (rr_rest + (rec + nne)));
    lemma_drive_append::<E>(DriverPhase::Waiting, ne, mec + (first + (rr_rest + (rec + nne))));

    assert(redraw_calls =~= seq![AsyncDriverEvent::<E>::Redraw(windows[0])] + rest_calls);
    let expected = seq![AsyncDriverEvent::<E>::WakeUp(cause), AsyncDriverEvent::SetWait, AsyncDriverEvent::EventsCleared]
        + redraw_calls + seq![AsyncDriverEvent::RedrawsCleared, AsyncDriverEvent::WakeUp(next_cause)];
    let got = seq![AsyncDriverEvent::<E>::WakeUp(cause)] + (seq![AsyncDriverEvent::<E>::SetWait] + (
        (Seq::<AsyncDriverEvent<E>>::empty() + (seq![AsyncDriverEvent::<E>::EventsCleared]
        + seq![AsyncDriverEvent::<E>::Redraw(windows[0])])) + (rest_calls + (Seq::<AsyncDriverEvent<E>>::empty()
        + seq![AsyncDriverEvent::RedrawsCleared, AsyncDriverEvent::WakeUp(next_cause)]))));
    assert(got =~= expected);
}

/// The end of the loop ends the driver in every phase, without a call of the
/// sink.
pub proof fn lemma_loop_destroyed_ends_driver<E: 'static>(phase: DriverPhase)
    ensures
        drive_event(phase, LoopEvent::<E>::LoopDestroyed, 2).1 == Seq::<AsyncDriverEvent<E>>::empty(),
        drive_event(phase, LoopEvent::<E>::LoopDestroyed, 2).2,
{
    reveal_with_fuel(drive_event, 2);
    assert(Seq::<AsyncDriverEvent<E>>::empty() + Seq::<AsyncDriverEvent<E>>::empty()
        =~= Seq::<AsyncDriverEvent<E>>::empty());
}

/// An iteration without input events and without redraw requests, followed by
/// the start of the next one, only wakes the sink up and tells it to wait: the
/// phases of the input events and of the redraw requests are not entered.
pub proof fn lemma_idle_iteration_reaches_sink<E: 'static>(cause: LoopStartCause, next_cause: LoopStartCause)
    ensures
        drive(
            DriverPhase::Waiting,
            iteration(cause, Seq::<LoopEvent<E>>::empty(), Seq::empty()) + seq![LoopEvent::NewEvents(next_cause)],
        ) == (
            DriverPhase::Waiting,
            seq![
                AsyncDriverEvent::<E>::WakeUp(cause),
                AsyncDriverEvent::SetWait,
                AsyncDriverEvent::SetWait,
                AsyncDriverEvent::WakeUp(next_cause),
            ],
            false,
        ),
{
    reveal_with_fuel(drive, 5);
    let evs = iteration(cause, Seq::<LoopEvent<E>>::empty(), Seq::empty()) + seq![LoopEvent::NewEvents(next_cause)];
    assert(evs =~= seq![
        LoopEvent::<E>::NewEvents(cause),
        LoopEvent::MainEventsCleared,
        LoopEvent::RedrawEventsCleared,
        LoopEvent::NewEvents(next_cause),
    ]);
    assert(evs.drop_first()[0] == LoopEvent::<E>::MainEventsCleared);
    assert(evs.drop_first().drop_first()[0] == LoopEvent::<E>::RedrawEventsCleared);
    assert(evs.drop_first().drop_first().drop_first()[0] == LoopEvent::<E>::NewEvents(next_cause));
    assert(evs.drop_first().drop_first().drop_first().drop_first().len() == 0);
    let w = seq![AsyncDriverEvent::<E>::WakeUp(cause)];
    let s = seq![AsyncDriverEvent::<E>::SetWait];
    let n = seq![AsyncDriverEvent::<E>::WakeUp(next_cause)];
    assert(w + (s + (s + (n + Seq::<AsyncDriverEvent<E>>::empty()))) =~= seq![
        AsyncDriverEvent::<E>::WakeUp(cause),
        AsyncDriverEvent::SetWait,
        AsyncDriverEvent::SetWait,
        AsyncDriverEvent::WakeUp(next_cause),
    ]);
}

/// How far the sink's calls have come in the order they keep: wake-ups and
/// waits between iterations; in an iteration, the input events, the end of the
/// input events, the redraws, the end of the redraws, then a wake-up.
pub enum CallOrder {
    /// Between iterations: a wake-up, a wait, an input event or the end of the
    /// input events may come.
    Between,
    /// Among the input events: another one or their end may come.
    Events,
    /// Among the redraws: another one or their end may come.
    Redraws,
    /// After the end of the redraws: a wake-up must come.
    Cleared,
    /// A call came out of order.
    Broken,
}

/// Where the order stands after one more call.
pub open spec fn next_order<E>(o: CallOrder, call: AsyncDriverEvent<E>) -> CallOrder {
    match o {
        CallOrder::Between => match call {
            AsyncDriverEvent::WakeUp(_) | AsyncDriverEvent::SetWait => CallOrder::Between,
            AsyncDriverEvent::Event(_) => CallOrder::Events,
            AsyncDriverEvent::EventsCleared => CallOrder::Redraws,
            _ => CallOrder::Broken,
        },
        CallOrder::Events => match call {
            AsyncDriverEvent::Event(_) => CallOrder::Events,
            AsyncDriverEvent::EventsCleared => CallOrder::Redraws,
            _ => CallOrder::Broken,
        },
        CallOrder::Redraws => match call {
            AsyncDriverEvent::Redraw(_) => CallOrder::Redraws,
            AsyncDriverEvent::RedrawsCleared => CallOrder::Cleared,
            _ => CallOrder::Broken,
        },
        CallOrder::Cleared => match call {
            AsyncDriverEvent::WakeUp(_) => CallOrder::Between,
            _ => CallOrder::Broken,
        },
        CallOrder::Broken => CallOrder::Broken,
    }
}

/// Where the order stands after the calls `calls`, from `o`.
pub open spec fn order_after<E>(o: CallOrder, calls: Seq<AsyncDriverEvent<E>>) -> CallOrder
    decreases calls.len(),
{
    if calls.len() == 0 {
        o
    } else {
        order_after(next_order(o, calls[0]), calls.drop_first())
    }
}

/// The calls keep the order: they begin a sequence of wake-ups and waits, then
/// iterations, each of input events, the end of the input events, redraws, the
/// end of the redraws and a wake-up followed by wake-ups and waits.
pub open spec fn calls_in_order<E>(calls: Seq<AsyncDriverEvent<E>>) -> bool {
    !(order_after(CallOrder::Between, calls) is Broken)
}

/// What the caller does to a driver: step it on the next event, or none while
/// it holds one back, or give it the sink's answer.
pub enum DriverInput<E: 'static> {
    Step(Option<LoopEvent<E>>),
    Answer(bool),
}

/// The driver `d` given the inputs `inputs` in turn: the driver afterwards and
/// the sink calls it asked for, in order; nothing if a step is not allowed.
pub open spec fn run_driver<E>(d: AsyncDriver<E>, inputs: Seq<DriverInput<E>>) -> Option<(AsyncDriver<E>, Seq<AsyncDriverEvent<E>>)>
    decreases inputs.len(),
{
    if inputs.len() == 0 {
        Some((d, Seq::empty()))
    } else {
        match inputs[0] {
            DriverInput::Step(incoming) => if !step_allowed(d, incoming) {
                None
            } else {
                let (d1, st) = driver_next(d, incoming);
                match run_driver(d1, inputs.drop_first()) {
                    Some((d2, calls)) => Some((d2, calls_of(st) + calls)),
                    None => None,
                }
            },
            DriverInput::Answer(done) => run_driver(answered(d, done), inputs.drop_first()),
        }
    }
}

/// Where the order may stand while the driver is in a phase: between
/// iterations, unless a new iteration is held back after the end of the
/// redraws; among the input events or before them; among the redraws.
pub open spec fn order_fits<E>(o: CallOrder, d: AsyncDriver<E>) -> bool {
    &&& !(o is Broken)
    &&& (!d.finished ==> match d.phase {
        DriverPhase::Waiting => match d.break_event {
            None => o is Between,
            Some(ev) => o is Cleared && ev is NewEvents,
        },
        DriverPhase::MainEvents => o is Between || o is Events,
        DriverPhase::Redraws => o is Redraws,
    })
}

proof fn lemma_order_after_one<E>(o: CallOrder, st: DriverStep<E>, rest: Seq<AsyncDriverEvent<E>>)
    ensures
        order_after(o, calls_of(st) + rest) == order_after(order_after(o, calls_of(st)), rest),
{
    reveal_with_fuel(order_after, 2);
    match st {
        DriverStep::Call(call) => {
            assert((seq![call] + rest)[0] == call);
            assert((seq![call] + rest).drop_first() =~= rest);
            assert(seq![call].drop_first() =~= Seq::<AsyncDriverEvent<E>>::empty());
        },
        _ => {
            assert(calls_of(st) + rest =~= rest);
        },
    }
}

proof fn lemma_step_keeps_order<E>(o: CallOrder, d: AsyncDriver<E>, incoming: Option<LoopEvent<E>>)
    requires
        order_fits(o, d),
        step_allowed(d, incoming),
    ensures
        order_fits(order_after(o, calls_of(driver_next(d, incoming).1)), driver_next(d, incoming).0),
{
    reveal_with_fuel(order_after, 2);
    let (d1, st) = driver_next(d, incoming);
    if let DriverStep::Call(call) = st {
        assert(seq![call][0] == call);
        assert(seq![call].drop_first() =~= Seq::<AsyncDriverEvent<E>>::empty());
    }
}

proof fn lemma_run_keeps_order<E>(o: CallOrder, d: AsyncDriver<E>, inputs: Seq<DriverInput<E>>)
    requires
        order_fits(o, d),
    ensures
        run_driver(d, inputs) matches Some((d2, calls)) ==> order_fits(order_after(o, calls), d2),
    decreases inputs.len(),
{
    if inputs.len() > 0 {
        match inputs[0] {
            DriverInput::Step(incoming) => {
                if step_allowed(d, incoming) {
                    let (d1, st) = driver_next(d, incoming);
                    lemma_step_keeps_order(o, d, incoming);
                    lemma_run_keeps_order(order_after(o, calls_of(st)), d1, inputs.drop_first());
                    if let Some((d2, calls)) = run_driver(d1, inputs.drop_first()) {
                        lemma_order_after_one(o, st, calls);
                    }
                }
            },
            DriverInput::Answer(done) => {
                lemma_run_keeps_order(o, answered(d, done), inputs.drop_first());
            },
        }
    }
}

/// Whatever the caller does with a fresh driver, as long as each step is
/// allowed, the sink calls asked for so far keep the order of an iteration.
pub proof fn lemma_calls_keep_order<E>(inputs: Seq<DriverInput<E>>)
    ensures
        run_driver(fresh_driver::<E>(), inputs) matches Some((_, calls)) ==> calls_in_order(calls),
{
    lemma_run_keeps_order(CallOrder::Between, fresh_driver::<E>(), inputs);
}

/// Once the sink answered that it is done, or the loop ended, the driver asks
/// for no call any more, whatever follows, and stays over.
pub proof fn lemma_no_call_after_done<E>(d: AsyncDriver<E>, inputs: Seq<DriverInput<E>>)
    requires
        d.finished,
    ensures
        run_driver(d, inputs) matches Some((d2, calls)) ==> calls.len() == 0 && d2.finished,
    decreases inputs.len(),
{
    if inputs.len() > 0 {
        match inputs[0] {
            DriverInput::Step(incoming) => lemma_no_call_after_done(d, inputs.drop_first()),
            DriverInput::Answer(done) => lemma_no_call_after_done(answered(d, done), inputs.drop_first()),
        }
    }
}

/// A done answer to a call ends the driver: the next step returns, without a
/// call.
pub proof fn lemma_done_answer_stops<E>(d: AsyncDriver<E>, incoming: Option<LoopEvent<E>>)
    ensures
        answered(d, true).finished,
        driver_next(answered(d, true), incoming).1 is Return,
        calls_of(driver_next(answered(d, true), incoming).1).len() == 0,
{
}

/// Among the input events, each step hands the sink the event that the loop
/// gave, unchanged: the same window and window event, device and device event,
/// user event, suspension or resumption; nothing is held back and the phase
/// stays.
pub proof fn lemma_input_events_dispatched_unchanged<E>(
    window_id: winit::window::WindowId,
    window_event: crate::window::WindowEventAsync,
    device_id: winit::event::DeviceId,
    device_event: winit::event::DeviceEvent,
    user: E,
)
    ensures
        dispatched(LoopEvent::<E>::WindowEvent { window_id, event: window_event }) == Some(
            EventAsync::<E>::WindowEvent { window_id, event: window_event },
        ),
        dispatched(LoopEvent::<E>::DeviceEvent { device_id, event: device_event }) == Some(
            EventAsync::<E>::DeviceEvent { device_id, event: device_event },
        ),
        dispatched(LoopEvent::<E>::UserEvent(user)) == Some(EventAsync::<E>::UserEvent(user)),
        dispatched(LoopEvent::<E>::Suspended) == Some(EventAsync::<E>::Suspended),
        dispatched(LoopEvent::<E>::Resumed) == Some(EventAsync::<E>::Resumed),
        driver_step(DriverPhase::MainEvents, LoopEvent::<E>::WindowEvent { window_id, event: window_event }) == (
            DriverPhase::MainEvents,
            None::<LoopEvent<E>>,
            DriverStep::Call(AsyncDriverEvent::Event(EventAsync::<E>::WindowEvent { window_id, event: window_event })),
        ),
        driver_step(DriverPhase::MainEvents, LoopEvent::<E>::DeviceEvent { device_id, event: device_event }) == (
            DriverPhase::MainEvents,
            None::<LoopEvent<E>>,
            DriverStep::Call(AsyncDriverEvent::Event(EventAsync::<E>::DeviceEvent { device_id, event: device_event })),
        ),
        driver_step(DriverPhase::MainEvents, LoopEvent::<E>::UserEvent(user)) == (
            DriverPhase::MainEvents,
            None::<LoopEvent<E>>,
            DriverStep::Call(AsyncDriverEvent::Event(EventAsync::<E>::UserEvent(user))),
        ),
        driver_step(DriverPhase::MainEvents, LoopEvent::<E>::Suspended) == (
            DriverPhase::MainEvents,
            None::<LoopEvent<E>>,
            DriverStep::Call(AsyncDriverEvent::Event(EventAsync::<E>::Suspended)),
        ),
        driver_step(DriverPhase::MainEvents, LoopEvent::<E>::Resumed) == (
            DriverPhase::MainEvents,
            None::<LoopEvent<E>>,
            DriverStep::Call(AsyncDriverEvent::Event(EventAsync::<E>::Resumed)),
        ),
{
}

/// Every call but one that hands on a user event keeps its kind and payload
/// under another user-event type.
pub proof fn lemma_map_nonuser_call_keeps_payload<E, T>(
    window_id: winit::window::WindowId,
    window_event: crate::window::WindowEventAsync,
    cause: LoopStartCause,
    user: E,
)
    ensures
        AsyncDriverEvent::<E>::Event(EventAsync::WindowEvent { window_id, event: window_event }).nonuser_event::<T>()
            == Ok::<AsyncDriverEvent<T>, AsyncDriverEvent<E>>(
            AsyncDriverEvent::Event(EventAsync::WindowEvent { window_id, event: window_event }),
        ),
        AsyncDriverEvent::<E>::Redraw(window_id).nonuser_event::<T>() == Ok::<
            AsyncDriverEvent<T>,
            AsyncDriverEvent<E>,
        >(AsyncDriverEvent::Redraw(window_id)),
        AsyncDriverEvent::<E>::WakeUp(cause).nonuser_event::<T>() == Ok::<AsyncDriverEvent<T>, AsyncDriverEvent<E>>(
            AsyncDriverEvent::WakeUp(cause),
        ),
        AsyncDriverEvent::<E>::Event(EventAsync::UserEvent(user)).nonuser_event::<T>() == Err::<
            AsyncDriverEvent<T>,
            AsyncDriverEvent<E>,
        >(AsyncDriverEvent::Event(EventAsync::UserEvent(user))),
{
}

} // verus!
