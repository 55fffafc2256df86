//! The futures that the program awaits, each reduced to its decision: what one
//! poll does with the event that the loop handed over and with the control flow.
use vstd::prelude::*;
use crate::event::{EventAsync, LoopControlFlow, LoopEvent, LoopStartCause, WaitCancelledCause};

verus! {

/// What the event loop and the program share during one callback of the loop:
/// the event not yet consumed, and the control flow the loop gets back.
pub struct SharedState<E: 'static> {
    pub next_event: Option<LoopEvent<E>>,
    pub control_flow: LoopControlFlow,
}

/// The outcome of one poll of a future.
#[derive(Clone, Copy, Debug, PartialEq, Eq)]
pub enum Progress<T> {
    Ready(T),
    Pending,
}

/// The shared state with the pending event consumed.
pub open spec fn consumed<E>(s: SharedState<E>) -> SharedState<E> {
    SharedState { next_event: None, control_flow: s.control_flow }
}

/// A phase-marking or input event that only a stray future could meet: the end
/// of the loop, or a suspension of the application.
pub open spec fn is_lifecycle<E>(ev: LoopEvent<E>) -> bool {
    ev is LoopDestroyed || ev is Suspended || ev is Resumed
}

/// An input event: what the receiver hands to the program.
pub open spec fn is_input<E>(ev: LoopEvent<E>) -> bool {
    ev is WindowEvent || ev is DeviceEvent || ev is UserEvent
}

/// A wait accepts every event but the end of the loop and a suspension.
pub open spec fn wait_accepts<E>(next: Option<LoopEvent<E>>) -> bool {
    next matches Some(ev) ==> !is_lifecycle(ev)
}

/// One poll of a wait that leaves the loop `idle` while it waits: the shared
/// state afterwards, and the cause of the new iteration when the wait is over. A
/// new iteration ends the wait, stays pending for the next future and sets the
/// loop polling; the end of an iteration is consumed and leaves the loop idle;
/// any other event is consumed.
pub open spec fn wait_step<E>(s: SharedState<E>, idle: LoopControlFlow) -> (SharedState<E>, Option<LoopStartCause>) {
    match s.next_event {
        Some(LoopEvent::NewEvents(cause)) => (
            SharedState { next_event: s.next_event, control_flow: LoopControlFlow::Poll },
            Some(cause),
        ),
        Some(LoopEvent::RedrawEventsCleared) => (SharedState { next_event: None, control_flow: idle }, None),
        Some(_) => (consumed(s), None),
        None => (s, None),
    }
}

/// Why a wait for a new iteration ended, from the cause of that iteration.
pub open spec fn cancelled_cause(cause: LoopStartCause) -> WaitCancelledCause {
    match cause {
        LoopStartCause::ResumeTimeReached { .. } => WaitCancelledCause::ResumeTimeReached,
        _ => WaitCancelledCause::EventsReceived,
    }
}

/// Waits for the next iteration of the event loop, letting the loop sleep
/// until events arrive.
#[must_use]
pub struct WaitFuture {}

impl WaitFuture {
    pub fn accepts<E>(&self, shared: &SharedState<E>) -> (r: bool)
        ensures
            r == wait_accepts(shared.next_event),
    {
        match &shared.next_event {
            Some(LoopEvent::LoopDestroyed) | Some(LoopEvent::Suspended) | Some(LoopEvent::Resumed) => false,
            _ => true,
        }
    }

    pub fn poll<E>(&mut self, shared: &mut SharedState<E>) -> (r: Progress<()>)
        requires
            wait_accepts(old(shared).next_event),
        ensures
            *final(shared) == wait_step(*old(shared), LoopControlFlow::Wait).0,
            r is Ready <==> wait_step(*old(shared), LoopControlFlow::Wait).1 is Some,
    {
        match &shared.next_event {
            Some(LoopEvent::NewEvents(_)) => {
                shared.control_flow = LoopControlFlow::Poll;
                Progress::Ready(())
            },
            Some(LoopEvent::RedrawEventsCleared) => {
                shared.control_flow = LoopControlFlow::Wait;
                shared.next_event = None;
                Progress::Pending
            },
            Some(_) => {
                shared.next_event = None;
                Progress::Pending
            },
            None => Progress::Pending,
        }
    }
}

/// Waits for the next iteration of the event loop, letting the loop sleep
/// until events arrive or until `timeout`.
#[must_use]
pub struct WaitUntilFuture {
    pub timeout: std::time::Instant,
}

impl WaitUntilFuture {
    pub fn accepts<E>(&self, shared: &SharedState<E>) -> (r: bool)
        ensures
            r == wait_accepts(shared.next_event),
    {
        match &shared.next_event {
            Some(LoopEvent::LoopDestroyed) | Some(LoopEvent::Suspended) | Some(LoopEvent::Resumed) => false,
            _ => true,
        }
    }

    pub fn poll<E>(&mut self, shared: &mut SharedState<E>) -> (r: Progress<WaitCancelledCause>)
        requires
            wait_accepts(old(shared).next_event),
        ensures
            *final(shared) == wait_step(*old(shared), LoopControlFlow::WaitUntil(old(self).timeout)).0,
            *final(self) == *old(self),
            r == (match wait_step(*old(shared), LoopControlFlow::WaitUntil(old(self).timeout)).1 {
                Some(cause) => Progress::Ready(cancelled_cause(cause)),
                None => Progress::Pending,
            }),
    {
        match &shared.next_event {
            Some(LoopEvent::NewEvents(cause)) => {
                let r = match cause {
                    LoopStartCause::ResumeTimeReached { .. } => WaitCancelledCause::ResumeTimeReached,
                    LoopStartCause::WaitCancelled { .. } | LoopStartCause::Poll | LoopStartCause::Init => {
                        WaitCancelledCause::EventsReceived
                    },
                };
                shared.control_flow = LoopControlFlow::Poll;
                Progress::Ready(r)
            },
            Some(LoopEvent::RedrawEventsCleared) => {
                shared.control_flow = LoopControlFlow::WaitUntil(self.timeout);
                shared.next_event = None;
                Progress::Pending
            },
            Some(_) => {
                shared.next_event = None;
                Progress::Pending
            },
            None => Progress::Pending,
        }
    }
}

/// The events that may reach the opening of a receiver: none of the input
/// events, which only come after a new iteration began.
pub open spec fn receive_accepts<E>(next: Option<LoopEvent<E>>) -> bool {
    next matches Some(ev) ==> !is_lifecycle(ev) && !is_input(ev)
}

/// One poll of the opening of a receiver: every event is consumed, and the
/// receiver opens when it was a new iteration.
pub open spec fn open_receiver_step<E>(s: SharedState<E>) -> (SharedState<E>, bool) {
    (consumed(s), s.next_event matches Some(LoopEvent::NewEvents(_)))
}

/// Opens an `EventReceiver` once a new iteration of the loop begins.
#[must_use]
pub struct EventReceiverBuilder {}

impl EventReceiverBuilder {
    pub fn accepts<E>(&self, shared: &SharedState<E>) -> (r: bool)
        ensures
            r == receive_accepts(shared.next_event),
    {
        match &shared.next_event {
            Some(LoopEvent::WindowEvent { .. }) | Some(LoopEvent::DeviceEvent { .. })
            | Some(LoopEvent::UserEvent(_)) | Some(LoopEvent::LoopDestroyed)
            | Some(LoopEvent::Suspended) | Some(LoopEvent::Resumed) => false,
            _ => true,
        }
    }

    pub fn poll<E>(&mut self, shared: &mut SharedState<E>) -> (r: Progress<EventReceiver>)
        requires
            receive_accepts(old(shared).next_event),
        ensures
            (*final(shared), r is Ready) == open_receiver_step(*old(shared)),
    {
        match &shared.next_event {
            Some(LoopEvent::NewEvents(_)) => {
                shared.next_event = None;
                Progress::Ready(EventReceiver {})
            },
            Some(_) => {
                shared.next_event = None;
                Progress::Pending
            },
            None => Progress::Pending,
        }
    }
}

/// Hands out the input events of the current iteration.
pub struct EventReceiver {}

impl EventReceiver {
    pub fn next(&mut self) -> (r: PollFuture)
        ensures
            !r.sealed,
    {
        PollFuture { sealed: false }
    }

    pub fn redraw_requests(self) -> (r: RedrawRequestReceiverBuilder)
        ensures
            r == (RedrawRequestReceiverBuilder {}),
    {
        RedrawRequestReceiverBuilder {}
    }
}

/// The events that may reach a future once an iteration began, for the next
/// input event or on the redraw side: none that begins an iteration or ends the
/// loop, and no suspension.
pub open spec fn within_iteration_accepts<E>(next: Option<LoopEvent<E>>) -> bool {
    next matches Some(ev) ==> !is_lifecycle(ev) && !(ev is NewEvents)
}

/// The input event that a loop event hands to the program, if it is one.
pub open spec fn as_input<E>(ev: LoopEvent<E>) -> Option<EventAsync<E>> {
    match ev {
        LoopEvent::WindowEvent { window_id, event } => Some(EventAsync::WindowEvent { window_id, event }),
        LoopEvent::DeviceEvent { device_id, event } => Some(EventAsync::DeviceEvent { device_id, event }),
        LoopEvent::UserEvent(e) => Some(EventAsync::UserEvent(e)),
        _ => None,
    }
}

/// One poll for the next input event, by a future that was `sealed` or not:
/// whether it is sealed afterwards, the shared state afterwards, and the
/// outcome. A sealed future answers that the events are over. An input event is
/// consumed and handed out; the end of the input events is consumed and seals
/// the future; an event of the redraw side stays for the redraw receiver; each of
/// these ends the poll. Without an event the poll is pending.
pub open spec fn next_input_step<E>(sealed: bool, s: SharedState<E>) -> (bool, SharedState<E>, Progress<Option<EventAsync<E>>>) {
    if sealed {
        (true, s, Progress::Ready(None))
    } else {
        match s.next_event {
            None => (false, s, Progress::Pending),
            Some(ev) => (
                ev is MainEventsCleared,
                if is_redraw_phase(ev) { s } else { consumed(s) },
                Progress::Ready(as_input(ev)),
            ),
        }
    }
}

/// Resolves to the next input event of the iteration, or to `None` once the
/// input events of the iteration are over.
#[must_use]
pub struct PollFuture {
    pub sealed: bool,
}

impl PollFuture {
    pub fn accepts<E>(&self, shared: &SharedState<E>) -> (r: bool)
        ensures
            r == (self.sealed || within_iteration_accepts(shared.next_event)),
    {
        if self.sealed {
            return true;
        }
        match &shared.next_event {
            Some(LoopEvent::NewEvents(_)) | Some(LoopEvent::LoopDestroyed)
            | Some(LoopEvent::Suspended) | Some(LoopEvent::Resumed) => false,
            _ => true,
        }
    }

    pub fn poll<E>(&mut self, shared: &mut SharedState<E>) -> (r: Progress<Option<EventAsync<E>>>)
        requires
            old(self).sealed || within_iteration_accepts(old(shared).next_event),
        ensures
            (final(self).sealed, *final(shared), r) == next_input_step(old(self).sealed, *old(shared)),
    {
        if self.sealed {
            return Progress::Ready(None);
        }
        match shared.next_event.take() {
            Some(LoopEvent::WindowEvent { window_id, event }) => {
                Progress::Ready(Some(EventAsync::WindowEvent { window_id, event }))
            },
            Some(LoopEvent::DeviceEvent { device_id, event }) => {
                Progress::Ready(Some(EventAsync::DeviceEvent { device_id, event }))
            },
            Some(LoopEvent::UserEvent(event)) => Progress::Ready(Some(EventAsync::UserEvent(event))),
            Some(LoopEvent::MainEventsCleared) => {
                self.sealed = true;
                Progress::Ready(None)
            },
            Some(LoopEvent::RedrawRequested(window_id)) => {
                shared.next_event = Some(LoopEvent::RedrawRequested(window_id));
                Progress::Ready(None)
            },
            Some(LoopEvent::RedrawEventsCleared) => {
                shared.next_event = Some(LoopEvent::RedrawEventsCleared);
                Progress::Ready(None)
            },
            Some(ev) => {
                shared.next_event = Some(ev);
                Progress::Pending
            },
            None => Progress::Pending,
        }
    }
}

/// An event of the redraw side of an iteration.
pub open spec fn is_redraw_phase<E>(ev: LoopEvent<E>) -> bool {
    ev is RedrawRequested || ev is RedrawEventsCleared
}

/// One poll of the opening of a redraw receiver: the receiver opens on an event
/// of the redraw side, which stays for it; any other event is consumed.
pub open spec fn open_redraws_step<E>(s: SharedState<E>) -> (SharedState<E>, bool) {
    match s.next_event {
        Some(ev) => if is_redraw_phase(ev) { (s, true) } else { (consumed(s), false) },
        None => (s, false),
    }
}

/// Opens a `RedrawRequestReceiver` once the redraw side of the iteration begins.
#[must_use]
pub struct RedrawRequestReceiverBuilder {}

impl RedrawRequestReceiverBuilder {
    pub fn accepts<E>(&self, shared: &SharedState<E>) -> (r: bool)
        ensures
            r == within_iteration_accepts(shared.next_event),
    {
        match &shared.next_event {
            Some(LoopEvent::NewEvents(_)) | Some(LoopEvent::LoopDestroyed)
            | Some(LoopEvent::Suspended) | Some(LoopEvent::Resumed) => false,
            _ => true,
        }
    }

    pub fn poll<E>(&mut self, shared: &mut SharedState<E>) -> (r: Progress<RedrawRequestReceiver>)
        requires
            within_iteration_accepts(old(shared).next_event),
        ensures
            (*final(shared), r is Ready) == open_redraws_step(*old(shared)),
    {
        match &shared.next_event {
            Some(LoopEvent::RedrawRequested(_)) | Some(LoopEvent::RedrawEventsCleared) => {
                Progress::Ready(RedrawRequestReceiver {})
            },
            Some(_) => {
                shared.next_event = None;
                Progress::Pending
            },
            None => Progress::Pending,
        }
    }
}

/// Hands out the windows that asked to be redrawn in the current iteration.
pub struct RedrawRequestReceiver {}

impl RedrawRequestReceiver {
    pub fn next(&mut self) -> (r: RedrawRequestFuture)
        ensures
            !r.sealed,
    {
        RedrawRequestFuture { sealed: false }
    }
}

/// One poll for the next window to redraw, by a future that was `sealed` or
/// not: whether it is sealed afterwards, the shared state afterwards, and the
/// outcome. A sealed future answers that the requests are over. A redraw request
/// is consumed and handed out; the end of the iteration seals the future and
/// stays for the wait that follows; any other event is consumed and the poll is
/// pending, as it is without an event.
pub open spec fn next_redraw_step<E>(sealed: bool, s: SharedState<E>) -> (bool, SharedState<E>, Progress<Option<winit::window::WindowId>>) {
    if sealed {
        (true, s, Progress::Ready(None))
    } else {
        match s.next_event {
            None => (false, s, Progress::Pending),
            Some(LoopEvent::RedrawRequested(window_id)) => (false, consumed(s), Progress::Ready(Some(window_id))),
            Some(LoopEvent::RedrawEventsCleared) => (true, s, Progress::Ready(None)),
            Some(_) => (false, consumed(s), Progress::Pending),
        }
    }
}

/// Resolves to the next window to redraw, or to `None` once the redraw
/// requests of the iteration are over.
#[must_use]
pub struct RedrawRequestFuture {
    pub sealed: bool,
}

impl RedrawRequestFuture {
    pub fn accepts<E>(&self, shared: &SharedState<E>) -> (r: bool)
        ensures
            r == (self.sealed || within_iteration_accepts(shared.next_event)),
    {
        if self.sealed {
            return true;
        }
        match &shared.next_event {
            Some(LoopEvent::NewEvents(_)) | Some(LoopEvent::LoopDestroyed)
            | Some(LoopEvent::Suspended) | Some(LoopEvent::Resumed) => false,
            _ => true,
        }
    }

    pub fn poll<E>(&mut self, shared: &mut SharedState<E>) -> (r: Progress<Option<winit::window::WindowId>>)
        requires
            old(self).sealed || within_iteration_accepts(old(shared).next_event),
        ensures
            (final(self).sealed, *final(shared), r) == next_redraw_step(old(self).sealed, *old(shared)),
    {
        if self.sealed {
            return Progress::Ready(None);
        }
        match &shared.next_event {
            Some(LoopEvent::RedrawRequested(window_id)) => {
                let window_id = *window_id;
                shared.next_event = None;
                Progress::Ready(Some(window_id))
            },
            Some(LoopEvent::RedrawEventsCleared) => {
                self.sealed = true;
                Progress::Ready(None)
            },
            Some(_) => {
                shared.next_event = None;
                Progress::Pending
            },
            None => Progress::Pending,
        }
    }
}

/// A receiver future that reported the end of its events keeps reporting it,
/// whatever the shared state, and leaves the state alone.
pub proof fn lemma_sealed_futures_stay_over<E>(s: SharedState<E>)
    ensures
        next_input_step(true, s) == (true, s, Progress::<Option<EventAsync<E>>>::Ready(None)),
        next_redraw_step(true, s) == (true, s, Progress::<Option<winit::window::WindowId>>::Ready(None)),
{
}

/// Without an event to consume, every future is pending and leaves the shared
/// state as it was.
pub proof fn lemma_no_event_no_change<E>(s: SharedState<E>, idle: LoopControlFlow)
    requires
        s.next_event is None,
    ensures
        wait_step(s, idle) == (s, None::<LoopStartCause>),
        open_receiver_step(s) == (s, false),
        next_input_step(false, s) == (false, s, Progress::<Option<EventAsync<E>>>::Pending),
        open_redraws_step(s) == (s, false),
        next_redraw_step(false, s) == (false, s, Progress::<Option<winit::window::WindowId>>::Pending),
{
}

/// The new iteration that ends a wait stays for the receiver awaited next,
/// which opens on it and consumes it; the loop is polling meanwhile.
pub proof fn lemma_wait_hands_over_to_receiver<E>(s: SharedState<E>, idle: LoopControlFlow)
    requires
        wait_step(s, idle).1 is Some,
    ensures
        wait_step(s, idle).0.control_flow == LoopControlFlow::Poll,
        open_receiver_step(wait_step(s, idle).0) == (
            SharedState::<E> { next_event: None, control_flow: LoopControlFlow::Poll },
            true,
        ),
{
}

/// An event of the redraw side ends the input events of a receiver without
/// being consumed, and the redraw receiver awaited next opens on it; a redraw
/// request then goes to the first redraw future.
pub proof fn lemma_receiver_hands_over_to_redraws<E>(s: SharedState<E>)
    requires
        s.next_event matches Some(ev) && is_redraw_phase(ev),
    ensures
        next_input_step(false, s) == (false, s, Progress::<Option<EventAsync<E>>>::Ready(None)),
        open_redraws_step(s) == (s, true),
        s.next_event matches Some(LoopEvent::RedrawRequested(w)) ==> next_redraw_step(false, s) == (
            false,
            consumed(s),
            Progress::Ready(Some(w)),
        ),
{
}

/// The end of the iteration ends the redraw requests without being consumed,
/// and the wait awaited next consumes it and leaves the loop idle as the wait
/// asks: sleeping until events come, or until its timeout.
pub proof fn lemma_redraws_hand_over_to_wait<E>(s: SharedState<E>, idle: LoopControlFlow)
    requires
        s.next_event == Some(LoopEvent::<E>::RedrawEventsCleared),
    ensures
        next_redraw_step(false, s) == (true, s, Progress::<Option<winit::window::WindowId>>::Ready(None)),
        wait_step(s, idle) == (SharedState::<E> { next_event: None, control_flow: idle }, None::<LoopStartCause>),
{
}

/// No poll makes up an event: the pending event afterwards is the one before or
/// none. Only the waits touch the control flow, and then only to set the loop
/// polling or idle.
pub proof fn lemma_polls_only_consume<E>(s: SharedState<E>, idle: LoopControlFlow, sealed: bool)
    ensures
        wait_step(s, idle).0.next_event is None || wait_step(s, idle).0.next_event == s.next_event,
        open_receiver_step(s).0.next_event is None,
        next_input_step(sealed, s).1.next_event is None || next_input_step(sealed, s).1.next_event == s.next_event,
        open_redraws_step(s).0.next_event is None || open_redraws_step(s).0.next_event == s.next_event,
        next_redraw_step(sealed, s).1.next_event is None || next_redraw_step(sealed, s).1.next_event == s.next_event,
        wait_step(s, idle).0.control_flow == s.control_flow || wait_step(s, idle).0.control_flow == idle
            || wait_step(s, idle).0.control_flow == LoopControlFlow::Poll,
        open_receiver_step(s).0.control_flow == s.control_flow,
        next_input_step(sealed, s).1.control_flow == s.control_flow,
        open_redraws_step(s).0.control_flow == s.control_flow,
        next_redraw_step(sealed, s).1.control_flow == s.control_flow,
{
}

/// The receiver hands out each input event as the loop gave it, the same
/// window and window event, device and device event, or user event, and
/// consumes it; the end of the input events is consumed, ends the receiver's
/// future and hands out nothing. The control flow is left as it was.
pub proof fn lemma_input_events_handed_out_unchanged<E>(
    window_id: winit::window::WindowId,
    window_event: crate::window::WindowEventAsync,
    device_id: winit::event::DeviceId,
    device_event: winit::event::DeviceEvent,
    user: E,
    control_flow: LoopControlFlow,
)
    ensures
        as_input(LoopEvent::<E>::WindowEvent { window_id, event: window_event }) == Some(
            EventAsync::<E>::WindowEvent { window_id, event: window_event },
        ),
        as_input(LoopEvent::<E>::DeviceEvent { device_id, event: device_event }) == Some(
            EventAsync::<E>::DeviceEvent { device_id, event: device_event },
        ),
        as_input(LoopEvent::<E>::UserEvent(user)) == Some(EventAsync::<E>::UserEvent(user)),
        next_input_step(
            false,
            SharedState { next_event: Some(LoopEvent::<E>::WindowEvent { window_id, event: window_event }), control_flow },
        ) == (
            false,
            SharedState::<E> { next_event: None, control_flow },
            Progress::Ready(Some(EventAsync::<E>::WindowEvent { window_id, event: window_event })),
        ),
        next_input_step(
            false,
            SharedState { next_event: Some(LoopEvent::<E>::DeviceEvent { device_id, event: device_event }), control_flow },
        ) == (
            false,
            SharedState::<E> { next_event: None, control_flow },
            Progress::Ready(Some(EventAsync::<E>::DeviceEvent { device_id, event: device_event })),
        ),
        next_input_step(false, SharedState { next_event: Some(LoopEvent::<E>::UserEvent(user)), control_flow }) == (
            false,
            SharedState::<E> { next_event: None, control_flow },
            Progress::Ready(Some(EventAsync::<E>::UserEvent(user))),
        ),
        next_input_step(false, SharedState { next_event: Some(LoopEvent::<E>::MainEventsCleared), control_flow }) == (
            true,
            SharedState::<E> { next_event: None, control_flow },
            Progress::<Option<EventAsync<E>>>::Ready(None),
        ),
{
}

/// A wait that ends because the time it waited for came reports that the time
/// was reached; one that ends for any other cause (the first iteration, a
/// polling loop, events before the time) reports that events were received.
pub proof fn lemma_wait_cancelled_cause<E>(
    start: std::time::Instant,
    requested_resume: std::time::Instant,
    requested: Option<std::time::Instant>,
    timeout: std::time::Instant,
    control_flow: LoopControlFlow,
)
    ensures
        cancelled_cause(LoopStartCause::ResumeTimeReached { start, requested_resume })
            == WaitCancelledCause::ResumeTimeReached,
        cancelled_cause(LoopStartCause::WaitCancelled { start, requested_resume: requested })
            == WaitCancelledCause::EventsReceived,
        cancelled_cause(LoopStartCause::Poll) == WaitCancelledCause::EventsReceived,
        cancelled_cause(LoopStartCause::Init) == WaitCancelledCause::EventsReceived,
        wait_step(
            SharedState { next_event: Some(LoopEvent::<E>::NewEvents(LoopStartCause::Init)), control_flow },
            LoopControlFlow::WaitUntil(timeout),
        ) == (
            SharedState {
                next_event: Some(LoopEvent::<E>::NewEvents(LoopStartCause::Init)),
                control_flow: LoopControlFlow::Poll,
            },
            Some(LoopStartCause::Init),
        ),
        wait_step(
            SharedState {
                next_event: Some(LoopEvent::<E>::NewEvents(LoopStartCause::ResumeTimeReached { start, requested_resume })),
                control_flow,
            },
            LoopControlFlow::WaitUntil(timeout),
        ).1 == Some(LoopStartCause::ResumeTimeReached { start, requested_resume }),
{
}

} // verus!
