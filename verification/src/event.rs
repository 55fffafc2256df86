//! The library's picture of what winit's event loop reports, and the events it
//! hands on to the program.
use vstd::prelude::*;
use crate::window::WindowEventAsync;

verus! {

/// winit's identifier of a window, carried through unread.
#[verifier::external_type_specification]
#[verifier::external_body]
pub struct ExWindowId(winit::window::WindowId);

/// winit's identifier of an input device, carried through unread.
#[verifier::external_type_specification]
#[verifier::external_body]
pub struct ExDeviceId(winit::event::DeviceId);

/// An event of one input device, carried through unread.
#[verifier::external_type_specification]
#[verifier::external_body]
pub struct ExDeviceEvent(winit::event::DeviceEvent);

/// A point in time, carried through unread.
#[verifier::external_type_specification]
#[verifier::external_body]
pub struct ExInstant(std::time::Instant);

/// `WindowId` derives `Clone` beside `Copy`: a clone is the same value.
pub assume_specification[ <winit::window::WindowId as core::clone::Clone>::clone ](
    id: &winit::window::WindowId,
) -> (r: winit::window::WindowId)
    ensures
        r == *id,
;

/// `DeviceId` derives `Clone` beside `Copy`: a clone is the same value.
pub assume_specification[ <winit::event::DeviceId as core::clone::Clone>::clone ](
    id: &winit::event::DeviceId,
) -> (r: winit::event::DeviceId)
    ensures
        r == *id,
;

/// The derived `Clone` of a device event; nothing is stated of the copy it returns.
pub assume_specification[ <winit::event::DeviceEvent as core::clone::Clone>::clone ](
    e: &winit::event::DeviceEvent,
) -> winit::event::DeviceEvent
;

/// Why an iteration of the event loop began, as winit's `StartCause` says it.
#[derive(Clone, Copy, Debug, PartialEq, Eq)]
pub enum LoopStartCause {
    /// The time asked for by `ControlFlow::WaitUntil` has come.
    ResumeTimeReached { start: std::time::Instant, requested_resume: std::time::Instant },
    /// Events arrived before the time asked for, if any.
    WaitCancelled { start: std::time::Instant, requested_resume: Option<std::time::Instant> },
    /// The loop was told to poll.
    Poll,
    /// The first iteration.
    Init,
}

/// What the program tells the event loop to do once the current iteration ends,
/// as winit's `ControlFlow` says it.
#[derive(Clone, Copy, Debug, PartialEq, Eq)]
pub enum LoopControlFlow {
    Poll,
    Wait,
    WaitUntil(std::time::Instant),
    Exit,
}

/// One event of winit's event loop, as winit's `Event<'static, E>` says it,
/// with the window event as the library carries it.
#[derive(Clone, Debug, PartialEq)]
pub enum LoopEvent<E: 'static> {
    NewEvents(LoopStartCause),
    WindowEvent { window_id: winit::window::WindowId, event: WindowEventAsync },
    DeviceEvent { device_id: winit::event::DeviceId, event: winit::event::DeviceEvent },
    UserEvent(E),
    Suspended,
    Resumed,
    MainEventsCleared,
    RedrawRequested(winit::window::WindowId),
    RedrawEventsCleared,
    LoopDestroyed,
}

/// Why a wait of the program for the event loop ended.
#[must_use]
pub enum WaitCancelledCause {
    ResumeTimeReached,
    EventsReceived,
}

/// An event as the program receives it: the input events of winit, without the
/// ones that only mark the phases of an iteration.
#[derive(Clone, Debug, PartialEq)]
pub enum EventAsync<E: 'static> {
    WindowEvent { window_id: winit::window::WindowId, event: WindowEventAsync },
    DeviceEvent { device_id: winit::event::DeviceId, event: winit::event::DeviceEvent },
    UserEvent(E),
    Suspended,
    Resumed,
}

impl<E> EventAsync<E> {
    /// The event under another user-event type: the same event, unless it is a
    /// user event, which cannot change type and comes back as the error.
    pub open spec fn nonuser_event<U>(self) -> Result<EventAsync<U>, EventAsync<E>> {
        match self {
            EventAsync::UserEvent(_) => Err(self),
            EventAsync::WindowEvent { window_id, event } => Ok(EventAsync::WindowEvent { window_id, event }),
            EventAsync::DeviceEvent { device_id, event } => Ok(EventAsync::DeviceEvent { device_id, event }),
            EventAsync::Suspended => Ok(EventAsync::Suspended),
            EventAsync::Resumed => Ok(EventAsync::Resumed),
        }
    }

    pub fn map_nonuser_event<U>(self) -> (r: Result<EventAsync<U>, EventAsync<E>>)
        ensures
            r == self.nonuser_event::<U>(),
            r is Err <==> self is UserEvent,
    {
        match self {
            EventAsync::UserEvent(e) => Err(EventAsync::UserEvent(e)),
            EventAsync::WindowEvent { window_id, event } => Ok(EventAsync::WindowEvent { window_id, event }),
            EventAsync::DeviceEvent { device_id, event } => Ok(EventAsync::DeviceEvent { device_id, event }),
            EventAsync::Suspended => Ok(EventAsync::Suspended),
            EventAsync::Resumed => Ok(EventAsync::Resumed),
        }
    }
}

/// Changing the user-event type and changing it back gives the event back; a
/// user event is refused and handed back unchanged.
pub proof fn lemma_map_nonuser_event_round_trip<E, U>(e: EventAsync<E>)
    ensures
        e is UserEvent ==> e.nonuser_event::<U>() == Err::<EventAsync<U>, EventAsync<E>>(e),
        e.nonuser_event::<U>() matches Ok(m) ==> m.nonuser_event::<E>() == Ok::<EventAsync<E>, EventAsync<U>>(e),
{
}

/// Every event but a user event keeps its kind and its payload under another
/// user-event type: the same window and window event, the same device and
/// device event; a user event is refused and handed back as it was.
pub proof fn lemma_map_nonuser_event_keeps_payload<E, U>(
    window_id: winit::window::WindowId,
    window_event: WindowEventAsync,
    device_id: winit::event::DeviceId,
    device_event: winit::event::DeviceEvent,
    user: E,
)
    ensures
        (EventAsync::<E>::WindowEvent { window_id, event: window_event }).nonuser_event::<U>()
            == Ok::<EventAsync<U>, EventAsync<E>>((EventAsync::WindowEvent { window_id, event: window_event })),
        (EventAsync::<E>::DeviceEvent { device_id, event: device_event }).nonuser_event::<U>()
            == Ok::<EventAsync<U>, EventAsync<E>>((EventAsync::DeviceEvent { device_id, event: device_event })),
        EventAsync::<E>::Suspended.nonuser_event::<U>() == Ok::<EventAsync<U>, EventAsync<E>>(EventAsync::Suspended),
        EventAsync::<E>::Resumed.nonuser_event::<U>() == Ok::<EventAsync<U>, EventAsync<E>>(EventAsync::Resumed),
        EventAsync::<E>::UserEvent(user).nonuser_event::<U>()
            == Err::<EventAsync<U>, EventAsync<E>>(EventAsync::UserEvent(user)),
{
}

} // verus!
