use std::task::Context;
use std::time::{Duration, Instant};
use winit_async::driver::AsyncDriverEvent;
use winit_async::event::{EventAsync, LoopStartCause};
use winit_async::null_waker;

#[test]
fn map_nonuser_event_refuses_user_event() {
    let e: EventAsync<u8> = EventAsync::UserEvent(7);
    let r: Result<EventAsync<u32>, EventAsync<u8>> = e.map_nonuser_event();
    assert_eq!(r, Err(EventAsync::UserEvent(7)));
}

#[test]
fn map_nonuser_event_keeps_lifecycle_events() {
    let r: Result<EventAsync<u32>, EventAsync<u8>> = EventAsync::<u8>::Suspended.map_nonuser_event();
    assert_eq!(r, Ok(EventAsync::Suspended));
    let r: Result<EventAsync<u32>, EventAsync<u8>> = EventAsync::<u8>::Resumed.map_nonuser_event();
    assert_eq!(r, Ok(EventAsync::Resumed));
}

#[test]
fn map_nonuser_event_round_trip() {
    let there: EventAsync<String> = EventAsync::<u8>::Resumed.map_nonuser_event().unwrap();
    let back: EventAsync<u8> = there.map_nonuser_event().unwrap();
    assert_eq!(back, EventAsync::Resumed);
}

#[test]
fn driver_event_map_refuses_only_user_events() {
    let r: Result<AsyncDriverEvent<u32>, AsyncDriverEvent<u8>> =
        AsyncDriverEvent::Event(EventAsync::UserEvent(3u8)).map_nonuser_event();
    assert!(matches!(r, Err(AsyncDriverEvent::Event(EventAsync::UserEvent(3)))));
    let r: Result<AsyncDriverEvent<u32>, AsyncDriverEvent<u8>> =
        AsyncDriverEvent::Event(EventAsync::Suspended).map_nonuser_event();
    assert!(matches!(r, Ok(AsyncDriverEvent::Event(EventAsync::Suspended))));
    let r: Result<AsyncDriverEvent<u32>, AsyncDriverEvent<u8>> = AsyncDriverEvent::EventsCleared.map_nonuser_event();
    assert!(matches!(r, Ok(AsyncDriverEvent::EventsCleared)));
    let r: Result<AsyncDriverEvent<u32>, AsyncDriverEvent<u8>> = AsyncDriverEvent::RedrawsCleared.map_nonuser_event();
    assert!(matches!(r, Ok(AsyncDriverEvent::RedrawsCleared)));
    let r: Result<AsyncDriverEvent<u32>, AsyncDriverEvent<u8>> = AsyncDriverEvent::SetWait.map_nonuser_event();
    assert!(matches!(r, Ok(AsyncDriverEvent::SetWait)));
    let start = Instant::now();
    let resume = start + Duration::from_millis(5);
    let cause = LoopStartCause::ResumeTimeReached { start, requested_resume: resume };
    let r: Result<AsyncDriverEvent<u32>, AsyncDriverEvent<u8>> = AsyncDriverEvent::WakeUp(cause).map_nonuser_event();
    match r {
        Ok(AsyncDriverEvent::WakeUp(c)) => assert_eq!(c, cause),
        other => panic!("unexpected {:?}", other),
    }
}

#[test]
fn null_waker_wakes_nothing() {
    let waker = null_waker();
    waker.wake_by_ref();
    let cloned = waker.clone();
    cloned.wake();
    let context = Context::from_waker(null_waker());
    assert!(context.waker().will_wake(null_waker()));
}
