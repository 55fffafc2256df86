use std::time::{Duration, Instant};
use winit_async::event::{EventAsync, LoopControlFlow, LoopEvent, LoopStartCause, WaitCancelledCause};
use winit_async::future::{
    EventReceiver, EventReceiverBuilder, PollFuture, Progress, RedrawRequestFuture, RedrawRequestReceiverBuilder,
    SharedState, WaitFuture, WaitUntilFuture,
};

fn shared(ev: Option<LoopEvent<u32>>, control_flow: LoopControlFlow) -> SharedState<u32> {
    SharedState { next_event: ev, control_flow }
}

#[test]
fn wait_ends_on_new_iteration_and_keeps_it() {
    let mut s = shared(Some(LoopEvent::NewEvents(LoopStartCause::Init)), LoopControlFlow::Wait);
    let mut f = WaitFuture {};
    assert!(f.accepts(&s));
    assert_eq!(f.poll(&mut s), Progress::Ready(()));
    assert_eq!(s.control_flow, LoopControlFlow::Poll);
    assert_eq!(s.next_event, Some(LoopEvent::NewEvents(LoopStartCause::Init)));
}

#[test]
fn wait_sleeps_at_end_of_iteration() {
    let mut s = shared(Some(LoopEvent::RedrawEventsCleared), LoopControlFlow::Poll);
    let mut f = WaitFuture {};
    assert_eq!(f.poll(&mut s), Progress::Pending);
    assert_eq!(s.control_flow, LoopControlFlow::Wait);
    assert_eq!(s.next_event, None);
}

#[test]
fn wait_drops_other_events() {
    let mut s = shared(Some(LoopEvent::UserEvent(4)), LoopControlFlow::Poll);
    let mut f = WaitFuture {};
    assert_eq!(f.poll(&mut s), Progress::Pending);
    assert_eq!(s.next_event, None);
    assert_eq!(s.control_flow, LoopControlFlow::Poll);
    let mut s = shared(None, LoopControlFlow::Poll);
    assert_eq!(f.poll(&mut s), Progress::Pending);
    assert_eq!(s.next_event, None);
}

#[test]
fn wait_refuses_end_of_loop_and_suspension() {
    let f = WaitFuture {};
    assert!(!f.accepts(&shared(Some(LoopEvent::LoopDestroyed), LoopControlFlow::Poll)));
    assert!(!f.accepts(&shared(Some(LoopEvent::Suspended), LoopControlFlow::Poll)));
    assert!(!f.accepts(&shared(Some(LoopEvent::Resumed), LoopControlFlow::Poll)));
    assert!(f.accepts(&shared(None, LoopControlFlow::Poll)));
}

#[test]
fn wait_until_reports_why_it_ended() {
    let start = Instant::now();
    let resume = start + Duration::from_millis(10);
    let mut f = WaitUntilFuture { timeout: resume };
    let mut s = shared(
        Some(LoopEvent::NewEvents(LoopStartCause::ResumeTimeReached { start, requested_resume: resume })),
        LoopControlFlow::WaitUntil(resume),
    );
    assert!(matches!(f.poll(&mut s), Progress::Ready(WaitCancelledCause::ResumeTimeReached)));
    assert_eq!(s.control_flow, LoopControlFlow::Poll);
    let mut s = shared(
        Some(LoopEvent::NewEvents(LoopStartCause::WaitCancelled { start, requested_resume: Some(resume) })),
        LoopControlFlow::WaitUntil(resume),
    );
    assert!(matches!(f.poll(&mut s), Progress::Ready(WaitCancelledCause::EventsReceived)));
    let mut s = shared(Some(LoopEvent::NewEvents(LoopStartCause::Poll)), LoopControlFlow::Poll);
    assert!(matches!(f.poll(&mut s), Progress::Ready(WaitCancelledCause::EventsReceived)));
}

#[test]
fn wait_until_sleeps_until_timeout() {
    let timeout = Instant::now() + Duration::from_secs(1);
    let mut f = WaitUntilFuture { timeout };
    let mut s = shared(Some(LoopEvent::RedrawEventsCleared), LoopControlFlow::Poll);
    assert!(matches!(f.poll(&mut s), Progress::Pending));
    assert_eq!(s.control_flow, LoopControlFlow::WaitUntil(timeout));
    assert_eq!(s.next_event, None);
}

#[test]
fn receiver_opens_on_new_iteration() {
    let mut b = EventReceiverBuilder {};
    let mut s = shared(Some(LoopEvent::MainEventsCleared), LoopControlFlow::Poll);
    assert!(b.accepts(&s));
    assert!(matches!(b.poll(&mut s), Progress::Pending));
    assert_eq!(s.next_event, None);
    let mut s = shared(Some(LoopEvent::NewEvents(LoopStartCause::Poll)), LoopControlFlow::Poll);
    assert!(matches!(b.poll(&mut s), Progress::Ready(EventReceiver {})));
    assert_eq!(s.next_event, None);
    assert!(!b.accepts(&shared(Some(LoopEvent::UserEvent(1)), LoopControlFlow::Poll)));
}

#[test]
fn next_hands_out_input_events() {
    let mut r = EventReceiver {};
    let mut f = r.next();
    assert!(!f.sealed);
    let mut s = shared(Some(LoopEvent::UserEvent(9)), LoopControlFlow::Poll);
    assert_eq!(f.poll(&mut s), Progress::Ready(Some(EventAsync::UserEvent(9))));
    assert_eq!(s.next_event, None);
    assert!(!f.sealed);
    assert_eq!(f.poll(&mut s), Progress::Pending);
}

#[test]
fn next_ends_at_main_events_cleared_and_stays_ended() {
    let mut f = PollFuture { sealed: false };
    let mut s = shared(Some(LoopEvent::MainEventsCleared), LoopControlFlow::Poll);
    assert_eq!(f.poll(&mut s), Progress::Ready(None));
    assert!(f.sealed);
    assert_eq!(s.next_event, None);
    let mut s = shared(Some(LoopEvent::UserEvent(2)), LoopControlFlow::Poll);
    assert!(f.accepts(&shared(Some(LoopEvent::LoopDestroyed), LoopControlFlow::Poll)));
    assert_eq!(f.poll(&mut s), Progress::Ready(None));
    assert_eq!(s.next_event, Some(LoopEvent::UserEvent(2)));
}

#[test]
fn next_leaves_redraw_side_events() {
    let mut f = PollFuture { sealed: false };
    let mut s = shared(Some(LoopEvent::RedrawEventsCleared), LoopControlFlow::Poll);
    assert_eq!(f.poll(&mut s), Progress::Ready(None));
    assert!(!f.sealed);
    assert_eq!(s.next_event, Some(LoopEvent::RedrawEventsCleared));
    assert!(!f.accepts(&shared(Some(LoopEvent::NewEvents(LoopStartCause::Init)), LoopControlFlow::Poll)));
}

#[test]
fn redraw_receiver_opens_on_redraw_side() {
    let mut b = RedrawRequestReceiverBuilder {};
    let mut s = shared(Some(LoopEvent::UserEvent(1)), LoopControlFlow::Poll);
    assert!(matches!(b.poll(&mut s), Progress::Pending));
    assert_eq!(s.next_event, None);
    let mut s = shared(Some(LoopEvent::RedrawEventsCleared), LoopControlFlow::Poll);
    assert!(matches!(b.poll(&mut s), Progress::Ready(_)));
    assert_eq!(s.next_event, Some(LoopEvent::RedrawEventsCleared));
    assert!(!b.accepts(&shared(Some(LoopEvent::Suspended), LoopControlFlow::Poll)));
}

#[test]
fn redraw_next_ends_at_end_of_iteration() {
    let mut f = RedrawRequestFuture { sealed: false };
    let mut s = shared(Some(LoopEvent::MainEventsCleared), LoopControlFlow::Poll);
    assert_eq!(f.poll(&mut s), Progress::Pending);
    assert_eq!(s.next_event, None);
    let mut s = shared(Some(LoopEvent::RedrawEventsCleared), LoopControlFlow::Poll);
    assert_eq!(f.poll(&mut s), Progress::Ready(None));
    assert!(f.sealed);
    assert_eq!(s.next_event, Some(LoopEvent::RedrawEventsCleared));
    assert_eq!(f.poll(&mut s), Progress::Ready(None));
}
