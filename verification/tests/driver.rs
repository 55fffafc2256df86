use winit_async::driver::{AsyncDriver, AsyncDriverEvent, DriverPhase, DriverStep};
use winit_async::event::{EventAsync, LoopEvent, LoopStartCause};

/// Feeds one event of the loop and steps until the driver needs the next one.
fn feed(d: &mut AsyncDriver<u32>, ev: LoopEvent<u32>, calls: &mut Vec<AsyncDriverEvent<u32>>) -> bool {
    let mut incoming = Some(ev);
    loop {
        assert!(d.accepts(&incoming));
        match d.step(incoming.take()) {
            DriverStep::Continue => {},
            DriverStep::Call(c) => calls.push(c),
            DriverStep::Return => return true,
        }
        if d.needs_event() {
            return false;
        }
    }
}

fn describe(calls: &[AsyncDriverEvent<u32>]) -> Vec<String> {
    calls
        .iter()
        .map(|c| match c {
            AsyncDriverEvent::Event(EventAsync::UserEvent(n)) => format!("event {}", n),
            AsyncDriverEvent::Event(EventAsync::Suspended) => "suspended".to_string(),
            AsyncDriverEvent::Event(EventAsync::Resumed) => "resumed".to_string(),
            AsyncDriverEvent::Event(_) => "other event".to_string(),
            AsyncDriverEvent::EventsCleared => "events cleared".to_string(),
            AsyncDriverEvent::Redraw(_) => "redraw".to_string(),
            AsyncDriverEvent::RedrawsCleared => "redraws cleared".to_string(),
            AsyncDriverEvent::SetWait => "set wait".to_string(),
            AsyncDriverEvent::WakeUp(LoopStartCause::Init) => "wake up init".to_string(),
            AsyncDriverEvent::WakeUp(LoopStartCause::Poll) => "wake up poll".to_string(),
            AsyncDriverEvent::WakeUp(_) => "wake up".to_string(),
        })
        .collect()
}

#[test]
fn driver_starts_between_iterations() {
    let d: AsyncDriver<u32> = AsyncDriver::new();
    assert_eq!(d.phase, DriverPhase::Waiting);
    assert!(d.needs_event());
}

#[test]
fn driver_walks_an_iteration_with_input_events() {
    let mut d = AsyncDriver::new();
    let mut calls = Vec::new();
    let evs = vec![
        LoopEvent::NewEvents(LoopStartCause::Init),
        LoopEvent::UserEvent(1),
        LoopEvent::Suspended,
        LoopEvent::UserEvent(2),
        LoopEvent::MainEventsCleared,
        LoopEvent::RedrawEventsCleared,
        LoopEvent::NewEvents(LoopStartCause::Poll),
    ];
    for ev in evs {
        assert!(!feed(&mut d, ev, &mut calls));
    }
    assert_eq!(
        describe(&calls),
        vec![
            "wake up init",
            "event 1",
            "suspended",
            "event 2",
            "events cleared",
            "redraws cleared",
            "wake up poll",
        ]
    );
    assert_eq!(d.phase, DriverPhase::Waiting);
}

#[test]
fn driver_tells_idle_iteration_to_wait() {
    let mut d = AsyncDriver::new();
    let mut calls = Vec::new();
    for ev in vec![
        LoopEvent::NewEvents(LoopStartCause::Init),
        LoopEvent::MainEventsCleared,
        LoopEvent::RedrawEventsCleared,
        LoopEvent::NewEvents(LoopStartCause::Poll),
    ] {
        assert!(!feed(&mut d, ev, &mut calls));
    }
    assert_eq!(describe(&calls), vec!["wake up init", "set wait", "set wait", "wake up poll"]);
}

#[test]
fn driver_returns_at_end_of_loop() {
    let mut d = AsyncDriver::new();
    let mut calls = Vec::new();
    assert!(!feed(&mut d, LoopEvent::NewEvents(LoopStartCause::Init), &mut calls));
    assert!(feed(&mut d, LoopEvent::LoopDestroyed, &mut calls));
    assert_eq!(describe(&calls), vec!["wake up init"]);

    let mut d = AsyncDriver::new();
    let mut calls = Vec::new();
    assert!(!feed(&mut d, LoopEvent::UserEvent(5), &mut calls));
    assert_eq!(d.phase, DriverPhase::MainEvents);
    assert!(feed(&mut d, LoopEvent::LoopDestroyed, &mut calls));
    assert_eq!(describe(&calls), vec!["event 5"]);
}

#[test]
fn driver_refuses_new_iteration_among_input_events() {
    let mut d = AsyncDriver::new();
    let mut calls = Vec::new();
    assert!(!feed(&mut d, LoopEvent::UserEvent(5), &mut calls));
    assert!(!d.accepts(&Some(LoopEvent::NewEvents(LoopStartCause::Poll))));
    assert!(!feed(&mut d, LoopEvent::MainEventsCleared, &mut calls));
    assert_eq!(d.phase, DriverPhase::Redraws);
    assert!(!d.accepts(&Some(LoopEvent::UserEvent(1))));
    assert!(d.accepts(&Some(LoopEvent::LoopDestroyed)));
}

#[test]
fn driver_stops_after_a_done_answer() {
    let mut d: AsyncDriver<u32> = AsyncDriver::new();
    assert!(matches!(d.step(Some(LoopEvent::NewEvents(LoopStartCause::Init))), DriverStep::Call(_)));
    assert!(!d.answer(false));
    assert!(matches!(d.step(Some(LoopEvent::UserEvent(1))), DriverStep::Continue));
    assert!(matches!(d.step(None), DriverStep::Call(AsyncDriverEvent::Event(EventAsync::UserEvent(1)))));
    assert!(d.answer(true));
    assert!(d.finished);
    assert!(!d.needs_event());
    assert!(matches!(d.step(None), DriverStep::Return));
    assert!(matches!(d.step(Some(LoopEvent::UserEvent(2))), DriverStep::Return));
}

#[test]
fn driver_is_over_after_end_of_loop() {
    let mut d: AsyncDriver<u32> = AsyncDriver::new();
    assert!(matches!(d.step(Some(LoopEvent::LoopDestroyed)), DriverStep::Continue));
    assert!(matches!(d.step(None), DriverStep::Return));
    assert!(d.finished);
    assert!(!d.needs_event());
}
