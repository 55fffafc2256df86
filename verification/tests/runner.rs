use winit_async::event::{EventAsync, LoopControlFlow, LoopEvent, LoopStartCause};
use winit_async::future::{
    EventReceiver, EventReceiverBuilder, PollFuture, Progress, RedrawRequestFuture, RedrawRequestReceiver,
    RedrawRequestReceiverBuilder, WaitFuture,
};
use winit_async::runner::EventLoopRunnerAsync;

#[test]
fn runner_starts_empty_and_polling() {
    let r: EventLoopRunnerAsync<u32> = EventLoopRunnerAsync::new();
    assert_eq!(r.shared_state.next_event, None);
    assert_eq!(r.shared_state.control_flow, LoopControlFlow::Poll);
}

#[test]
fn callback_records_event_and_polls_unless_exiting() {
    let mut r: EventLoopRunnerAsync<u32> = EventLoopRunnerAsync::new();
    assert!(r.begin_callback(LoopEvent::UserEvent(3), LoopControlFlow::Wait));
    assert_eq!(r.shared_state.next_event, Some(LoopEvent::UserEvent(3)));
    assert_eq!(r.shared_state.control_flow, LoopControlFlow::Wait);
    assert_eq!(r.end_callback(false), LoopControlFlow::Wait);
    assert!(!r.begin_callback(LoopEvent::UserEvent(4), LoopControlFlow::Exit));
    assert_eq!(r.end_callback(false), LoopControlFlow::Exit);
}

#[test]
fn finished_handler_exits_the_loop() {
    let mut r: EventLoopRunnerAsync<u32> = EventLoopRunnerAsync::new();
    assert!(r.begin_callback(LoopEvent::MainEventsCleared, LoopControlFlow::Poll));
    assert_eq!(r.end_callback(true), LoopControlFlow::Exit);
    assert_eq!(r.shared_state.control_flow, LoopControlFlow::Exit);
    assert!(!r.begin_callback(LoopEvent::RedrawEventsCleared, LoopControlFlow::Exit));
}

/// The program of the usual loop: wait, receive the input events, then the
/// redraw requests, and wait again.
enum Program {
    Waiting(WaitFuture),
    Opening(EventReceiverBuilder),
    Receiving(EventReceiver, PollFuture),
    OpeningRedraws(RedrawRequestReceiverBuilder),
    Redrawing(RedrawRequestReceiver, RedrawRequestFuture),
}

fn run_callback(
    r: &mut EventLoopRunnerAsync<u32>,
    program: Program,
    ev: LoopEvent<u32>,
    control_flow: LoopControlFlow,
    got: &mut Vec<u32>,
    redraws: &mut usize,
) -> (Program, LoopControlFlow) {
    assert!(r.begin_callback(ev, control_flow));
    let mut program = program;
    loop {
        let s = &mut r.shared_state;
        program = match program {
            Program::Waiting(mut f) => match f.poll(s) {
                Progress::Ready(()) => Program::Opening(r.recv_events()),
                Progress::Pending => break (Program::Waiting(f), r.end_callback(false)),
            },
            Program::Opening(mut f) => match f.poll(s) {
                Progress::Ready(mut rec) => {
                    let next = rec.next();
                    Program::Receiving(rec, next)
                },
                Progress::Pending => break (Program::Opening(f), r.end_callback(false)),
            },
            Program::Receiving(mut rec, mut f) => match f.poll(s) {
                Progress::Ready(Some(EventAsync::UserEvent(n))) => {
                    got.push(n);
                    let next = rec.next();
                    Program::Receiving(rec, next)
                },
                Progress::Ready(Some(_)) => panic!("only user events are sent"),
                Progress::Ready(None) => Program::OpeningRedraws(rec.redraw_requests()),
                Progress::Pending => break (Program::Receiving(rec, f), r.end_callback(false)),
            },
            Program::OpeningRedraws(mut f) => match f.poll(s) {
                Progress::Ready(mut rr) => {
                    let next = rr.next();
                    Program::Redrawing(rr, next)
                },
                Progress::Pending => break (Program::OpeningRedraws(f), r.end_callback(false)),
            },
            Program::Redrawing(mut rr, mut f) => match f.poll(s) {
                Progress::Ready(Some(_)) => {
                    *redraws += 1;
                    let next = rr.next();
                    Program::Redrawing(rr, next)
                },
                Progress::Ready(None) => Program::Waiting(r.wait()),
                Progress::Pending => break (Program::Redrawing(rr, f), r.end_callback(false)),
            },
        };
    }
}

#[test]
fn iteration_reaches_the_program_in_order() {
    let mut r: EventLoopRunnerAsync<u32> = EventLoopRunnerAsync::new();
    let mut program = Program::Waiting(r.wait());
    let mut control_flow = LoopControlFlow::Poll;
    let mut got = Vec::new();
    let mut redraws = 0;
    let iteration = |first: u32| {
        vec![
            LoopEvent::NewEvents(LoopStartCause::Poll),
            LoopEvent::UserEvent(first),
            LoopEvent::UserEvent(first + 1),
            LoopEvent::UserEvent(first + 2),
            LoopEvent::MainEventsCleared,
            LoopEvent::RedrawEventsCleared,
        ]
    };
    for ev in iteration(10).into_iter().chain(iteration(20)) {
        let (p, cf) = run_callback(&mut r, program, ev, control_flow, &mut got, &mut redraws);
        program = p;
        control_flow = cf;
    }
    assert_eq!(got, vec![10, 11, 12, 20, 21, 22]);
    assert_eq!(redraws, 0);
    assert_eq!(control_flow, LoopControlFlow::Wait);
    assert!(matches!(program, Program::Waiting(_)));
}
