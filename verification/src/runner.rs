//! What the event loop's callback decides on each event, and the runner that the
//! program's handler gets: the state it shares with the loop, and the futures it
//! awaits.
use vstd::prelude::*;
use crate::event::{LoopControlFlow, LoopEvent};
use crate::future::{EventReceiverBuilder, SharedState, WaitFuture, WaitUntilFuture};

verus! {

/// The program's side of the event loop: the state shared with the loop's
/// callback, from which the program's futures take events.
pub struct EventLoopRunnerAsync<E: 'static> {
    pub shared_state: SharedState<E>,
}

impl<E> EventLoopRunnerAsync<E> {
    /// A runner before the first callback: no event waits, and the loop polls,
    /// as winit's default control flow has it.
    pub fn new() -> (r: Self)
        ensures
            r.shared_state.next_event is None,
            r.shared_state.control_flow == LoopControlFlow::Poll,
    {
        EventLoopRunnerAsync {
            shared_state: SharedState { next_event: None, control_flow: LoopControlFlow::Poll },
        }
    }

    pub fn wait(&mut self) -> (r: WaitFuture)
        ensures
            *final(self) == *old(self),
            r == (WaitFuture {}),
    {
        WaitFuture {}
    }

    pub fn wait_until(&mut self, timeout: std::time::Instant) -> (r: WaitUntilFuture)
        ensures
            *final(self) == *old(self),
            r.timeout == timeout,
    {
        WaitUntilFuture { timeout }
    }

    pub fn recv_events(&mut self) -> (r: EventReceiverBuilder)
        ensures
            *final(self) == *old(self),
            r == (EventReceiverBuilder {}),
    {
        EventReceiverBuilder {}
    }

    /// The start of a callback of the loop with `event` while the loop's control
    /// flow is `control_flow`: the event becomes the one to consume, the control
    /// flow the one to hand back, and the handler is polled unless the loop is
    /// exiting.
    pub fn begin_callback(&mut self, event: LoopEvent<E>, control_flow: LoopControlFlow) -> (poll_handler: bool)
        ensures
            final(self).shared_state == (SharedState { next_event: Some(event), control_flow }),
            poll_handler == polls_handler(control_flow),
    {
        self.shared_state.next_event = Some(event);
        self.shared_state.control_flow = control_flow;
        match control_flow {
            LoopControlFlow::Exit => false,
            _ => true,
        }
    }

    /// The end of a callback, in which the handler finished or not: the control
    /// flow that the loop gets back, which is `Exit` once the handler finished.
    pub fn end_callback(&mut self, handler_finished: bool) -> (control_flow: LoopControlFlow)
        ensures
            control_flow == callback_result(old(self).shared_state.control_flow, handler_finished),
            final(self).shared_state == (SharedState { control_flow, ..old(self).shared_state }),
    {
        if handler_finished {
            self.shared_state.control_flow = LoopControlFlow::Exit;
        }
        self.shared_state.control_flow
    }
}

/// The control flow that a callback hands back: the one its futures left, or
/// `Exit` once the handler finished.
pub open spec fn callback_result(control_flow: LoopControlFlow, handler_finished: bool) -> LoopControlFlow {
    if handler_finished { LoopControlFlow::Exit } else { control_flow }
}

/// Whether a callback polls the handler while the loop's control flow is
/// `control_flow`: not once the loop is exiting.
pub open spec fn polls_handler(control_flow: LoopControlFlow) -> bool {
    !(control_flow is Exit)
}

/// Once the handler finished, the loop gets `Exit` back, and a loop that exits
/// neither polls the handler again nor gets anything but `Exit` back, whether
/// or not the handler is reported finished.
pub proof fn lemma_exit_is_final(control_flow: LoopControlFlow, handler_finished: bool)
    ensures
        callback_result(control_flow, true) == LoopControlFlow::Exit,
        !polls_handler(LoopControlFlow::Exit),
        callback_result(LoopControlFlow::Exit, handler_finished) == LoopControlFlow::Exit,
{
}

/// A callback polls the handler under every control flow but `Exit`: while
/// the loop polls, waits, or waits until a time.
pub proof fn lemma_polls_unless_exiting(control_flow: LoopControlFlow, time: std::time::Instant)
    ensures
        polls_handler(control_flow) == (control_flow != LoopControlFlow::Exit),
        polls_handler(LoopControlFlow::Poll),
        polls_handler(LoopControlFlow::Wait),
        polls_handler(LoopControlFlow::WaitUntil(time)),
        !polls_handler(LoopControlFlow::Exit),
{
}

} // verus!
