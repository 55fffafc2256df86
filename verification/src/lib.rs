//! An asynchronous front to winit's event loop: the program's handler is an
//! async function that waits for iterations of the loop and receives their
//! events and redraw requests through futures.
use vstd::prelude::*;

pub mod cycle;
pub mod driver;
pub mod event;
pub mod future;
pub mod runner;
pub mod window;

verus! {

/// The waker that the library polls its futures with.
#[verifier::external_type_specification]
#[verifier::external_body]
pub struct ExWaker(std::task::Waker);

/// std's `Waker::noop`: a reference to a waker that does nothing when woken or
/// cloned. Nothing is stated of the waker, which Verus cannot look into.
#[verifier::external_body]
fn noop_waker() -> &'static std::task::Waker {
    std::task::Waker::noop()
}

/// The waker that the event loop polls the program's handler with: one that
/// does nothing when woken, since the loop polls the handler on every event
/// anyway.
pub fn null_waker() -> &'static std::task::Waker {
    noop_waker()
}

} // verus!
