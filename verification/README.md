# winit_async

An asynchronous front to winit's event loop: the program's handler is an async
function that waits for iterations of the loop, receives their input events and
then their redraw requests through futures.

- `src/` is the verified library. It holds the decisions: what each future does
  with the event that the loop's callback hands over (`future`), what a callback
  does before and after polling the handler (`runner`), and the driver that
  turns the loop's events into calls of an event sink (`driver`). Its events,
  start causes and control flows (`event`) and window events (`window`) mirror
  winit's, with winit's identifiers and device events carried through; the
  driver also takes the sink's answers and is over once the sink is done. `cycle` proves what a program that waits,
  receives and redraws sees of an iteration of the loop.
- `app/` runs those decisions inside winit: it converts winit's values, holds the
  state that the loop and the handler share, implements `Future` for the
  handler's futures and `EventLoopAsync` for winit's `EventLoop`, and runs the
  driver's loop.
