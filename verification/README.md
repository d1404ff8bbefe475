# tokio_io_timeout

Read and write timeouts for asynchronous streams, verified with Verus.

- `src/state.rs`: the countdown of one direction (`TimeoutState`), its
  abstract view `Countdown` (timeout, whether a countdown runs, the timer's
  deadline), the decision taken after each poll of the inner stream (which
  tells the caller whether to poll the countdown's timer), the composition
  of a poll's answer (`answer`), and the laws over single operations and
  whole runs of them.
- `src/reader.rs`, `src/writer.rs`, `src/stream.rs`: the wrappers, with their
  accessors and the laws that relate setting and reading timeouts.
- `src/clock.rs`: the clock type of std and the timer type of
  `tokio_timer`, names for the results of the calls into them, and the
  trusted calls.
- `app/`: the `tokio_io` `AsyncRead`/`AsyncWrite` impls, which poll the inner
  stream, hand the outcome to the verified decision, and poll the
  countdown's timer where the decision asks for it, and turn the verified
  answer into a `Poll`.
