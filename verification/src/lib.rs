//! Read and write timeouts for asynchronous streams.
//!
//! These timeouts are analogous to the read and write timeouts on
//! traditional blocking sockets. A countdown starts when a read or write on
//! the inner stream reports that it would block. If the operation does not
//! complete before the countdown runs out, it fails with
//! `TimeoutError::TimedOut`.

pub mod clock;
pub mod reader;
pub mod state;
pub mod stream;
pub mod writer;

pub use clock::TimeoutError;
pub use reader::TimeoutReader;
pub use state::{answer, Countdown, Op, Polled, TimeoutState, TimerCheck};
pub use stream::{StreamOp, TimeoutStream};
pub use writer::TimeoutWriter;
