//! A stream that applies read and write timeouts to an inner stream.

use crate::clock::delay_deadline;
use crate::reader::TimeoutReader;
use crate::state::{is_op_run, law_op_run_timeout, step_at, timeout_after, Countdown, Op, TimerCheck};
use crate::writer::TimeoutWriter;
use std::time::Duration;
use tokio_timer::Delay;
use vstd::prelude::*;

verus! {

/// One operation on a stream: an operation on its read side or on its
/// write side (an operation on the inner stream through `get_mut` may be
/// counted as either).
#[derive(Debug, Clone, Copy)]
pub enum StreamOp {
    Read(Op),
    Write(Op),
}

/// A stream which applies read and write timeouts to an inner stream.
#[derive(Debug)]
pub struct TimeoutStream<S>(TimeoutReader<TimeoutWriter<S>>);

impl<S> TimeoutStream<S> {
    /// The wrapped stream.
    pub closed spec fn inner(&self) -> S {
        self.0.inner().inner()
    }

    /// The read countdown.
    pub closed spec fn read_countdown(&self) -> Countdown {
        self.0.countdown()
    }

    /// The write countdown.
    pub closed spec fn write_countdown(&self) -> Countdown {
        self.0.inner().countdown()
    }

    /// `next` is `self` after the operation `op`: the countdown of the side
    /// that `op` is on goes as `Countdown::step` says, the other side's
    /// countdown stays, and the inner stream stays unless `op` is an
    /// operation on it through `get_mut`.
    pub open spec fn op_step(self, op: StreamOp, next: Self) -> bool {
        match op {
            StreamOp::Read(o) => {
                &&& self.read_countdown().step(o, next.read_countdown())
                &&& next.write_countdown() == self.write_countdown()
                &&& !(o is Inner) ==> next.inner() == self.inner()
            },
            StreamOp::Write(o) => {
                &&& next.read_countdown() == self.read_countdown()
                &&& self.write_countdown().step(o, next.write_countdown())
                &&& !(o is Inner) ==> next.inner() == self.inner()
            },
        }
    }

    /// Returns a new `TimeoutStream` wrapping the specified stream.
    ///
    /// There is initially no read or write timeout.
    pub fn new(stream: S) -> (s: TimeoutStream<S>)
        ensures
            s.inner() == stream,
            s.read_countdown().timeout is None,
            !s.read_countdown().active,
            s.write_countdown().timeout is None,
            !s.write_countdown().active,
    {
        let writer = TimeoutWriter::new(stream);
        let reader = TimeoutReader::new(writer);
        TimeoutStream(reader)
    }

    /// Returns the current read timeout.
    pub fn read_timeout(&self) -> (t: Option<Duration>)
        ensures
            t == self.read_countdown().timeout,
    {
        self.0.timeout()
    }

    /// Sets the read timeout.
    ///
    /// This will reset any pending read timeout.
    pub fn set_read_timeout(&mut self, timeout: Option<Duration>)
        ensures
            old(self).op_step(StreamOp::Read(Op::SetTimeout(timeout)), *final(self)),
            final(self).read_countdown().wf(),
    {
        self.0.set_timeout(timeout)
    }

    /// Returns the current write timeout.
    pub fn write_timeout(&self) -> (t: Option<Duration>)
        ensures
            t == self.write_countdown().timeout,
    {
        self.0.get_ref().timeout()
    }

    /// Sets the write timeout.
    ///
    /// This will reset any pending write timeout.
    pub fn set_write_timeout(&mut self, timeout: Option<Duration>)
        ensures
            old(self).op_step(StreamOp::Write(Op::SetTimeout(timeout)), *final(self)),
            final(self).write_countdown().wf(),
    {
        self.0.get_mut().set_timeout(timeout)
    }

    /// Returns a shared reference to the inner stream.
    pub fn get_ref(&self) -> (r: &S)
        ensures
            *r == self.inner(),
    {
        self.0.get_ref().get_ref()
    }

    /// Returns a mutable reference to the inner stream.
    pub fn get_mut(&mut self) -> (r: &mut S)
        ensures
            *r == old(self).inner(),
            final(self).inner() == *final(r),
            final(self).read_countdown() == old(self).read_countdown(),
            final(self).write_countdown() == old(self).write_countdown(),
            old(self).op_step(StreamOp::Read(Op::Inner), *final(self)),
            old(self).op_step(StreamOp::Write(Op::Inner), *final(self)),
    {
        self.0.get_mut().get_mut()
    }

    /// Consumes the stream, returning the inner stream.
    pub fn into_inner(self) -> (r: S)
        ensures
            r == self.inner(),
    {
        self.0.into_inner().into_inner()
    }

    /// The read-timeout decision that follows each poll of a read on the
    /// inner stream, given whether that poll reported that the read would
    /// block. The write countdown is left as it is.
    pub fn after_read_poll(&mut self, pending: bool) -> (check: TimerCheck)
        ensures
            old(self).op_step(StreamOp::Read(Op::Decide(pending, check)), *final(self)),
            final(self).read_countdown().wf(),
    {
        self.0.after_read_poll(pending)
    }

    /// The write-timeout decision that follows each poll of a write, flush
    /// or shutdown on the inner stream, given whether that poll reported that
    /// the operation would block. The read countdown is left as it is.
    pub fn after_write_poll(&mut self, pending: bool) -> (check: TimerCheck)
        ensures
            old(self).op_step(StreamOp::Write(Op::Decide(pending, check)), *final(self)),
            final(self).write_countdown().wf(),
    {
        self.0.get_mut().after_write_poll(pending)
    }

    /// The read countdown's timer, for the caller to poll when a read
    /// decision asks it to. Through the reference only that timer may
    /// change; a poll of a `tokio_timer::Delay` leaves its deadline as it
    /// is, and then the stream is as it was (`StreamOp::Read(Op::PollTimer)`).
    pub fn read_timer_mut(&mut self) -> (d: &mut Delay)
        ensures
            delay_deadline(*d) == old(self).read_countdown().deadline,
            final(self).inner() == old(self).inner(),
            final(self).read_countdown() == (Countdown {
                deadline: delay_deadline(*final(d)),
                ..old(self).read_countdown()
            }),
            final(self).write_countdown() == old(self).write_countdown(),
            final(self).read_countdown().wf(),
    {
        self.0.timer_mut()
    }

    /// The write countdown's timer, for the caller to poll when a write
    /// decision asks it to. Through the reference only that timer may
    /// change; a poll of a `tokio_timer::Delay` leaves its deadline as it
    /// is, and then the stream is as it was (`StreamOp::Write(Op::PollTimer)`).
    pub fn write_timer_mut(&mut self) -> (d: &mut Delay)
        ensures
            delay_deadline(*d) == old(self).write_countdown().deadline,
            final(self).inner() == old(self).inner(),
            final(self).read_countdown() == old(self).read_countdown(),
            final(self).write_countdown() == (Countdown {
                deadline: delay_deadline(*final(d)),
                ..old(self).write_countdown()
            }),
            final(self).write_countdown().wf(),
    {
        self.0.get_mut().timer_mut()
    }
}

/// Operation `i` of `ops` goes from `states[i]` to `states[i + 1]`.
pub open spec fn stream_step_at<S>(states: Seq<TimeoutStream<S>>, ops: Seq<StreamOp>, i: int) -> bool {
    states[i].op_step(ops[i], states[i + 1])
}

/// A run of operations on a stream: `states[0]` is where it starts, and
/// operation `i` goes from `states[i]` to `states[i + 1]`.
pub open spec fn is_stream_run<S>(states: Seq<TimeoutStream<S>>, ops: Seq<StreamOp>) -> bool {
    &&& states.len() == ops.len() + 1
    &&& forall|i: int| 0 <= i < ops.len() ==> #[trigger] stream_step_at(states, ops, i)
}

/// The operations as the read countdown sees them: those on the read side,
/// with every write-side operation leaving it alone.
pub open spec fn read_side(ops: Seq<StreamOp>) -> Seq<Op> {
    ops.map_values(|o: StreamOp| match o {
        StreamOp::Read(x) => x,
        StreamOp::Write(_) => Op::Inner,
    })
}

/// The operations as the write countdown sees them: those on the write
/// side, with every read-side operation leaving it alone.
pub open spec fn write_side(ops: Seq<StreamOp>) -> Seq<Op> {
    ops.map_values(|o: StreamOp| match o {
        StreamOp::Read(_) => Op::Inner,
        StreamOp::Write(x) => x,
    })
}

/// An operation on the inner stream through `get_mut`, on either side.
pub open spec fn on_inner(op: StreamOp) -> bool {
    match op {
        StreamOp::Read(o) => o is Inner,
        StreamOp::Write(o) => o is Inner,
    }
}

/// The inner stream changes only through `get_mut`.
proof fn lemma_stream_inner_kept<S>(states: Seq<TimeoutStream<S>>, ops: Seq<StreamOp>, n: int)
    requires
        is_stream_run(states, ops),
        0 <= n <= ops.len(),
        forall|i: int| 0 <= i < n ==> !on_inner(#[trigger] ops[i]),
    ensures
        states[n].inner() == states[0].inner(),
    decreases n,
{
    if n > 0 {
        lemma_stream_inner_kept(states, ops, n - 1);
        assert(stream_step_at(states, ops, n - 1));
        assert(!on_inner(ops[n - 1]));
    }
}

/// What any sequence of operations on a stream does: the read timeout reads
/// back as the last read timeout set, and the write timeout as the last
/// write timeout set (the starting ones, `None` after `new`, where none was
/// set), whatever else came between: the two setters commute, and polls,
/// timer polls and operations through `get_mut` change neither. The inner
/// stream changes only through `get_mut`, so without such an operation
/// `into_inner` gives back what the run started with. And no countdown runs
/// without a timeout on either side.
pub proof fn law_stream_run<S>(states: Seq<TimeoutStream<S>>, ops: Seq<StreamOp>)
    requires
        is_stream_run(states, ops),
    ensures
        states.last().read_countdown().timeout == timeout_after(
            states[0].read_countdown().timeout,
            read_side(ops),
        ),
        states.last().write_countdown().timeout == timeout_after(
            states[0].write_countdown().timeout,
            write_side(ops),
        ),
        states[0].read_countdown().wf() ==> forall|i: int|
            0 <= i < states.len() ==> #[trigger] states[i].read_countdown().wf(),
        states[0].write_countdown().wf() ==> forall|i: int|
            0 <= i < states.len() ==> #[trigger] states[i].write_countdown().wf(),
        forall|i: int|
            0 <= i < ops.len() && states[i + 1].inner() != states[i].inner() ==> on_inner(
                #[trigger] ops[i],
            ),
        (forall|i: int| 0 <= i < ops.len() ==> !on_inner(#[trigger] ops[i])) ==> states.last().inner()
            == states[0].inner(),
{
    let rs = read_side(ops);
    let ws = write_side(ops);
    let rcs = Seq::new(states.len(), |i: int| states[i].read_countdown());
    let wcs = Seq::new(states.len(), |i: int| states[i].write_countdown());
    assert forall|i: int| 0 <= i < rs.len() implies #[trigger] step_at(rcs, rs, i) by {
        assert(stream_step_at(states, ops, i));
    }
    assert forall|i: int| 0 <= i < ws.len() implies #[trigger] step_at(wcs, ws, i) by {
        assert(stream_step_at(states, ops, i));
    }
    assert(is_op_run(rcs, rs));
    assert(is_op_run(wcs, ws));
    law_op_run_timeout(rcs, rs);
    law_op_run_timeout(wcs, ws);
    assert(rcs.last() == states.last().read_countdown());
    assert(wcs.last() == states.last().write_countdown());
    if states[0].read_countdown().wf() {
        assert forall|i: int| 0 <= i < states.len() implies #[trigger] states[i].read_countdown().wf() by {
            assert(rcs[i] == states[i].read_countdown());
        }
    }
    if states[0].write_countdown().wf() {
        assert forall|i: int| 0 <= i < states.len() implies #[trigger] states[i].write_countdown().wf() by {
            assert(wcs[i] == states[i].write_countdown());
        }
    }
    assert forall|i: int|
        0 <= i < ops.len() && states[i + 1].inner() != states[i].inner() implies on_inner(
        #[trigger] ops[i],
    ) by {
        assert(stream_step_at(states, ops, i));
    }
    if forall|i: int| 0 <= i < ops.len() ==> !on_inner(#[trigger] ops[i]) {
        lemma_stream_inner_kept(states, ops, ops.len() as int);
    }
}

} // verus!
