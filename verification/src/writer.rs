//! A writer that applies a timeout to write operations.

use crate::clock::delay_deadline;
use crate::state::{
    is_op_run, law_blocked_ops_keep_countdown, law_op_run_timeout, step_at, timeout_after,
    Countdown, Op, TimeoutState, TimerCheck,
};
use std::time::Duration;
use tokio_timer::Delay;
use vstd::prelude::*;

verus! {

/// Wraps a writer and applies a timeout to its write operations.
#[derive(Debug)]
pub struct TimeoutWriter<W> {
    writer: W,
    state: TimeoutState,
}

impl<W> TimeoutWriter<W> {
    /// The wrapped writer.
    pub closed spec fn inner(&self) -> W {
        self.writer
    }

    /// The write countdown.
    pub closed spec fn countdown(&self) -> Countdown {
        self.state@
    }

    /// `next` is `self` after the operation `op`: the write countdown goes as
    /// `Countdown::step` says, and the inner writer stays unless `op` is an
    /// operation on it through `get_mut`.
    pub open spec fn op_step(self, op: Op, next: Self) -> bool {
        &&& self.countdown().step(op, next.countdown())
        &&& !(op is Inner) ==> next.inner() == self.inner()
    }

    /// Returns a new `TimeoutWriter` wrapping the specified writer.
    ///
    /// There is initially no timeout.
    pub fn new(writer: W) -> (s: TimeoutWriter<W>)
        ensures
            s.inner() == writer,
            s.countdown().timeout is None,
            !s.countdown().active,
    {
        TimeoutWriter { writer, state: TimeoutState::new() }
    }

    /// Returns the current write timeout.
    pub fn timeout(&self) -> (t: Option<Duration>)
        ensures
            t == self.countdown().timeout,
    {
        self.state.timeout()
    }

    /// Sets the write timeout.
    ///
    /// This will reset any pending timeout.
    pub fn set_timeout(&mut self, timeout: Option<Duration>)
        ensures
            old(self).op_step(Op::SetTimeout(timeout), *final(self)),
            final(self).countdown().wf(),
    {
        self.state.set_timeout(timeout);
    }

    /// Returns a shared reference to the inner writer.
    pub fn get_ref(&self) -> (r: &W)
        ensures
            *r == self.inner(),
    {
        &self.writer
    }

    /// Returns a mutable reference to the inner writer.
    pub fn get_mut(&mut self) -> (r: &mut W)
        ensures
            *r == old(self).inner(),
            final(self).inner() == *final(r),
            final(self).countdown() == old(self).countdown(),
            old(self).op_step(Op::Inner, *final(self)),
    {
        &mut self.writer
    }

    /// Consumes the `TimeoutWriter`, returning the inner writer.
    pub fn into_inner(self) -> (r: W)
        ensures
            r == self.inner(),
    {
        self.writer
    }

    /// The timeout decision that follows each poll of a write, flush or
    /// shutdown on the inner writer, given whether that poll reported that
    /// the operation would block
    /// (see `TimeoutState::after_inner_poll`).
    pub fn after_write_poll(&mut self, pending: bool) -> (check: TimerCheck)
        ensures
            old(self).op_step(Op::Decide(pending, check), *final(self)),
            final(self).countdown().wf(),
    {
        self.state.after_inner_poll(pending)
    }

    /// The write countdown's timer, for the caller to poll when a decision
    /// asks it to. Through the reference only the timer may change; a poll
    /// of a `tokio_timer::Delay` leaves its deadline as it is, and then the
    /// writer is as it was (`Op::PollTimer`).
    pub fn timer_mut(&mut self) -> (d: &mut Delay)
        ensures
            delay_deadline(*d) == old(self).countdown().deadline,
            final(self).inner() == old(self).inner(),
            final(self).countdown() == (Countdown {
                deadline: delay_deadline(*final(d)),
                ..old(self).countdown()
            }),
            final(self).countdown().wf(),
    {
        self.state.timer_mut()
    }
}

/// Operation `i` of `ops` goes from `states[i]` to `states[i + 1]`.
pub open spec fn writer_step_at<W>(states: Seq<TimeoutWriter<W>>, ops: Seq<Op>, i: int) -> bool {
    states[i].op_step(ops[i], states[i + 1])
}

/// A run of operations on a writer: `states[0]` is where it starts, and
/// operation `i` goes from `states[i]` to `states[i + 1]`.
pub open spec fn is_writer_run<W>(states: Seq<TimeoutWriter<W>>, ops: Seq<Op>) -> bool {
    &&& states.len() == ops.len() + 1
    &&& forall|i: int| 0 <= i < ops.len() ==> #[trigger] writer_step_at(states, ops, i)
}

/// The write countdowns along a run of a writer form a run of the countdown.
proof fn lemma_writer_countdowns<W>(states: Seq<TimeoutWriter<W>>, ops: Seq<Op>) -> (cs: Seq<Countdown>)
    requires
        is_writer_run(states, ops),
    ensures
        is_op_run(cs, ops),
        cs.len() == states.len(),
        forall|i: int| 0 <= i < states.len() ==> #[trigger] cs[i] == states[i].countdown(),
{
    let cs = Seq::new(states.len(), |i: int| states[i].countdown());
    assert forall|i: int| 0 <= i < ops.len() implies #[trigger] step_at(cs, ops, i) by {
        assert(writer_step_at(states, ops, i));
    }
    cs
}

/// The inner writer changes only through `get_mut`: along any run, where
/// none of the first `n` operations is on the inner writer, it is the one
/// the run started with.
proof fn lemma_writer_inner_kept<W>(states: Seq<TimeoutWriter<W>>, ops: Seq<Op>, n: int)
    requires
        is_writer_run(states, ops),
        0 <= n <= ops.len(),
        forall|i: int| 0 <= i < n ==> !(#[trigger] ops[i] is Inner),
    ensures
        states[n].inner() == states[0].inner(),
    decreases n,
{
    if n > 0 {
        lemma_writer_inner_kept(states, ops, n - 1);
        assert(writer_step_at(states, ops, n - 1));
        assert(!(ops[n - 1] is Inner));
    }
}

/// What any sequence of operations on a writer does to its timeout and its
/// inner writer: the timeout reads back as the last value set (the starting
/// one, `None` after `new`, where none was set), whatever polls, timer polls
/// and operations through `get_mut` came between; the inner writer changes
/// only through `get_mut`, so without such an operation `into_inner` gives
/// back what the run started with; and no countdown runs without a timeout.
pub proof fn law_writer_run<W>(states: Seq<TimeoutWriter<W>>, ops: Seq<Op>)
    requires
        is_writer_run(states, ops),
    ensures
        states.last().countdown().timeout == timeout_after(states[0].countdown().timeout, ops),
        states[0].countdown().wf() ==> forall|i: int|
            0 <= i < states.len() ==> #[trigger] states[i].countdown().wf(),
        forall|i: int|
            0 <= i < ops.len() && states[i + 1].inner() != states[i].inner() ==> #[trigger] ops[i] is Inner,
        (forall|i: int| 0 <= i < ops.len() ==> !(#[trigger] ops[i] is Inner)) ==> states.last().inner()
            == states[0].inner(),
{
    let cs = lemma_writer_countdowns(states, ops);
    law_op_run_timeout(cs, ops);
    assert(cs.last() == states.last().countdown());
    if states[0].countdown().wf() {
        assert forall|i: int| 0 <= i < states.len() implies #[trigger] states[i].countdown().wf() by {
            assert(cs[i] == states[i].countdown());
        }
    }
    assert forall|i: int|
        0 <= i < ops.len() && states[i + 1].inner() != states[i].inner() implies #[trigger] ops[i] is Inner by {
        assert(writer_step_at(states, ops, i));
    }
    if forall|i: int| 0 <= i < ops.len() ==> !(#[trigger] ops[i] is Inner) {
        lemma_writer_inner_kept(states, ops, ops.len() as int);
    }
}

/// A write countdown, once running, is not restarted, and is shared by all
/// write operations: along any run of a writer, a countdown running at a
/// well-formed `states[i]` stays as it is, deadline included, through every
/// later decision after a blocked write, flush or shutdown (they all go
/// through `after_write_poll`), poll of the timer (which keeps its deadline)
/// and operation through `get_mut`.
pub proof fn law_writer_blocked_writes_keep_countdown<W>(states: Seq<TimeoutWriter<W>>, ops: Seq<Op>, i: int)
    requires
        is_writer_run(states, ops),
        0 <= i < states.len(),
        states[i].countdown().wf(),
        states[i].countdown().active,
        forall|j: int|
            i <= j < ops.len() ==> !(#[trigger] ops[j] is SetTimeout) && !(ops[j] matches Op::Decide(
                pending,
                _,
            ) && !pending),
    ensures
        forall|k: int| i <= k < states.len() ==> #[trigger] states[k].countdown() == states[i].countdown(),
{
    let cs = lemma_writer_countdowns(states, ops);
    law_blocked_ops_keep_countdown(cs, ops, i);
    assert forall|k: int| i <= k < states.len() implies #[trigger] states[k].countdown()
        == states[i].countdown() by {
        assert(cs[k] == states[k].countdown());
    }
}

} // verus!
