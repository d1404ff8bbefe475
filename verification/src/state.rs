//! The countdown that a timeout wrapper keeps for one direction of a stream.

use crate::clock::{
    delay_deadline, delay_until, instant_after, instant_checked_add, now, reset_delay,
    TimeoutError,
};
use std::time::{Duration, Instant};
use tokio_timer::Delay;
use vstd::prelude::*;

verus! {

/// What a countdown is, seen from outside: the timeout it is configured with
/// (`None` for no timeout), whether a countdown is running, and the deadline
/// its timer is set to.
pub struct Countdown {
    pub timeout: Option<Duration>,
    pub active: bool,
    pub deadline: Instant,
}

/// What the timeout decision for a blocked operation asks of the caller.
#[derive(Debug, Clone, Copy, PartialEq, Eq, Structural)]
pub enum TimerCheck {
    /// No countdown runs: the timer is left alone, and the answer is what
    /// the inner poll gave.
    Skip,
    /// A countdown runs: poll its timer with the task's context, and answer
    /// with `answer`, given whether the timer has expired. Polling the
    /// timer also arranges for the task to be woken at the deadline.
    PollTimer,
}

impl Countdown {
    /// A countdown runs only where a timeout is set.
    pub open spec fn wf(self) -> bool {
        self.timeout is None ==> !self.active
    }

    /// `next` is `self` after the countdown stopped: the same timeout, no
    /// countdown running, and, where none ran, nothing changed. (A running
    /// countdown's timer is moved to a clock reading, which no clause
    /// names.)
    pub open spec fn stopped(self, next: Countdown) -> bool {
        &&& next.timeout == self.timeout
        &&& !next.active
        &&& !self.active ==> next == self
    }

    /// `next` is `self` after its timeout was set to `timeout`: the new
    /// timeout, and the countdown stopped.
    pub open spec fn timeout_set(self, next: Countdown, timeout: Option<Duration>) -> bool {
        &&& next.timeout == timeout
        &&& !next.active
        &&& !self.active ==> next.deadline == self.deadline
    }

    /// The timeout decision for a blocked operation, taken with the clock
    /// reading `now`: without a timeout, nothing changes and the caller
    /// skips the timer; with a running countdown, nothing changes (its
    /// deadline stays) and the caller polls the timer; otherwise a countdown
    /// starts with its deadline the timeout after `now`, and the caller
    /// polls the timer, or, where that instant cannot be represented, nothing
    /// changes and the caller skips the timer.
    pub open spec fn checked_at(self, now: Instant, next: Countdown, check: TimerCheck) -> bool {
        match self.timeout {
            None => check == TimerCheck::Skip && next == self,
            Some(t) => if self.active {
                check == TimerCheck::PollTimer && next == self
            } else {
                match instant_checked_add(now, t) {
                    Some(deadline) => check == TimerCheck::PollTimer && next == Countdown {
                        timeout: self.timeout,
                        active: true,
                        deadline,
                    },
                    None => check == TimerCheck::Skip && next == self,
                }
            },
        }
    }

    /// The timeout decision for a blocked operation, taken with some clock
    /// reading.
    pub open spec fn checked(self, next: Countdown, check: TimerCheck) -> bool {
        exists|now: Instant| #[trigger] self.checked_at(now, next, check)
    }

    /// The timeout decision after a poll of the inner stream that reported
    /// a blocked operation (`pending`) or any other outcome. A blocked
    /// operation is checked; any other outcome stops the countdown, and the
    /// caller skips the timer.
    pub open spec fn after_poll(self, pending: bool, next: Countdown, check: TimerCheck) -> bool {
        if pending {
            self.checked(next, check)
        } else {
            check == TimerCheck::Skip && self.stopped(next)
        }
    }
}

/// One operation on a wrapper, as it bears on one countdown: setting the
/// timeout; the timeout decision after a poll of the inner stream (whether
/// the poll blocked, and what the decision asked of the caller); a poll of
/// the countdown's timer; or an operation on the inner value through
/// `get_mut` (or, on a stream, an operation on the other side).
#[derive(Debug, Clone, Copy)]
pub enum Op {
    SetTimeout(Option<Duration>),
    Decide(bool, TimerCheck),
    PollTimer,
    Inner,
}

impl Countdown {
    /// `next` is `self` after the operation `op`. Polling a
    /// `tokio_timer::Delay` leaves its deadline as it is, so a poll of the
    /// timer changes nothing here; neither does an operation on the inner
    /// value.
    pub open spec fn step(self, op: Op, next: Countdown) -> bool {
        match op {
            Op::SetTimeout(t) => self.timeout_set(next, t),
            Op::Decide(pending, check) => self.after_poll(pending, next, check),
            Op::PollTimer => next == self,
            Op::Inner => next == self,
        }
    }
}

/// Operation `i` of `ops` goes from `states[i]` to `states[i + 1]`.
pub open spec fn step_at(states: Seq<Countdown>, ops: Seq<Op>, i: int) -> bool {
    states[i].step(ops[i], states[i + 1])
}

/// A run of operations: `states[0]` is where it starts, and operation `i`
/// goes from `states[i]` to `states[i + 1]`.
pub open spec fn is_op_run(states: Seq<Countdown>, ops: Seq<Op>) -> bool {
    &&& states.len() == ops.len() + 1
    &&& forall|i: int| 0 <= i < ops.len() ==> #[trigger] step_at(states, ops, i)
}

/// The timeout after the operations `ops`, starting from `t0`: the one the
/// last `SetTimeout` among them set, or `t0` where none did.
pub open spec fn timeout_after(t0: Option<Duration>, ops: Seq<Op>) -> Option<Duration>
    decreases ops.len(),
{
    if ops.len() == 0 {
        t0
    } else {
        match ops.last() {
            Op::SetTimeout(t) => t,
            _ => timeout_after(t0, ops.drop_last()),
        }
    }
}

/// The prefix of a run up to operation `n` is a run.
proof fn lemma_op_run_prefix(states: Seq<Countdown>, ops: Seq<Op>, n: int)
    requires
        is_op_run(states, ops),
        0 <= n <= ops.len(),
    ensures
        is_op_run(states.take(n + 1), ops.take(n)),
{
    let s = states.take(n + 1);
    let o = ops.take(n);
    assert forall|i: int| 0 <= i < o.len() implies #[trigger] step_at(s, o, i) by {
        assert(step_at(states, ops, i));
    }
}

/// What one operation does to the timeout and to well-formedness: setting
/// the timeout sets it, any other operation keeps it, and every operation
/// keeps a well-formed countdown well-formed.
pub proof fn law_step_timeout(c: Countdown, op: Op, next: Countdown)
    requires
        c.step(op, next),
    ensures
        next.timeout == (match op {
            Op::SetTimeout(t) => t,
            _ => c.timeout,
        }),
        c.wf() ==> next.wf(),
{
    if let Op::Decide(pending, check) = op {
        if pending {
            let now = choose|now: Instant| #[trigger] c.checked_at(now, next, check);
            assert(c.checked_at(now, next, check));
        }
    }
}

/// A timeout reads back as the last value set: along any run, the timeout
/// after the first `i` operations is the one the last `SetTimeout` among
/// them set (the starting one where none did); polls, timer polls and
/// operations on the inner value never change it. And no countdown runs
/// without a timeout: where the run starts well-formed, every countdown is.
pub proof fn law_op_run_timeout(states: Seq<Countdown>, ops: Seq<Op>)
    requires
        is_op_run(states, ops),
    ensures
        forall|i: int|
            0 <= i < states.len() ==> #[trigger] states[i].timeout == timeout_after(
                states[0].timeout,
                ops.take(i),
            ),
        states.last().timeout == timeout_after(states[0].timeout, ops),
        states[0].wf() ==> forall|i: int| 0 <= i < states.len() ==> #[trigger] states[i].wf(),
    decreases ops.len(),
{
    if ops.len() == 0 {
        assert(ops.take(0) =~= ops);
    } else {
        let n = ops.len() - 1;
        lemma_op_run_prefix(states, ops, n);
        let s = states.take(n + 1);
        let o = ops.take(n);
        law_op_run_timeout(s, o);
        assert(step_at(states, ops, n));
        law_step_timeout(states[n], ops[n], states[n + 1]);
        assert(s[n] == states[n]);
        assert(s[0] == states[0]);
        assert(ops.take(n + 1) =~= ops);
        assert(ops.drop_last() =~= o);
        assert forall|i: int| 0 <= i < states.len() implies #[trigger] states[i].timeout
            == timeout_after(states[0].timeout, ops.take(i)) by {
            if i <= n {
                assert(s[i] == states[i]);
                assert(o.take(i) =~= ops.take(i));
            }
        }
        if states[0].wf() {
            assert forall|i: int| 0 <= i < states.len() implies #[trigger] states[i].wf() by {
                if i <= n {
                    assert(s[i] == states[i]);
                }
            }
        }
    }
}

/// Without a timeout the timer is never consulted: along any run that
/// starts well-formed with no timeout and sets none, no countdown ever runs
/// and every timeout decision skips the timer, so nothing ever times out.
pub proof fn law_no_timeout_never_times_out(states: Seq<Countdown>, ops: Seq<Op>)
    requires
        is_op_run(states, ops),
        states[0].wf(),
        states[0].timeout is None,
        forall|i: int| 0 <= i < ops.len() ==> !(#[trigger] ops[i] is SetTimeout),
    ensures
        forall|i: int|
            0 <= i < ops.len() ==> (#[trigger] ops[i] matches Op::Decide(_, check) ==> check
                == TimerCheck::Skip),
        forall|i: int| 0 <= i < states.len() ==> !(#[trigger] states[i].active),
{
    law_op_run_timeout(states, ops);
    assert forall|i: int| 0 <= i < states.len() implies #[trigger] states[i].timeout is None by {
        if i > 0 {
            lemma_no_set_timeout_after(states[0].timeout, ops, i);
        } else {
            assert(ops.take(0).len() == 0);
        }
    }
    assert forall|i: int| 0 <= i < ops.len() implies (#[trigger] ops[i] matches Op::Decide(
        _,
        check,
    ) ==> check == TimerCheck::Skip) by {
        assert(step_at(states, ops, i));
        assert(states[i].timeout is None);
        if let Op::Decide(pending, check) = ops[i] {
            if pending {
                let now = choose|now: Instant|
                    #[trigger] states[i].checked_at(now, states[i + 1], check);
                assert(states[i].checked_at(now, states[i + 1], check));
            }
        }
    }
    assert forall|i: int| 0 <= i < states.len() implies !(#[trigger] states[i].active) by {
        assert(states[i].wf());
        assert(states[i].timeout is None);
    }
}

/// Where no operation among the first `i` sets the timeout, the timeout
/// after them is the starting one.
proof fn lemma_no_set_timeout_after(t0: Option<Duration>, ops: Seq<Op>, i: int)
    requires
        0 <= i <= ops.len(),
        forall|j: int| 0 <= j < ops.len() ==> !(#[trigger] ops[j] is SetTimeout),
    ensures
        timeout_after(t0, ops.take(i)) == t0,
    decreases i,
{
    if i > 0 {
        assert(ops.take(i).last() == ops[i - 1]);
        assert(!(ops[i - 1] is SetTimeout));
        assert(ops.take(i).drop_last() =~= ops.take(i - 1));
        lemma_no_set_timeout_after(t0, ops, i - 1);
    }
}

/// A countdown, once running, is not restarted: along any run, a countdown
/// running at a well-formed `states[i]` stays as it is, deadline included,
/// through every later operation that is a blocked poll's decision, a poll
/// of the timer, or an operation on the inner value; and every such decision
/// asks the caller to poll the timer. So all operations that share the
/// countdown (a writer's writes, flushes and shutdowns alike) run towards
/// the deadline the first blocked one set, until an operation completes or
/// the timeout is set.
pub proof fn law_blocked_ops_keep_countdown(states: Seq<Countdown>, ops: Seq<Op>, i: int)
    requires
        is_op_run(states, ops),
        0 <= i < states.len(),
        states[i].wf(),
        states[i].active,
        forall|j: int|
            i <= j < ops.len() ==> !(#[trigger] ops[j] is SetTimeout) && !(ops[j] matches Op::Decide(
                pending,
                _,
            ) && !pending),
    ensures
        forall|k: int| i <= k < states.len() ==> #[trigger] states[k] == states[i],
        forall|k: int|
            i <= k < ops.len() ==> (#[trigger] ops[k] matches Op::Decide(_, check) ==> check
                == TimerCheck::PollTimer),
    decreases ops.len(),
{
    if i < ops.len() {
        let n = ops.len() - 1;
        lemma_op_run_prefix(states, ops, n);
        let s = states.take(n + 1);
        let o = ops.take(n);
        assert(s[i] == states[i]);
        assert forall|j: int| i <= j < o.len() implies !(#[trigger] o[j] is SetTimeout) && !(
        o[j] matches Op::Decide(pending, _) && !pending) by {
            assert(o[j] == ops[j]);
        }
        law_blocked_ops_keep_countdown(s, o, i);
        assert(s[n] == states[n]);
        assert(states[n] == states[i]);
        assert(step_at(states, ops, n));
        assert(!(ops[n] is SetTimeout));
        if let Op::Decide(pending, check) = ops[n] {
            assert(pending);
            let now = choose|now: Instant| #[trigger] states[n].checked_at(now, states[n + 1], check);
            assert(states[n].checked_at(now, states[n + 1], check));
        }
        assert forall|k: int| i <= k < states.len() implies #[trigger] states[k] == states[i] by {
            if k <= n {
                assert(s[k] == states[k]);
            }
        }
        assert forall|k: int|
            i <= k < ops.len() implies (#[trigger] ops[k] matches Op::Decide(_, check) ==> check
            == TimerCheck::PollTimer) by {
            if k < n {
                assert(o[k] == ops[k]);
            }
        }
    }
}

/// A countdown starts at a blocked operation with its deadline the timeout
/// after the clock reading taken then: where no countdown ran and one runs
/// after the decision, the deadline is `instant_checked_add(now, t)` for the
/// timeout `t` and some clock reading `now`, and the caller polls the timer.
pub proof fn law_countdown_starts_at_timeout(c: Countdown, next: Countdown, check: TimerCheck)
    requires
        !c.active,
        next.active,
        c.after_poll(true, next, check),
    ensures
        c.timeout is Some,
        next.timeout == c.timeout,
        check == TimerCheck::PollTimer,
        exists|now: Instant| #[trigger] instant_checked_add(now, c.timeout->0) == Some(next.deadline),
{
    let now = choose|now: Instant| #[trigger] c.checked_at(now, next, check);
    assert(c.checked_at(now, next, check));
    assert(instant_checked_add(now, c.timeout->0) == Some(next.deadline));
}

/// An operation that completes (successfully or with its own error) stops
/// the countdown: after a poll that did not block, no countdown runs, the
/// timeout stays, and the caller skips the timer.
pub proof fn law_completion_resets(c: Countdown, next: Countdown, check: TimerCheck)
    requires
        c.after_poll(false, next, check),
    ensures
        check == TimerCheck::Skip,
        !next.active,
        next.timeout == c.timeout,
{
}

/// The timer is consulted only while a countdown runs, and only after a
/// blocked poll: a decision that asks to poll the timer leaves a countdown
/// running, with a timeout set.
pub proof fn law_timer_polled_only_when_running(
    c: Countdown,
    pending: bool,
    next: Countdown,
    check: TimerCheck,
)
    requires
        c.after_poll(pending, next, check),
        check == TimerCheck::PollTimer,
    ensures
        pending,
        c.timeout is Some,
        next.active,
        next.timeout == c.timeout,
{
    let now = choose|now: Instant| #[trigger] c.checked_at(now, next, check);
    assert(c.checked_at(now, next, check));
}

/// The timeout of one direction and whether a countdown runs; a countdown
/// runs only where a timeout is set.
#[derive(Debug)]
struct Phase {
    timeout: Option<Duration>,
    active: bool,
}

impl Phase {
    #[verifier::type_invariant]
    spec fn inv(self) -> bool {
        self.timeout is None ==> !self.active
    }
}

/// The timeout of one direction of a stream and the timer that counts it down.
#[derive(Debug)]
pub struct TimeoutState {
    phase: Phase,
    cur: Delay,
}

impl View for TimeoutState {
    type V = Countdown;

    closed spec fn view(&self) -> Countdown {
        Countdown {
            timeout: self.phase.timeout,
            active: self.phase.active,
            deadline: delay_deadline(self.cur),
        }
    }
}

/// What a poll of the inner stream gave: not ready yet, or ready with a
/// value (the inner operation's own result, success or error).
#[derive(Debug, PartialEq, Eq)]
pub enum Polled<T> {
    Pending,
    Ready(T),
}

/// The answer to a poll of a wrapper: `TimedOut` where the timeout decision
/// asked for the timer and the timer reported its deadline passed
/// (`expired`), and otherwise what the inner poll gave, unchanged.
pub open spec fn answer_spec<T>(inner: Polled<T>, check: TimerCheck, expired: bool) -> Result<Polled<T>, TimeoutError> {
    if check == TimerCheck::PollTimer && expired {
        Err(TimeoutError::TimedOut)
    } else {
        Ok(inner)
    }
}

/// Composes the answer to a poll of a wrapper from what the inner poll gave,
/// the timeout decision that followed it, and, where that decision asked for
/// the timer, whether the timer reported its deadline passed.
pub fn answer<T>(inner: Polled<T>, check: TimerCheck, expired: bool) -> (r: Result<Polled<T>, TimeoutError>)
    ensures
        r == answer_spec(inner, check, expired),
{
    match check {
        TimerCheck::PollTimer => if expired {
            Err(TimeoutError::TimedOut)
        } else {
            Ok(inner)
        },
        TimerCheck::Skip => Ok(inner),
    }
}

/// An operation that completes is answered with its own result, success or
/// error, never with `TimedOut`: after a poll that did not block, the
/// decision skips the timer and the answer is what the inner poll gave.
pub proof fn law_completed_poll_answered_as_is<T>(
    c: Countdown,
    next: Countdown,
    check: TimerCheck,
    value: T,
    expired: bool,
)
    requires
        c.after_poll(false, next, check),
    ensures
        answer_spec(Polled::Ready(value), check, expired) == Ok::<Polled<T>, TimeoutError>(
            Polled::Ready(value),
        ),
{
}

/// `TimedOut` is answered only after a blocked poll, with a timeout set and
/// a countdown running, and only where the timer reported its deadline
/// passed; otherwise the inner poll's answer is handed through.
pub proof fn law_timed_out_only_when_expired<T>(
    c: Countdown,
    pending: bool,
    next: Countdown,
    check: TimerCheck,
    inner: Polled<T>,
    expired: bool,
)
    requires
        c.after_poll(pending, next, check),
    ensures
        answer_spec(inner, check, expired) is Err ==> pending && c.timeout is Some && next.active
            && expired,
        answer_spec(inner, check, expired) is Ok ==> answer_spec(inner, check, expired)
            == Ok::<Polled<T>, TimeoutError>(inner),
{
    if check == TimerCheck::PollTimer {
        law_timer_polled_only_when_running(c, pending, next, check);
    }
}

impl TimeoutState {
    /// A state with no timeout and no countdown running; its timer is set
    /// to the clock reading taken now.
    pub fn new() -> (s: TimeoutState)
        ensures
            s@.timeout is None,
            !s@.active,
    {
        TimeoutState { phase: Phase { timeout: None, active: false }, cur: delay_until(now()) }
    }

    /// The configured timeout.
    pub fn timeout(&self) -> (t: Option<Duration>)
        ensures
            t == self@.timeout,
    {
        self.phase.timeout
    }

    /// Sets the timeout, and stops any countdown that is running.
    pub fn set_timeout(&mut self, timeout: Option<Duration>)
        ensures
            old(self)@.timeout_set(final(self)@, timeout),
            final(self)@.wf(),
    {
        self.reset();
        self.phase = Phase { timeout, active: false };
    }

    /// Stops the countdown, if one is running, moving its timer to the clock
    /// reading taken now; the timeout stays.
    pub fn reset(&mut self)
        ensures
            old(self)@.stopped(final(self)@),
            final(self)@.wf(),
    {
        proof {
            use_type_invariant(&self.phase);
        }
        if self.phase.active {
            self.stop_countdown(now());
        }
    }

    /// Stops the running countdown, moving its timer to `at` (the clock
    /// reading that `reset` takes).
    pub fn stop_countdown(&mut self, at: Instant)
        ensures
            final(self)@ == (Countdown { timeout: old(self)@.timeout, active: false, deadline: at }),
            final(self)@.wf(),
    {
        self.phase = Phase { timeout: self.phase.timeout, active: false };
        reset_delay(&mut self.cur, at);
    }

    /// Starts a countdown towards `deadline`, the timeout after the clock
    /// reading as the clock computed it: `Some` moves the timer to that
    /// deadline and marks the countdown running; `None` (a deadline the clock
    /// cannot represent) leaves everything as it was. Tells whether a
    /// countdown was started.
    pub fn start_countdown(&mut self, deadline: Option<Instant>) -> (started: bool)
        requires
            old(self)@.timeout is Some,
        ensures
            started == deadline is Some,
            final(self)@ == (if started {
                Countdown { timeout: old(self)@.timeout, active: true, deadline: deadline->0 }
            } else {
                old(self)@
            }),
            final(self)@.wf(),
    {
        match deadline {
            Some(deadline) => {
                reset_delay(&mut self.cur, deadline);
                self.phase = Phase { timeout: self.phase.timeout, active: true };
                true
            },
            None => {
                proof {
                    use_type_invariant(&self.phase);
                }
                false
            },
        }
    }

    /// Called when an operation on the inner stream would block. Without a
    /// timeout, nothing changes and the caller skips the timer. With a
    /// running countdown, nothing changes and the caller polls its timer.
    /// Otherwise a countdown starts, its deadline the timeout after the
    /// clock reading taken now, and the caller polls its timer; where that
    /// deadline lies beyond what the clock can represent, the countdown can
    /// never run out: none is started, and the caller skips the timer.
    pub fn poll_check(&mut self) -> (check: TimerCheck)
        ensures
            old(self)@.checked(final(self)@, check),
            final(self)@.wf(),
    {
        proof {
            use_type_invariant(&self.phase);
        }
        let ghost before = self@;
        let timeout = match self.phase.timeout {
            Some(timeout) => timeout,
            None => {
                assert(before.checked_at(before.deadline, self@, TimerCheck::Skip));
                return TimerCheck::Skip;
            },
        };
        if self.phase.active {
            assert(before.checked_at(before.deadline, self@, TimerCheck::PollTimer));
            return TimerCheck::PollTimer;
        }
        let at = now();
        let started = self.start_countdown(instant_after(at, timeout));
        let check = if started {
            TimerCheck::PollTimer
        } else {
            TimerCheck::Skip
        };
        assert(before.checked_at(at, self@, check));
        check
    }

    /// Called after each poll of an operation on the inner stream, with
    /// whether that poll reported that the operation would block. A blocked
    /// operation goes to `poll_check`; any other outcome (success or error)
    /// stops the countdown, and the caller skips the timer.
    pub fn after_inner_poll(&mut self, pending: bool) -> (check: TimerCheck)
        ensures
            old(self)@.after_poll(pending, final(self)@, check),
            final(self)@.wf(),
    {
        if pending {
            self.poll_check()
        } else {
            self.reset();
            TimerCheck::Skip
        }
    }

    /// The countdown's timer, for the caller to poll when a decision asks it
    /// to. Through the reference the timer may change; the timeout and
    /// whether a countdown runs stay.
    pub fn timer_mut(&mut self) -> (d: &mut Delay)
        ensures
            delay_deadline(*d) == old(self)@.deadline,
            final(self)@ == (Countdown { deadline: delay_deadline(*final(d)), ..old(self)@ }),
            final(self)@.wf(),
    {
        proof {
            use_type_invariant(&self.phase);
        }
        &mut self.cur
    }
}

} // verus!
