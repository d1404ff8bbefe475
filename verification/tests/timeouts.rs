use std::future::Future;
use std::pin::Pin;
use std::task::{Context, Poll, Waker};
use std::time::{Duration, Instant};
use tokio_io_timeout::{
    answer, Polled, TimeoutError, TimeoutReader, TimeoutState, TimeoutStream, TimeoutWriter, TimerCheck,
};
use tokio_timer::{Delay, Timer};


fn is_ready(d: &mut Delay, cx: &mut Context<'_>) -> bool {
    match Pin::new(d).poll(cx) {
        Poll::Ready(()) => true,
        Poll::Pending => false,
    }
}

/// What the `AsyncRead`/`AsyncWrite` impls do with a timeout decision:
/// poll the countdown's timer where the decision asks for it, and answer.
fn timer_expired(check: TimerCheck, timer: &mut Delay, cx: &mut Context<'_>) -> bool {
    match check {
        TimerCheck::Skip => false,
        TimerCheck::PollTimer => is_ready(timer, cx),
    }
}

fn settle(check: TimerCheck, timer: &mut Delay, cx: &mut Context<'_>) -> Result<(), TimeoutError> {
    let expired = timer_expired(check, timer, cx);
    answer(Polled::<()>::Pending, check, expired).map(|_| ())
}

fn read_decide(reader: &mut TimeoutReader<()>, pending: bool, cx: &mut Context<'_>) -> Result<(), TimeoutError> {
    let check = reader.after_read_poll(pending);
    settle(check, reader.timer_mut(), cx)
}

fn write_decide(writer: &mut TimeoutWriter<()>, pending: bool, cx: &mut Context<'_>) -> Result<(), TimeoutError> {
    let check = writer.after_write_poll(pending);
    settle(check, writer.timer_mut(), cx)
}

fn stream_read_decide(stream: &mut TimeoutStream<()>, pending: bool, cx: &mut Context<'_>) -> Result<(), TimeoutError> {
    let check = stream.after_read_poll(pending);
    settle(check, stream.read_timer_mut(), cx)
}

fn stream_write_decide(stream: &mut TimeoutStream<()>, pending: bool, cx: &mut Context<'_>) -> Result<(), TimeoutError> {
    let check = stream.after_write_poll(pending);
    settle(check, stream.write_timer_mut(), cx)
}

/// Drives a reader whose inner "read" completes when its delay elapses, the
/// way an executor would: poll the inner read, hand its outcome to the
/// timeout decision, and park on the timer while nothing is ready.
fn read_one(reader: &mut TimeoutReader<Delay>, turn: &mut dyn FnMut()) -> Result<usize, TimeoutError> {
    let mut cx = Context::from_waker(Waker::noop());
    loop {
        let ready = is_ready(reader.get_mut(), &mut cx);
        let check = reader.after_read_poll(!ready);
        let expired = timer_expired(check, reader.timer_mut(), &mut cx);
        let inner = if ready { Polled::Ready(1usize) } else { Polled::Pending };
        match answer(inner, check, expired)? {
            Polled::Ready(n) => return Ok(n),
            Polled::Pending => turn(),
        }
    }
}

fn write_one(writer: &mut TimeoutWriter<Delay>, turn: &mut dyn FnMut()) -> Result<(), TimeoutError> {
    let mut cx = Context::from_waker(Waker::noop());
    loop {
        let ready = is_ready(writer.get_mut(), &mut cx);
        let check = writer.after_write_poll(!ready);
        let expired = timer_expired(check, writer.timer_mut(), &mut cx);
        let inner = if ready { Polled::Ready(()) } else { Polled::Pending };
        match answer(inner, check, expired)? {
            Polled::Ready(()) => return Ok(()),
            Polled::Pending => turn(),
        }
    }
}

/// Lets the timer run until `d` has passed.
fn wait(turn: &mut dyn FnMut(Duration), d: Duration) {
    let end = Instant::now() + d;
    loop {
        let now = Instant::now();
        if now >= end {
            break;
        }
        turn(end - now);
    }
    turn(Duration::from_millis(0));
}

#[test]
fn read_timeout() {
    let mut timer = Timer::default();
    let handle = timer.handle();
    let _guard = tokio_timer::set_default(&handle);
    let inner = tokio_timer::delay(Instant::now() + Duration::from_millis(500));
    let mut reader = TimeoutReader::new(inner);
    reader.set_timeout(Some(Duration::from_millis(100)));

    let r = read_one(&mut reader, &mut || {
        timer.turn(None).unwrap();
    });
    assert_eq!(r.err().unwrap(), TimeoutError::TimedOut);
}

#[test]
fn read_ok() {
    let mut timer = Timer::default();
    let handle = timer.handle();
    let _guard = tokio_timer::set_default(&handle);
    let inner = tokio_timer::delay(Instant::now() + Duration::from_millis(100));
    let mut reader = TimeoutReader::new(inner);
    reader.set_timeout(Some(Duration::from_millis(500)));

    read_one(&mut reader, &mut || {
        timer.turn(None).unwrap();
    }).unwrap();
}

#[test]
fn write_timeout() {
    let mut timer = Timer::default();
    let handle = timer.handle();
    let _guard = tokio_timer::set_default(&handle);
    let inner = tokio_timer::delay(Instant::now() + Duration::from_millis(500));
    let mut writer = TimeoutWriter::new(inner);
    writer.set_timeout(Some(Duration::from_millis(100)));

    let r = write_one(&mut writer, &mut || {
        timer.turn(None).unwrap();
    });
    assert_eq!(r.err().unwrap(), TimeoutError::TimedOut);
}

#[test]
fn write_ok() {
    let mut timer = Timer::default();
    let handle = timer.handle();
    let _guard = tokio_timer::set_default(&handle);
    let inner = tokio_timer::delay(Instant::now() + Duration::from_millis(100));
    let mut writer = TimeoutWriter::new(inner);
    writer.set_timeout(Some(Duration::from_millis(500)));

    write_one(&mut writer, &mut || {
        timer.turn(None).unwrap();
    }).unwrap();
}

#[test]
fn reader_starts_without_timeout() {
    let reader = TimeoutReader::new(7u32);
    assert_eq!(reader.timeout(), None);
    assert_eq!(*reader.get_ref(), 7);
    assert_eq!(reader.into_inner(), 7);
}

#[test]
fn writer_starts_without_timeout() {
    let writer = TimeoutWriter::new(String::from("sink"));
    assert_eq!(writer.timeout(), None);
    assert_eq!(writer.get_ref().as_str(), "sink");
    assert_eq!(writer.into_inner(), "sink");
}

#[test]
fn reader_timeout_reads_back_last_set() {
    let mut reader = TimeoutReader::new(0u8);
    reader.set_timeout(Some(Duration::from_millis(250)));
    assert_eq!(reader.timeout(), Some(Duration::from_millis(250)));
    reader.set_timeout(Some(Duration::from_secs(3)));
    assert_eq!(reader.timeout(), Some(Duration::from_secs(3)));
    reader.set_timeout(None);
    assert_eq!(reader.timeout(), None);
    assert_eq!(reader.into_inner(), 0);
}

#[test]
fn writer_timeout_reads_back_last_set() {
    let mut writer = TimeoutWriter::new(vec![1u8, 2]);
    writer.set_timeout(Some(Duration::from_millis(40)));
    assert_eq!(writer.timeout(), Some(Duration::from_millis(40)));
    writer.set_timeout(None);
    assert_eq!(writer.timeout(), None);
    assert_eq!(writer.into_inner(), vec![1u8, 2]);
}

#[test]
fn get_mut_writes_through() {
    let mut reader = TimeoutReader::new(vec![1u8]);
    reader.set_timeout(Some(Duration::from_millis(10)));
    reader.get_mut().push(2);
    assert_eq!(reader.timeout(), Some(Duration::from_millis(10)));
    assert_eq!(reader.into_inner(), vec![1u8, 2]);

    let mut writer = TimeoutWriter::new(5i64);
    *writer.get_mut() = -5;
    assert_eq!(*writer.get_ref(), -5);
}

#[test]
fn stream_timeouts_are_independent() {
    let mut stream = TimeoutStream::new(vec![9u8]);
    assert_eq!(stream.read_timeout(), None);
    assert_eq!(stream.write_timeout(), None);
    stream.set_read_timeout(Some(Duration::from_millis(100)));
    assert_eq!(stream.read_timeout(), Some(Duration::from_millis(100)));
    assert_eq!(stream.write_timeout(), None);
    stream.set_write_timeout(Some(Duration::from_millis(500)));
    assert_eq!(stream.read_timeout(), Some(Duration::from_millis(100)));
    assert_eq!(stream.write_timeout(), Some(Duration::from_millis(500)));
    stream.set_read_timeout(None);
    assert_eq!(stream.read_timeout(), None);
    assert_eq!(stream.write_timeout(), Some(Duration::from_millis(500)));
    stream.get_mut().push(10);
    assert_eq!(stream.get_ref(), &vec![9u8, 10]);
    assert_eq!(stream.into_inner(), vec![9u8, 10]);
}

#[test]
fn no_timeout_never_times_out() {
    // Without a timeout no timer is consulted at all.
    let mut plain = TimeoutReader::new(1u8);
    assert_eq!(plain.after_read_poll(true), TimerCheck::Skip);
    assert_eq!(plain.after_read_poll(false), TimerCheck::Skip);
    let mut cx = Context::from_waker(Waker::noop());
    let mut reader = TimeoutReader::new(());
    for _ in 0..5 {
        assert_eq!(read_decide(&mut reader, true, &mut cx), Ok(()));
    }
    assert_eq!(read_decide(&mut reader, false, &mut cx), Ok(()));
    let mut stream = TimeoutStream::new(());
    assert_eq!(stream_read_decide(&mut stream, true, &mut cx), Ok(()));
    assert_eq!(stream_write_decide(&mut stream, true, &mut cx), Ok(()));
}

#[test]
fn unrepresentable_deadline_never_times_out() {
    let mut cx = Context::from_waker(Waker::noop());
    let mut writer = TimeoutWriter::new(());
    writer.set_timeout(Some(Duration::MAX));
    assert_eq!(write_decide(&mut writer, true, &mut cx), Ok(()));
    assert_eq!(write_decide(&mut writer, true, &mut cx), Ok(()));
    assert_eq!(writer.timeout(), Some(Duration::MAX));
}

#[test]
fn completed_operation_restarts_the_countdown() {
    let mut timer = Timer::default();
    let handle = timer.handle();
    let _guard = tokio_timer::set_default(&handle);
    let mut cx = Context::from_waker(Waker::noop());
    let mut reader = TimeoutReader::new(());
    reader.set_timeout(Some(Duration::from_millis(100)));

    // A blocked read starts the countdown; it has not run out yet.
    assert_eq!(read_decide(&mut reader, true, &mut cx), Ok(()));
    wait(
        &mut |d| {
            timer.turn(Some(d)).unwrap();
        },
        Duration::from_millis(300),
    );
    // Still blocked after the timeout: timed out.
    assert_eq!(read_decide(&mut reader, true, &mut cx), Err(TimeoutError::TimedOut));
    // The read completes: the countdown stops, and the next blocked read
    // starts a fresh one, which has not run out.
    assert_eq!(read_decide(&mut reader, false, &mut cx), Ok(()));
    assert_eq!(read_decide(&mut reader, true, &mut cx), Ok(()));
}

#[test]
fn set_timeout_restarts_the_countdown() {
    let mut timer = Timer::default();
    let handle = timer.handle();
    let _guard = tokio_timer::set_default(&handle);
    let mut cx = Context::from_waker(Waker::noop());
    let mut writer = TimeoutWriter::new(());
    writer.set_timeout(Some(Duration::from_millis(100)));
    assert_eq!(write_decide(&mut writer, true, &mut cx), Ok(()));
    wait(
        &mut |d| {
            timer.turn(Some(d)).unwrap();
        },
        Duration::from_millis(300),
    );
    writer.set_timeout(Some(Duration::from_millis(100)));
    assert_eq!(write_decide(&mut writer, true, &mut cx), Ok(()));
}

#[test]
fn stream_read_timeout_leaves_writes_alone() {
    let mut timer = Timer::default();
    let handle = timer.handle();
    let _guard = tokio_timer::set_default(&handle);
    let mut cx = Context::from_waker(Waker::noop());
    let mut stream = TimeoutStream::new(());
    stream.set_read_timeout(Some(Duration::from_millis(100)));
    stream.set_write_timeout(Some(Duration::from_secs(60)));
    assert_eq!(stream_read_decide(&mut stream, true, &mut cx), Ok(()));
    assert_eq!(stream_write_decide(&mut stream, true, &mut cx), Ok(()));
    wait(
        &mut |d| {
            timer.turn(Some(d)).unwrap();
        },
        Duration::from_millis(300),
    );
    assert_eq!(stream_read_decide(&mut stream, true, &mut cx), Err(TimeoutError::TimedOut));
    assert_eq!(stream_write_decide(&mut stream, true, &mut cx), Ok(()));
}

#[test]
fn answer_hands_the_inner_result_through_unless_timed_out() {
    assert_eq!(answer(Polled::Ready(7u8), TimerCheck::Skip, true), Ok(Polled::Ready(7u8)));
    assert_eq!(answer(Polled::<u8>::Pending, TimerCheck::Skip, true), Ok(Polled::Pending));
    assert_eq!(answer(Polled::<u8>::Pending, TimerCheck::PollTimer, true), Err(TimeoutError::TimedOut));
    assert_eq!(answer(Polled::<u8>::Pending, TimerCheck::PollTimer, false), Ok(Polled::Pending));
    let inner_error: Result<usize, String> = Err(String::from("reset by peer"));
    assert_eq!(
        answer(Polled::Ready(inner_error.clone()), TimerCheck::PollTimer, false),
        Ok(Polled::Ready(inner_error))
    );
}

#[test]
fn start_countdown_follows_the_deadline() {
    let mut state = TimeoutState::new();
    state.set_timeout(Some(Duration::from_secs(1)));
    assert!(!state.start_countdown(None));
    let deadline = Instant::now() + Duration::from_secs(1);
    assert!(state.start_countdown(Some(deadline)));
    assert_eq!(state.timer_mut().deadline(), deadline);
    assert_eq!(state.timeout(), Some(Duration::from_secs(1)));
}

#[test]
fn running_countdown_asks_for_the_timer() {
    let mut writer = TimeoutWriter::new(0u8);
    writer.set_timeout(Some(Duration::from_secs(5)));
    assert_eq!(writer.after_write_poll(true), TimerCheck::PollTimer);
    assert_eq!(writer.after_write_poll(true), TimerCheck::PollTimer);
    let deadline = writer.timer_mut().deadline();
    assert_eq!(writer.after_write_poll(true), TimerCheck::PollTimer);
    // Later blocked polls keep the deadline of the running countdown.
    assert_eq!(writer.timer_mut().deadline(), deadline);
    // A completed operation stops the countdown.
    assert_eq!(writer.after_write_poll(false), TimerCheck::Skip);
}

#[test]
fn countdown_deadline_is_the_timeout_from_the_blocked_poll() {
    let mut reader = TimeoutReader::new(0u8);
    reader.set_timeout(Some(Duration::from_millis(700)));
    let before = Instant::now();
    assert_eq!(reader.after_read_poll(true), TimerCheck::PollTimer);
    let after = Instant::now();
    let deadline = reader.timer_mut().deadline();
    assert!(deadline >= before + Duration::from_millis(700));
    assert!(deadline <= after + Duration::from_millis(700));
}

#[test]
fn stop_countdown_moves_the_timer() {
    let mut state = TimeoutState::new();
    state.set_timeout(Some(Duration::from_secs(1)));
    let at = Instant::now() + Duration::from_secs(9);
    state.stop_countdown(at);
    assert_eq!(state.timer_mut().deadline(), at);
    assert_eq!(state.poll_check(), TimerCheck::PollTimer);
    assert!(state.timer_mut().deadline() < at);
}
