use sfo_io::copy_bidirectional::{
    consume_copy_budget, copy_bidirectional_with_idle_timeout, copy_bidirectional_with_timeout,
    copy_bidirectional_with_timeout_and_sizes, invalid_buffer_size_error, timeout_error,
    transfer_one_direction, BidirectionalCopy, CopyAction, CopyBuffer, CopyErrorKind, CopyEvent,
    CopyFailure, CopyRequest, Direction, Round, RoundAction, RoundResult, TransferAction,
    TransferEvent, TransferRequest, TransferState, DEFAULT_COPY_BUF_SIZE, MAX_COPY_OPS_PER_POLL,
};
use sfo_io::poll::Poll;
use std::collections::VecDeque;
use tokio::io::ReadBuf;

/// An end of a connection: what can be read from it, and what was written to it.
struct Peer {
    incoming: VecDeque<u8>,
    at_end: bool,
    read_fails: bool,
    outgoing: Vec<u8>,
    room: usize,
    flushes: usize,
    flush_waits: bool,
    is_shut_down: bool,
    operations: usize,
}

impl Peer {
    fn new() -> Peer {
        Peer {
            incoming: VecDeque::new(),
            at_end: false,
            read_fails: false,
            outgoing: Vec::new(),
            room: usize::MAX,
            flushes: 0,
            flush_waits: false,
            is_shut_down: false,
            operations: 0,
        }
    }

    fn read(&mut self, buf: &mut ReadBuf<'_>) -> Poll<Result<(), &'static str>> {
        self.operations += 1;
        if self.read_fails {
            return Poll::Ready(Err("read"));
        }
        if self.incoming.is_empty() && !self.at_end {
            return Poll::Pending;
        }
        while buf.remaining() > 0 {
            match self.incoming.pop_front() {
                Some(byte) => buf.put_slice(&[byte]),
                None => break,
            }
        }
        Poll::Ready(Ok(()))
    }

    fn write(&mut self, buf: &[u8]) -> Poll<Result<usize, &'static str>> {
        self.operations += 1;
        if self.room == 0 {
            return Poll::Pending;
        }
        let n = buf.len().min(self.room);
        self.room -= n;
        self.outgoing.extend_from_slice(&buf[..n]);
        Poll::Ready(Ok(n))
    }

    fn flush(&mut self) -> Poll<Result<(), &'static str>> {
        self.operations += 1;
        if self.flush_waits {
            return Poll::Pending;
        }
        self.flushes += 1;
        Poll::Ready(Ok(()))
    }

    fn shutdown(&mut self) -> Poll<Result<(), &'static str>> {
        self.is_shut_down = true;
        Poll::Ready(Ok(()))
    }
}

fn buffer_of(state: &mut TransferState) -> &mut CopyBuffer {
    match state {
        TransferState::Running(buffer) => buffer,
        _ => panic!("the direction is not copying"),
    }
}

fn fill(buffer: &mut CopyBuffer, reader: &mut Peer) -> Poll<Result<usize, &'static str>> {
    let cap = buffer.cap;
    let mut buf = ReadBuf::new(&mut buffer.buf);
    buf.set_filled(cap);
    match reader.read(&mut buf) {
        Poll::Ready(Ok(())) => Poll::Ready(Ok(buf.filled().len())),
        Poll::Ready(Err(e)) => Poll::Ready(Err(e)),
        Poll::Pending => Poll::Pending,
    }
}

fn perform(
    state: &mut TransferState,
    request: TransferRequest,
    reader: &mut Peer,
    writer: &mut Peer,
) -> TransferEvent<&'static str> {
    match request {
        TransferRequest::Shutdown => TransferEvent::ShutDown(writer.shutdown()),
        TransferRequest::Copy(request) => {
            let buffer = buffer_of(state);
            TransferEvent::Copy(match request {
                CopyRequest::Fill => CopyEvent::Filled(fill(buffer, reader)),
                CopyRequest::FillWhileBlocked => CopyEvent::FilledWhileBlocked(fill(buffer, reader)),
                CopyRequest::Write => CopyEvent::Wrote(writer.write(buffer.pending_bytes())),
                CopyRequest::FlushIdle => CopyEvent::FlushedIdle(writer.flush()),
                CopyRequest::FlushAtEnd => CopyEvent::FlushedAtEnd(writer.flush()),
            })
        }
    }
}

fn round(
    copy: &mut BidirectionalCopy,
    a: &mut Peer,
    b: &mut Peer,
    timer_fired: bool,
) -> RoundResult<&'static str> {
    let (mut round, mut action): (Round, RoundAction<&'static str>) = copy.begin(timer_fired);
    loop {
        match action {
            RoundAction::Return(result) => return result,
            RoundAction::Request(direction, request) => {
                let event = match direction {
                    Direction::AToB => perform(&mut copy.a_to_b, request, a, b),
                    Direction::BToA => perform(&mut copy.b_to_a, request, b, a),
                };
                action = copy.drive(&mut round, event);
            }
        }
    }
}

#[test]
fn idle_connection_times_out() {
    let mut copy = copy_bidirectional_with_timeout(20_000_000).ok().unwrap();
    let (mut a, mut b) = (Peer::new(), Peer::new());
    let result = round(&mut copy, &mut a, &mut b, false);
    assert!(matches!(result.result, Poll::Pending));
    assert!(!result.reset_timer);
    assert!(!result.wake);
    let result = round(&mut copy, &mut a, &mut b, true);
    match result.result {
        Poll::Ready(Err(CopyFailure::Copy(error))) => {
            assert!(error.kind == CopyErrorKind::TimedOut);
            assert_eq!(error.message, "bidirectional copy idle timeout elapsed");
        }
        _ => panic!("expected a timeout"),
    }
}

#[test]
fn active_one_way_transfer_resets_idle_timeout() {
    let mut copy = copy_bidirectional_with_timeout(80_000_000).ok().unwrap();
    let (mut a, mut b) = (Peer::new(), Peer::new());
    a.incoming.extend(b"hello");
    let result = round(&mut copy, &mut a, &mut b, false);
    assert!(matches!(result.result, Poll::Pending));
    assert!(result.reset_timer);
    assert_eq!(b.outgoing, b"hello");
    // Nothing to read any more: what was written is flushed.
    assert_eq!(b.flushes, 1);

    let result = round(&mut copy, &mut a, &mut b, false);
    assert!(!result.reset_timer);

    a.incoming.extend(b"world");
    a.at_end = true;
    let result = round(&mut copy, &mut a, &mut b, false);
    assert!(matches!(result.result, Poll::Pending));
    assert!(result.reset_timer);
    assert!(b.is_shut_down);
    assert!(!a.is_shut_down);

    b.at_end = true;
    let result = round(&mut copy, &mut a, &mut b, false);
    assert_eq!(b.outgoing, b"helloworld");
    match result.result {
        Poll::Ready(Ok((a_to_b, b_to_a))) => {
            assert_eq!(a_to_b, 10);
            assert_eq!(b_to_a, 0);
        }
        _ => panic!("expected the end of the copy"),
    }
    assert!(a.is_shut_down);
}

#[test]
fn zero_buffer_size_is_rejected() {
    let err = copy_bidirectional_with_timeout_and_sizes(1_000_000_000, 0, DEFAULT_COPY_BUF_SIZE)
        .err()
        .unwrap();
    assert!(err.kind == CopyErrorKind::InvalidInput);
    assert_eq!(err.message, "copy buffer size must be greater than zero");

    let err = copy_bidirectional_with_timeout_and_sizes(1_000_000_000, DEFAULT_COPY_BUF_SIZE, 0)
        .err()
        .unwrap();
    assert!(err.kind == CopyErrorKind::InvalidInput);
}

#[test]
fn always_ready_io_yields_to_runtime() {
    let mut copy = copy_bidirectional_with_timeout_and_sizes(60_000_000_000, 1, 1).ok().unwrap();
    let (mut a, mut b) = (Peer::new(), Peer::new());
    for _ in 0..3 {
        a.incoming.extend([b'x'; 1000]);
        b.incoming.extend([b'x'; 1000]);
        a.operations = 0;
        b.operations = 0;
        let result = round(&mut copy, &mut a, &mut b, false);
        assert!(matches!(result.result, Poll::Pending));
        assert!(result.wake);
        assert!(result.reset_timer);
        // Each direction has its operations on both peers.
        assert_eq!(a.operations + b.operations, 2 * MAX_COPY_OPS_PER_POLL);
    }
}

#[test]
fn zero_timeout_is_rejected_first() {
    assert!(copy_bidirectional_with_timeout(0).err().unwrap().kind == CopyErrorKind::TimedOut);
    assert!(copy_bidirectional_with_idle_timeout(0).err().unwrap().kind == CopyErrorKind::TimedOut);
    let err = copy_bidirectional_with_timeout_and_sizes(0, 0, 0).err().unwrap();
    assert!(err.kind == CopyErrorKind::TimedOut);
    assert_eq!(timeout_error().message, err.message);
    assert!(invalid_buffer_size_error().kind == CopyErrorKind::InvalidInput);
    let copy = copy_bidirectional_with_idle_timeout(1).ok().unwrap();
    match copy.a_to_b {
        TransferState::Running(buffer) => assert_eq!(buffer.buf, vec![0u8; 8192]),
        _ => panic!("expected a new copy"),
    }
}

#[test]
fn what_is_read_is_written_in_order_through_small_buffers() {
    let mut copy = copy_bidirectional_with_timeout_and_sizes(1, 3, 2).ok().unwrap();
    let (mut a, mut b) = (Peer::new(), Peer::new());
    let there: Vec<u8> = (0..200).collect();
    let back: Vec<u8> = (0..77).rev().collect();
    a.incoming.extend(there.iter());
    a.at_end = true;
    b.incoming.extend(back.iter());
    b.at_end = true;
    b.room = 5;
    let mut rounds = 0;
    let counts = loop {
        rounds += 1;
        let result = round(&mut copy, &mut a, &mut b, false);
        if let Poll::Ready(result) = result.result {
            break result.ok().unwrap();
        }
        b.room = b.room.saturating_add(7);
    };
    assert_eq!(counts, (200, 77));
    assert_eq!(b.outgoing, there);
    assert_eq!(a.outgoing, back);
    assert!(rounds > 10);
}

#[test]
fn a_blocked_writer_does_not_stop_the_reader() {
    let mut copy = copy_bidirectional_with_timeout_and_sizes(1, 8, 8).ok().unwrap();
    let (mut a, mut b) = (Peer::new(), Peer::new());
    a.incoming.extend(b"abc");
    b.room = 0;
    round(&mut copy, &mut a, &mut b, false);
    a.incoming.extend(b"def");
    round(&mut copy, &mut a, &mut b, false);
    assert_eq!(buffer_of(&mut copy.a_to_b).pending_bytes(), b"abcdef");
    assert!(b.outgoing.is_empty());
    b.room = 100;
    round(&mut copy, &mut a, &mut b, false);
    assert_eq!(b.outgoing, b"abcdef");
}

#[test]
fn errors_end_the_copy() {
    let mut copy = copy_bidirectional_with_timeout_and_sizes(1, 8, 8).ok().unwrap();
    let (mut a, mut b) = (Peer::new(), Peer::new());
    a.read_fails = true;
    b.incoming.extend(b"abc");
    let result = round(&mut copy, &mut a, &mut b, false);
    assert!(matches!(result.result, Poll::Ready(Err(CopyFailure::Io("read")))));
    // The other direction was not even tried.
    assert!(a.outgoing.is_empty());

    let mut copy = copy_bidirectional_with_timeout_and_sizes(1, 8, 8).ok().unwrap();
    let (mut a, mut b) = (Peer::new(), Peer::new());
    a.incoming.extend(b"abc");
    b.read_fails = true;
    let result = round(&mut copy, &mut a, &mut b, false);
    assert!(matches!(result.result, Poll::Ready(Err(CopyFailure::Io("read")))));
    assert!(!result.reset_timer);
    assert_eq!(b.outgoing, b"abc");
}

#[test]
fn a_writer_that_takes_nothing_is_an_error() {
    let mut buffer = CopyBuffer::new(4);
    let mut progress = false;
    let mut ops = 10;
    let event: CopyEvent<()> = CopyEvent::Filled(Poll::Ready(Ok(2)));
    assert!(matches!(
        buffer.poll_copy(event, &mut progress, &mut ops),
        CopyAction::Request(CopyRequest::Write)
    ));
    progress = false;
    let event: CopyEvent<()> = CopyEvent::Wrote(Poll::Ready(Ok(0)));
    match buffer.poll_copy(event, &mut progress, &mut ops) {
        CopyAction::Fail(CopyFailure::Copy(error)) => {
            assert!(error.kind == CopyErrorKind::WriteZero);
            assert_eq!(error.message, "write zero byte into writer");
        }
        _ => panic!("expected an error"),
    }
    assert!(!progress);
    assert_eq!(ops, 9);
}

#[test]
fn flushes_wait_until_there_is_nothing_else() {
    let mut copy = copy_bidirectional_with_timeout_and_sizes(1, 8, 8).ok().unwrap();
    let (mut a, mut b) = (Peer::new(), Peer::new());
    a.incoming.extend(b"abc");
    b.flush_waits = true;
    let result = round(&mut copy, &mut a, &mut b, false);
    assert!(result.reset_timer);
    assert_eq!(b.flushes, 0);
    assert!(buffer_of(&mut copy.a_to_b).need_flush);
    b.flush_waits = false;
    let result = round(&mut copy, &mut a, &mut b, false);
    assert!(result.reset_timer);
    assert_eq!(b.flushes, 1);
    assert!(!buffer_of(&mut copy.a_to_b).need_flush);
    let result = round(&mut copy, &mut a, &mut b, false);
    assert!(!result.reset_timer);
    assert_eq!(b.flushes, 1);
}

#[test]
fn budgets_run_out() {
    let mut ops = 2;
    assert!(consume_copy_budget(&mut ops));
    assert!(!consume_copy_budget(&mut ops));
    assert_eq!(ops, 0);

    // The last operation of a round ends it.
    let mut buffer = CopyBuffer::new(4);
    let mut progress = false;
    let mut ops = 1;
    let event: CopyEvent<()> = CopyEvent::Filled(Poll::Ready(Ok(2)));
    assert!(matches!(buffer.poll_copy(event, &mut progress, &mut ops), CopyAction::Yield));
    assert!(progress);
    assert_eq!(ops, 0);
    assert_eq!(buffer.pending_bytes(), &[0, 0]);
}

#[test]
fn a_direction_shuts_down_after_the_last_flush() {
    let mut state = TransferState::Running(CopyBuffer::new(4));
    let mut progress = false;
    let mut ops = 100;
    let step = |state: &mut TransferState, event: TransferEvent<()>| {
        transfer_one_direction(state, event, &mut progress, &mut ops)
    };
    let mut step = step;
    assert!(matches!(
        step(&mut state, TransferEvent::Start),
        TransferAction::Request(TransferRequest::Copy(CopyRequest::Fill))
    ));
    assert!(matches!(
        step(&mut state, TransferEvent::Copy(CopyEvent::Filled(Poll::Ready(Ok(3))))),
        TransferAction::Request(TransferRequest::Copy(CopyRequest::Write))
    ));
    assert!(matches!(
        step(&mut state, TransferEvent::Copy(CopyEvent::Wrote(Poll::Ready(Ok(3))))),
        TransferAction::Request(TransferRequest::Copy(CopyRequest::Fill))
    ));
    assert!(matches!(
        step(&mut state, TransferEvent::Copy(CopyEvent::Filled(Poll::Ready(Ok(0))))),
        TransferAction::Request(TransferRequest::Copy(CopyRequest::FlushAtEnd))
    ));
    assert!(matches!(
        step(&mut state, TransferEvent::Copy(CopyEvent::FlushedAtEnd(Poll::Ready(Ok(()))))),
        TransferAction::Request(TransferRequest::Shutdown)
    ));
    assert!(matches!(state, TransferState::ShuttingDown(3)));
    assert!(matches!(step(&mut state, TransferEvent::ShutDown(Poll::Pending)), TransferAction::Park));
    assert!(matches!(
        step(&mut state, TransferEvent::Start),
        TransferAction::Request(TransferRequest::Shutdown)
    ));
    assert!(matches!(
        step(&mut state, TransferEvent::ShutDown(Poll::Ready(Err(())))),
        TransferAction::Fail(CopyFailure::Io(()))
    ));
    assert!(matches!(
        step(&mut state, TransferEvent::ShutDown(Poll::Ready(Ok(())))),
        TransferAction::Finished(3)
    ));
    assert!(matches!(step(&mut state, TransferEvent::Start), TransferAction::Finished(3)));
    assert!(matches!(state, TransferState::Done(3)));
}

#[test]
fn a_finished_direction_needs_no_budget() {
    for ops in [0, 1, 128] {
        let mut state = TransferState::Done(7);
        let mut progress = false;
        let mut left = ops;
        for _ in 0..3 {
            let action: TransferAction<()> =
                transfer_one_direction(&mut state, TransferEvent::Start, &mut progress, &mut left);
            assert!(matches!(action, TransferAction::Finished(7)));
            assert!(matches!(state, TransferState::Done(7)));
        }
        assert!(!progress);
        assert_eq!(left, ops);
    }
}

#[test]
fn a_shutdown_needs_no_budget() {
    let mut state = TransferState::ShuttingDown(5);
    let mut progress = false;
    let mut left = 0;
    let action: TransferAction<()> =
        transfer_one_direction(&mut state, TransferEvent::Start, &mut progress, &mut left);
    assert!(matches!(action, TransferAction::Request(TransferRequest::Shutdown)));
    assert!(!progress);
    let action: TransferAction<()> = transfer_one_direction(
        &mut state,
        TransferEvent::ShutDown(Poll::Ready(Ok(()))),
        &mut progress,
        &mut left,
    );
    assert!(matches!(action, TransferAction::Finished(5)));
    assert!(progress);
    assert_eq!(left, 0);
}

#[test]
fn a_round_reports_the_count_of_a_direction_that_was_done_before() {
    let mut copy = BidirectionalCopy {
        a_to_b: TransferState::Done(4),
        b_to_a: TransferState::ShuttingDown(6),
    };
    let (mut round, action) = copy.begin::<()>(false);
    assert!(matches!(
        action,
        RoundAction::Request(Direction::BToA, TransferRequest::Shutdown)
    ));
    assert!(matches!(round.a_to_b_ret, Poll::Ready(4)));
    match copy.drive(&mut round, TransferEvent::<()>::ShutDown(Poll::Ready(Ok(())))) {
        RoundAction::Return(returned) => {
            assert!(matches!(returned.result, Poll::Ready(Ok((4, 6)))));
            assert!(returned.reset_timer);
        }
        RoundAction::Request(..) => panic!("the round is at its end"),
    }
}
