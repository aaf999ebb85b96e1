//! Copying between two streams, in both directions at once, until both are at their end, one
//! fails, or nothing has moved for too long.
//!
//! A [`BidirectionalCopy`] is polled in rounds. A round starts with whether the idle timer has
//! fired. Each action then names an operation on one of the streams, whose outcome goes into the
//! next call, until an action says what the round as a whole comes to.

use crate::poll::Poll;
use vstd::prelude::*;

verus! {

/// The size of a copy buffer where none is given.
pub const DEFAULT_COPY_BUF_SIZE: usize = 8192;

/// After so many operations in one direction that were ready, a round lets others run.
pub const MAX_COPY_OPS_PER_POLL: usize = 128;

#[derive(Clone, Copy, PartialEq, Eq, Structural)]
pub enum CopyErrorKind {
    TimedOut,
    InvalidInput,
    WriteZero,
}

/// An error that the copying itself comes to.
pub struct CopyError {
    pub kind: CopyErrorKind,
    pub message: &'static str,
}

/// Why a copy came to an end early.
pub enum CopyFailure<E> {
    /// One of the streams failed.
    Io(E),
    /// The copying failed.
    Copy(CopyError),
}

/// The error of a copy in which nothing has moved for too long.
pub open spec fn timed_out() -> CopyError {
    CopyError {
        kind: CopyErrorKind::TimedOut,
        message: "bidirectional copy idle timeout elapsed",
    }
}

/// The error of a copy through a buffer that holds nothing.
pub open spec fn no_buffer() -> CopyError {
    CopyError {
        kind: CopyErrorKind::InvalidInput,
        message: "copy buffer size must be greater than zero",
    }
}

/// The error of a copy to a writer that takes nothing.
pub open spec fn write_zero() -> CopyError {
    CopyError { kind: CopyErrorKind::WriteZero, message: "write zero byte into writer" }
}

pub fn timeout_error() -> (error: CopyError)
    ensures
        error == timed_out(),
{
    CopyError {
        kind: CopyErrorKind::TimedOut,
        message: "bidirectional copy idle timeout elapsed",
    }
}

pub fn invalid_buffer_size_error() -> (error: CopyError)
    ensures
        error == no_buffer(),
{
    CopyError {
        kind: CopyErrorKind::InvalidInput,
        message: "copy buffer size must be greater than zero",
    }
}

fn write_zero_error() -> (error: CopyError)
    ensures
        error == write_zero(),
{
    CopyError { kind: CopyErrorKind::WriteZero, message: "write zero byte into writer" }
}

/// Takes one operation from the budget of a round. Returns whether any are left.
pub fn consume_copy_budget(ops_remaining: &mut usize) -> (left: bool)
    requires
        *old(ops_remaining) > 0,
    ensures
        *final(ops_remaining) == *old(ops_remaining) - 1,
        left == (*final(ops_remaining) > 0),
{
    *ops_remaining = *ops_remaining - 1;
    *ops_remaining > 0
}

/// The bytes on their way in one direction.
pub struct CopyBuffer {
    /// The reader is at its end.
    pub read_done: bool,
    /// Something was written since the last flush.
    pub need_flush: bool,
    /// How far the buffer is written out.
    pub pos: usize,
    /// How far the buffer is filled.
    pub cap: usize,
    /// How many bytes have been written in all.
    pub amt: u64,
    pub buf: Vec<u8>,
}

/// An operation on one of the streams that a direction of copying needs.
#[derive(Clone, Copy, PartialEq, Eq, Structural)]
pub enum CopyRequest {
    /// Read into the buffer behind what is filled.
    Fill,
    /// The same, while the writer is not ready.
    FillWhileBlocked,
    /// Write what is filled and not written out.
    Write,
    /// Flush the writer, while there is nothing to read.
    FlushIdle,
    /// Flush the writer, after everything is written.
    FlushAtEnd,
}

/// What a direction of copying is told.
pub enum CopyEvent<E> {
    /// A round starts.
    Start,
    /// `Fill` left the buffer filled so far.
    Filled(Poll<Result<usize, E>>),
    /// `FillWhileBlocked` left the buffer filled so far.
    FilledWhileBlocked(Poll<Result<usize, E>>),
    /// `Write` took so many bytes.
    Wrote(Poll<Result<usize, E>>),
    /// What came of `FlushIdle`.
    FlushedIdle(Poll<Result<(), E>>),
    /// What came of `FlushAtEnd`.
    FlushedAtEnd(Poll<Result<(), E>>),
}

/// What a direction of copying does next.
pub enum CopyAction<E> {
    Request(CopyRequest),
    /// The round ends here for this direction, and another is to follow at once.
    Yield,
    /// The round ends here for this direction, until a stream is ready.
    Park,
    /// Everything is copied, so many bytes.
    Done(u64),
    Fail(CopyFailure<E>),
}

impl CopyBuffer {
    pub open spec fn wf(self) -> bool {
        &&& self.pos <= self.cap <= self.buf@.len()
        &&& self.buf@.len() > 0
    }

    /// The bytes that are read and not written.
    pub open spec fn pending(self) -> Seq<u8> {
        self.buf@.subrange(self.pos as int, self.cap as int)
    }

    /// Whether there is room to read into, and a reader to read from.
    pub open spec fn can_fill(self) -> bool {
        self.cap < self.buf@.len() && !self.read_done
    }

    /// The buffer once it is filled up to `len`. A read that adds nothing is the last.
    pub open spec fn filled(self, len: usize) -> CopyBuffer {
        CopyBuffer { read_done: self.cap == len, cap: len, ..self }
    }

    /// The buffer once `n` more bytes are written.
    pub open spec fn wrote(self, n: usize) -> CopyBuffer {
        CopyBuffer {
            pos: (self.pos + n) as usize,
            amt: (self.amt + n) as u64,
            need_flush: true,
            ..self
        }
    }

    /// What comes next after a read or a write: to write what there is, and once that is nothing,
    /// to start over with an empty buffer, or to flush if the reader is at its end.
    pub open spec fn drained<E>(self) -> (CopyBuffer, CopyAction<E>) {
        if self.pos < self.cap {
            (self, CopyAction::Request(CopyRequest::Write))
        } else {
            let emptied = CopyBuffer { pos: 0, cap: 0, ..self };
            if self.read_done {
                (emptied, CopyAction::Request(CopyRequest::FlushAtEnd))
            } else {
                (emptied, CopyAction::Request(CopyRequest::Fill))
            }
        }
    }

    /// Whether the event can follow here: a read keeps within the buffer and behind what is
    /// written out, and a write takes no more than it was offered.
    pub open spec fn expects<E>(self, event: CopyEvent<E>) -> bool {
        match event {
            CopyEvent::Filled(Poll::Ready(Ok(len))) => self.pos <= len <= self.buf@.len(),
            CopyEvent::FilledWhileBlocked(Poll::Ready(Ok(len))) => self.pos <= len
                <= self.buf@.len(),
            CopyEvent::Wrote(Poll::Ready(Ok(n))) => self.pos + n <= self.cap && self.amt + n
                <= u64::MAX,
            _ => true,
        }
    }

    /// Whether the event is an operation that was ready, and counts against the budget.
    pub open spec fn spends<E>(self, event: CopyEvent<E>) -> bool {
        match event {
            CopyEvent::Filled(Poll::Ready(Ok(_))) => true,
            CopyEvent::FilledWhileBlocked(Poll::Ready(Ok(_))) => true,
            CopyEvent::Wrote(Poll::Ready(Ok(n))) => n > 0,
            CopyEvent::FlushedIdle(Poll::Ready(Ok(_))) => true,
            _ => false,
        }
    }

    /// Whether the event is progress: bytes that moved, or a flush that is done.
    pub open spec fn progresses<E>(self, event: CopyEvent<E>) -> bool {
        match event {
            CopyEvent::Filled(Poll::Ready(Ok(len))) => len != self.cap,
            CopyEvent::FilledWhileBlocked(Poll::Ready(Ok(len))) => len != self.cap,
            CopyEvent::Wrote(Poll::Ready(Ok(n))) => n > 0,
            CopyEvent::FlushedIdle(Poll::Ready(Ok(_))) => true,
            CopyEvent::FlushedAtEnd(Poll::Ready(Ok(_))) => true,
            _ => false,
        }
    }

    /// The buffer as the event leaves it.
    pub open spec fn absorbed<E>(self, event: CopyEvent<E>) -> CopyBuffer {
        match event {
            CopyEvent::Filled(Poll::Ready(Ok(len))) => self.filled(len),
            CopyEvent::FilledWhileBlocked(Poll::Ready(Ok(len))) => self.filled(len),
            CopyEvent::Wrote(Poll::Ready(Ok(n))) => if n > 0 {
                self.wrote(n)
            } else {
                self
            },
            CopyEvent::FlushedIdle(Poll::Ready(Ok(_))) => CopyBuffer { need_flush: false, ..self },
            _ => self,
        }
    }

    /// The buffer after the event, and what comes next, as long as the budget lasts.
    pub open spec fn continued<E>(self, event: CopyEvent<E>) -> (CopyBuffer, CopyAction<E>) {
        let after = self.absorbed(event);
        match event {
            CopyEvent::Start => if after.can_fill() {
                (after, CopyAction::Request(CopyRequest::Fill))
            } else {
                after.drained()
            },
            CopyEvent::Filled(Poll::Ready(Ok(_))) => after.drained(),
            CopyEvent::Filled(Poll::Pending) => if after.pos < after.cap {
                (after, CopyAction::Request(CopyRequest::Write))
            } else if after.need_flush {
                (after, CopyAction::Request(CopyRequest::FlushIdle))
            } else {
                (after, CopyAction::Park)
            },
            CopyEvent::Wrote(Poll::Ready(Ok(n))) => if n > 0 {
                after.drained()
            } else {
                (after, CopyAction::Fail(CopyFailure::Copy(write_zero())))
            },
            CopyEvent::Wrote(Poll::Pending) => if after.can_fill() {
                (after, CopyAction::Request(CopyRequest::FillWhileBlocked))
            } else {
                (after, CopyAction::Park)
            },
            CopyEvent::FlushedAtEnd(Poll::Ready(Ok(_))) => (after, CopyAction::Done(after.amt)),
            CopyEvent::Filled(Poll::Ready(Err(e))) => (after, CopyAction::Fail(CopyFailure::Io(e))),
            CopyEvent::FilledWhileBlocked(Poll::Ready(Err(e))) => (
                after,
                CopyAction::Fail(CopyFailure::Io(e)),
            ),
            CopyEvent::Wrote(Poll::Ready(Err(e))) => (after, CopyAction::Fail(CopyFailure::Io(e))),
            CopyEvent::FlushedIdle(Poll::Ready(Err(e))) => (
                after,
                CopyAction::Fail(CopyFailure::Io(e)),
            ),
            CopyEvent::FlushedAtEnd(Poll::Ready(Err(e))) => (
                after,
                CopyAction::Fail(CopyFailure::Io(e)),
            ),
            _ => (after, CopyAction::Park),
        }
    }

    /// The buffer after the event, and what comes next with so many operations left: where the
    /// event uses the last of them, nothing more is done in this round.
    pub open spec fn copied<E>(self, event: CopyEvent<E>, ops: usize) -> (
        CopyBuffer,
        CopyAction<E>,
    ) {
        if self.spends(event) && ops <= 1 {
            (self.absorbed(event), CopyAction::Yield)
        } else {
            self.continued(event)
        }
    }

    /// The operations left after the event.
    pub open spec fn ops_after<E>(self, event: CopyEvent<E>, ops: usize) -> usize {
        if self.spends(event) {
            (ops - 1) as usize
        } else {
            ops
        }
    }

    pub fn new(buf_size: usize) -> (buffer: CopyBuffer)
        ensures
            !buffer.read_done,
            !buffer.need_flush,
            buffer.pos == 0,
            buffer.cap == 0,
            buffer.amt == 0,
            buffer.buf@ == Seq::new(buf_size as nat, |i: int| 0u8),
    {
        let mut buf: Vec<u8> = Vec::new();
        buf.resize(buf_size, 0);
        assert(buf@ =~= Seq::new(buf_size as nat, |i: int| 0u8));
        CopyBuffer { read_done: false, need_flush: false, pos: 0, cap: 0, amt: 0, buf }
    }

    /// The bytes to write.
    pub fn pending_bytes(&self) -> (bytes: &[u8])
        requires
            self.wf(),
        ensures
            bytes@ == self.pending(),
    {
        vstd::slice::slice_subrange(self.buf.as_slice(), self.pos, self.cap)
    }

    /// Takes note of a read that left the buffer filled up to `len`.
    fn fill(&mut self, len: usize, made_progress: &mut bool)
        ensures
            *final(self) == old(self).filled(len),
            *final(made_progress) == (*old(made_progress) || old(self).cap != len),
    {
        self.read_done = self.cap == len;
        *made_progress = *made_progress || self.cap != len;
        self.cap = len;
    }

    /// Goes on to write, or once that is done, to start over or to flush.
    fn drain<E>(&mut self) -> (action: CopyAction<E>)
        ensures
            (*final(self), action) == old(self).drained::<E>(),
    {
        if self.pos < self.cap {
            return CopyAction::Request(CopyRequest::Write);
        }
        self.pos = 0;
        self.cap = 0;
        if self.read_done {
            CopyAction::Request(CopyRequest::FlushAtEnd)
        } else {
            CopyAction::Request(CopyRequest::Fill)
        }
    }

    /// Goes on with what came of the last operation, to the next one or to the end of the round.
    pub fn poll_copy<E>(
        &mut self,
        event: CopyEvent<E>,
        made_progress: &mut bool,
        ops_remaining: &mut usize,
    ) -> (action: CopyAction<E>)
        requires
            old(self).wf(),
            old(self).expects(event),
            old(self).spends(event) ==> *old(ops_remaining) > 0,
        ensures
            (*final(self), action) == old(self).copied(event, *old(ops_remaining)),
            *final(ops_remaining) == old(self).ops_after(event, *old(ops_remaining)),
            *final(made_progress) == (*old(made_progress) || old(self).progresses(event)),
            final(self).wf(),
    {
        match event {
            CopyEvent::Start => {
                if self.cap < self.buf.len() && !self.read_done {
                    CopyAction::Request(CopyRequest::Fill)
                } else {
                    self.drain()
                }
            },
            CopyEvent::Filled(Poll::Ready(Ok(len))) => {
                self.fill(len, made_progress);
                if consume_copy_budget(ops_remaining) {
                    self.drain()
                } else {
                    CopyAction::Yield
                }
            },
            CopyEvent::Filled(Poll::Pending) => {
                if self.pos < self.cap {
                    CopyAction::Request(CopyRequest::Write)
                } else if self.need_flush {
                    CopyAction::Request(CopyRequest::FlushIdle)
                } else {
                    CopyAction::Park
                }
            },
            CopyEvent::FilledWhileBlocked(Poll::Ready(Ok(len))) => {
                self.fill(len, made_progress);
                if consume_copy_budget(ops_remaining) {
                    CopyAction::Park
                } else {
                    CopyAction::Yield
                }
            },
            CopyEvent::Wrote(Poll::Ready(Ok(n))) => {
                if n == 0 {
                    return CopyAction::Fail(CopyFailure::Copy(write_zero_error()));
                }
                *made_progress = true;
                self.pos = self.pos + n;
                self.amt = self.amt + n as u64;
                self.need_flush = true;
                if consume_copy_budget(ops_remaining) {
                    self.drain()
                } else {
                    CopyAction::Yield
                }
            },
            CopyEvent::Wrote(Poll::Pending) => {
                if !self.read_done && self.cap < self.buf.len() {
                    CopyAction::Request(CopyRequest::FillWhileBlocked)
                } else {
                    CopyAction::Park
                }
            },
            CopyEvent::FlushedIdle(Poll::Ready(Ok(_))) => {
                *made_progress = true;
                self.need_flush = false;
                if consume_copy_budget(ops_remaining) {
                    CopyAction::Park
                } else {
                    CopyAction::Yield
                }
            },
            CopyEvent::FlushedAtEnd(Poll::Ready(Ok(_))) => {
                *made_progress = true;
                CopyAction::Done(self.amt)
            },
            CopyEvent::FilledWhileBlocked(Poll::Pending)
            | CopyEvent::FlushedIdle(Poll::Pending)
            | CopyEvent::FlushedAtEnd(Poll::Pending) => CopyAction::Park,
            CopyEvent::Filled(Poll::Ready(Err(e)))
            | CopyEvent::FilledWhileBlocked(Poll::Ready(Err(e)))
            | CopyEvent::Wrote(Poll::Ready(Err(e))) => CopyAction::Fail(CopyFailure::Io(e)),
            CopyEvent::FlushedIdle(Poll::Ready(Err(e)))
            | CopyEvent::FlushedAtEnd(Poll::Ready(Err(e))) => CopyAction::Fail(CopyFailure::Io(e)),
        }
    }
}

/// Where one direction stands.
pub enum TransferState {
    Running(CopyBuffer),
    /// All is copied, so many bytes, and the writer is being shut down.
    ShuttingDown(u64),
    Done(u64),
}

/// An operation on one of the streams that a direction needs.
#[derive(Clone, Copy, PartialEq, Eq, Structural)]
pub enum TransferRequest {
    Copy(CopyRequest),
    /// Shut the writer down.
    Shutdown,
}

/// What a direction is told.
pub enum TransferEvent<E> {
    /// A round starts.
    Start,
    /// What came of an operation that copying asked for.
    Copy(CopyEvent<E>),
    /// What came of the shutdown.
    ShutDown(Poll<Result<(), E>>),
}

/// What a direction does next.
pub enum TransferAction<E> {
    Request(TransferRequest),
    /// The round ends here for this direction, and another is to follow at once.
    Yield,
    /// The round ends here for this direction, until a stream is ready.
    Park,
    /// The direction is done, with so many bytes.
    Finished(u64),
    Fail(CopyFailure<E>),
}

impl TransferState {
    pub open spec fn wf(self) -> bool {
        self matches TransferState::Running(buffer) ==> buffer.wf()
    }

    /// The event as copying sees it.
    pub open spec fn copy_event<E>(event: TransferEvent<E>) -> CopyEvent<E> {
        match event {
            TransferEvent::Copy(event) => event,
            _ => CopyEvent::Start,
        }
    }

    /// Whether the event can follow here.
    pub open spec fn expects<E>(self, event: TransferEvent<E>) -> bool {
        match self {
            TransferState::Running(buffer) => event !is ShutDown && buffer.expects(
                Self::copy_event(event),
            ),
            TransferState::ShuttingDown(_) => event !is Copy,
            TransferState::Done(_) => event is Start,
        }
    }

    /// Whether the event counts against the budget.
    pub open spec fn spends<E>(self, event: TransferEvent<E>) -> bool {
        self matches TransferState::Running(buffer) && buffer.spends(Self::copy_event(event))
    }

    /// Whether the event is progress.
    pub open spec fn progresses<E>(self, event: TransferEvent<E>) -> bool {
        match self {
            TransferState::Running(buffer) => buffer.progresses(Self::copy_event(event)),
            TransferState::ShuttingDown(_) => event matches TransferEvent::ShutDown(
                Poll::Ready(Ok(_)),
            ),
            TransferState::Done(_) => false,
        }
    }

    /// Where the direction stands after the event, and what comes next: first all is copied, then
    /// the writer is shut down.
    pub open spec fn transferred<E>(self, event: TransferEvent<E>, ops: usize) -> (
        TransferState,
        TransferAction<E>,
    ) {
        match self {
            TransferState::Running(buffer) => {
                let (after, action) = buffer.copied(Self::copy_event(event), ops);
                match action {
                    CopyAction::Request(request) => (
                        TransferState::Running(after),
                        TransferAction::Request(TransferRequest::Copy(request)),
                    ),
                    CopyAction::Yield => (TransferState::Running(after), TransferAction::Yield),
                    CopyAction::Park => (TransferState::Running(after), TransferAction::Park),
                    CopyAction::Done(count) => (
                        TransferState::ShuttingDown(count),
                        TransferAction::Request(TransferRequest::Shutdown),
                    ),
                    CopyAction::Fail(failure) => (
                        TransferState::Running(after),
                        TransferAction::Fail(failure),
                    ),
                }
            },
            TransferState::ShuttingDown(count) => match event {
                TransferEvent::ShutDown(Poll::Ready(Ok(_))) => (
                    TransferState::Done(count),
                    TransferAction::Finished(count),
                ),
                TransferEvent::ShutDown(Poll::Ready(Err(e))) => (
                    self,
                    TransferAction::Fail(CopyFailure::Io(e)),
                ),
                TransferEvent::ShutDown(Poll::Pending) => (self, TransferAction::Park),
                _ => (self, TransferAction::Request(TransferRequest::Shutdown)),
            },
            TransferState::Done(count) => (self, TransferAction::Finished(count)),
        }
    }

    /// The operations left after the event.
    pub open spec fn ops_after<E>(self, event: TransferEvent<E>, ops: usize) -> usize {
        if self.spends(event) {
            (ops - 1) as usize
        } else {
            ops
        }
    }
}

/// Goes on with one direction. One that is done answers with its count, and changes nothing.
pub fn transfer_one_direction<E>(
    state: &mut TransferState,
    event: TransferEvent<E>,
    made_progress: &mut bool,
    ops_remaining: &mut usize,
) -> (action: TransferAction<E>)
    requires
        old(state).wf(),
        old(state).expects(event),
        old(state).spends(event) ==> *old(ops_remaining) > 0,
    ensures
        (*final(state), action) == old(state).transferred(event, *old(ops_remaining)),
        *final(ops_remaining) == old(state).ops_after(event, *old(ops_remaining)),
        *final(made_progress) == (*old(made_progress) || old(state).progresses(event)),
        final(state).wf(),
{
    let count: u64 = match state {
        TransferState::Running(buffer) => {
            let event = match event {
                TransferEvent::Copy(event) => event,
                _ => CopyEvent::Start,
            };
            match buffer.poll_copy(event, made_progress, ops_remaining) {
                CopyAction::Request(request) => {
                    return TransferAction::Request(TransferRequest::Copy(request));
                },
                CopyAction::Yield => {
                    return TransferAction::Yield;
                },
                CopyAction::Park => {
                    return TransferAction::Park;
                },
                CopyAction::Fail(failure) => {
                    return TransferAction::Fail(failure);
                },
                CopyAction::Done(count) => count,
            }
        },
        TransferState::ShuttingDown(count) => {
            let count: u64 = *count;
            match event {
                TransferEvent::ShutDown(Poll::Ready(Ok(_))) => {
                    *made_progress = true;
                    *state = TransferState::Done(count);
                    return TransferAction::Finished(count);
                },
                TransferEvent::ShutDown(Poll::Ready(Err(e))) => {
                    return TransferAction::Fail(CopyFailure::Io(e));
                },
                TransferEvent::ShutDown(Poll::Pending) => {
                    return TransferAction::Park;
                },
                _ => {
                    return TransferAction::Request(TransferRequest::Shutdown);
                },
            }
        },
        TransferState::Done(count) => {
            return TransferAction::Finished(*count);
        },
    };
    *state = TransferState::ShuttingDown(count);
    TransferAction::Request(TransferRequest::Shutdown)
}

/// One of the two directions: from the first stream to the second, or back.
#[derive(Clone, Copy, PartialEq, Eq, Structural)]
pub enum Direction {
    AToB,
    BToA,
}

/// A copy between two streams, in both directions.
pub struct BidirectionalCopy {
    pub a_to_b: TransferState,
    pub b_to_a: TransferState,
}

/// One round of a copy.
pub struct Round {
    /// The direction that the round has come to.
    pub direction: Direction,
    /// Whether anything has moved.
    pub made_progress: bool,
    /// How many operations each direction has left.
    pub a_to_b_ops: usize,
    pub b_to_a_ops: usize,
    /// The bytes of the first direction, if it is done.
    pub a_to_b_ret: Poll<u64>,
    /// Whether a direction asks for another round at once.
    pub wake: bool,
}

/// What a round comes to.
pub struct RoundResult<E> {
    /// The bytes copied each way, or what went wrong; or neither yet.
    pub result: Poll<Result<(u64, u64), CopyFailure<E>>>,
    /// Whether the idle timer starts over.
    pub reset_timer: bool,
    /// Whether another round is to follow at once.
    pub wake: bool,
}

/// What comes next in a round.
pub enum RoundAction<E> {
    /// An operation that a direction needs.
    Request(Direction, TransferRequest),
    /// The end of the round.
    Return(RoundResult<E>),
}

impl<E> TransferAction<E> {
    /// The bytes of the direction, if it is done.
    pub open spec fn finished(self) -> Poll<u64> {
        match self {
            TransferAction::Finished(count) => Poll::Ready(count),
            _ => Poll::Pending,
        }
    }
}

/// The bytes copied each way, once both directions are done.
pub open spec fn both_done<E>(a: Poll<u64>, b: Poll<u64>) -> Poll<
    Result<(u64, u64), CopyFailure<E>>,
> {
    match (a, b) {
        (Poll::Ready(a), Poll::Ready(b)) => Poll::Ready(Ok((a, b))),
        _ => Poll::Pending,
    }
}

impl Round {
    /// A direction that a round is at has operations left.
    pub open spec fn wf(self) -> bool {
        &&& self.direction is AToB ==> self.a_to_b_ops > 0
        &&& self.b_to_a_ops > 0
    }

    /// Whether the round knows of the first direction what is so: once it has come to the second,
    /// it holds the count of the first exactly where that one is done.
    pub open spec fn tells(self, copy: BidirectionalCopy) -> bool {
        self.direction is BToA ==> match self.a_to_b_ret {
            Poll::Ready(count) => copy.a_to_b == TransferState::Done(count),
            Poll::Pending => copy.a_to_b !is Done,
        }
    }

    /// A round that starts.
    pub open spec fn fresh() -> Round {
        Round {
            direction: Direction::AToB,
            made_progress: false,
            a_to_b_ops: MAX_COPY_OPS_PER_POLL,
            b_to_a_ops: MAX_COPY_OPS_PER_POLL,
            a_to_b_ret: Poll::Pending,
            wake: false,
        }
    }

    /// A round that ends because a stream or the copying failed: the timer does not matter then.
    pub open spec fn failed<E>(self, failure: CopyFailure<E>) -> RoundAction<E> {
        RoundAction::Return(
            RoundResult {
                result: Poll::Ready(Err(failure)),
                reset_timer: false,
                wake: self.wake,
            },
        )
    }
}

impl BidirectionalCopy {
    pub open spec fn wf(self) -> bool {
        &&& self.a_to_b.wf()
        &&& self.b_to_a.wf()
    }

    /// Whether the event can follow in a round.
    pub open spec fn expects<E>(self, round: Round, event: TransferEvent<E>) -> bool {
        match round.direction {
            Direction::AToB => self.a_to_b.expects(event),
            Direction::BToA => self.b_to_a.expects(event),
        }
    }

    /// Goes on with the second direction. Its end is the end of the round.
    pub open spec fn driven_back<E>(self, round: Round, event: TransferEvent<E>) -> (
        BidirectionalCopy,
        Round,
        RoundAction<E>,
    ) {
        let (b_to_a, action) = self.b_to_a.transferred(event, round.b_to_a_ops);
        let copy = BidirectionalCopy { b_to_a, ..self };
        let round = Round {
            made_progress: round.made_progress || self.b_to_a.progresses(event),
            b_to_a_ops: self.b_to_a.ops_after(event, round.b_to_a_ops),
            wake: round.wake || action is Yield,
            ..round
        };
        match action {
            TransferAction::Request(request) => (
                copy,
                round,
                RoundAction::Request(Direction::BToA, request),
            ),
            TransferAction::Fail(failure) => (copy, round, round.failed(failure)),
            _ => (
                copy,
                round,
                RoundAction::Return(
                    RoundResult {
                        result: both_done(round.a_to_b_ret, action.finished()),
                        reset_timer: round.made_progress,
                        wake: round.wake,
                    },
                ),
            ),
        }
    }

    /// Goes on with a round. Where the first direction is done for now, the second one starts.
    pub open spec fn driven<E>(self, round: Round, event: TransferEvent<E>) -> (
        BidirectionalCopy,
        Round,
        RoundAction<E>,
    ) {
        match round.direction {
            Direction::BToA => self.driven_back(round, event),
            Direction::AToB => {
                let (a_to_b, action) = self.a_to_b.transferred(event, round.a_to_b_ops);
                let copy = BidirectionalCopy { a_to_b, ..self };
                let round = Round {
                    made_progress: round.made_progress || self.a_to_b.progresses(event),
                    a_to_b_ops: self.a_to_b.ops_after(event, round.a_to_b_ops),
                    wake: round.wake || action is Yield,
                    ..round
                };
                match action {
                    TransferAction::Request(request) => (
                        copy,
                        round,
                        RoundAction::Request(Direction::AToB, request),
                    ),
                    TransferAction::Fail(failure) => (copy, round, round.failed(failure)),
                    _ => copy.driven_back(
                        Round {
                            direction: Direction::BToA,
                            a_to_b_ret: action.finished(),
                            ..round
                        },
                        TransferEvent::Start,
                    ),
                }
            },
        }
    }

    /// What a round starts with. An idle timer that has fired ends the copy.
    pub open spec fn begun<E>(self, timer_fired: bool) -> (
        BidirectionalCopy,
        Round,
        RoundAction<E>,
    ) {
        if timer_fired {
            (self, Round::fresh(), Round::fresh().failed(CopyFailure::Copy(timed_out())))
        } else {
            self.driven(Round::fresh(), TransferEvent::Start)
        }
    }

    /// Goes on with the second direction.
    fn drive_back<E>(&mut self, round: &mut Round, event: TransferEvent<E>) -> (action: RoundAction<
        E,
    >)
        requires
            old(self).wf(),
            old(self).b_to_a.expects(event),
            old(round).direction is BToA,
            old(round).wf(),
        ensures
            (*final(self), *final(round), action) == old(self).driven_back(*old(round), event),
            final(self).wf(),
            action matches RoundAction::Request(direction, _) ==> final(round).wf() && direction
                == final(round).direction,
    {
        let action = transfer_one_direction(
            &mut self.b_to_a,
            event,
            &mut round.made_progress,
            &mut round.b_to_a_ops,
        );
        match action {
            TransferAction::Request(request) => RoundAction::Request(Direction::BToA, request),
            TransferAction::Fail(failure) => RoundAction::Return(
                RoundResult {
                    result: Poll::Ready(Err(failure)),
                    reset_timer: false,
                    wake: round.wake,
                },
            ),
            TransferAction::Yield => {
                round.wake = true;
                RoundAction::Return(
                    RoundResult {
                        result: Poll::Pending,
                        reset_timer: round.made_progress,
                        wake: true,
                    },
                )
            },
            TransferAction::Park => RoundAction::Return(
                RoundResult {
                    result: Poll::Pending,
                    reset_timer: round.made_progress,
                    wake: round.wake,
                },
            ),
            TransferAction::Finished(b_to_a) => {
                let result = match round.a_to_b_ret {
                    Poll::Ready(a_to_b) => Poll::Ready(Ok((a_to_b, b_to_a))),
                    Poll::Pending => Poll::Pending,
                };
                RoundAction::Return(
                    RoundResult { result, reset_timer: round.made_progress, wake: round.wake },
                )
            },
        }
    }

    /// Goes on with a round, with what came of the operation that it asked for last.
    pub fn drive<E>(&mut self, round: &mut Round, event: TransferEvent<E>) -> (action: RoundAction<
        E,
    >)
        requires
            old(self).wf(),
            old(round).wf(),
            old(self).expects(*old(round), event),
        ensures
            (*final(self), *final(round), action) == old(self).driven(*old(round), event),
            final(self).wf(),
            old(round).tells(*old(self)) ==> final(round).tells(*final(self)),
            action matches RoundAction::Request(direction, _) ==> final(round).wf() && direction
                == final(round).direction,
    {
        match round.direction {
            Direction::BToA => self.drive_back(round, event),
            Direction::AToB => {
                let action = transfer_one_direction(
                    &mut self.a_to_b,
                    event,
                    &mut round.made_progress,
                    &mut round.a_to_b_ops,
                );
                match action {
                    TransferAction::Request(request) => {
                        return RoundAction::Request(Direction::AToB, request);
                    },
                    TransferAction::Fail(failure) => {
                        return RoundAction::Return(
                            RoundResult {
                                result: Poll::Ready(Err(failure)),
                                reset_timer: false,
                                wake: round.wake,
                            },
                        );
                    },
                    TransferAction::Yield => {
                        round.wake = true;
                        round.a_to_b_ret = Poll::Pending;
                    },
                    TransferAction::Park => {
                        round.a_to_b_ret = Poll::Pending;
                    },
                    TransferAction::Finished(count) => {
                        round.a_to_b_ret = Poll::Ready(count);
                    },
                }
                round.direction = Direction::BToA;
                self.drive_back(round, TransferEvent::Start)
            },
        }
    }

    /// Starts a round, with whether the idle timer has fired.
    pub fn begin<E>(&mut self, timer_fired: bool) -> (begun: (Round, RoundAction<E>))
        requires
            old(self).wf(),
        ensures
            (*final(self), begun.0, begun.1) == old(self).begun::<E>(timer_fired),
            final(self).wf(),
            begun.0.tells(*final(self)),
            begun.1 matches RoundAction::Request(direction, _) ==> begun.0.wf() && direction
                == begun.0.direction,
    {
        let mut round = Round {
            direction: Direction::AToB,
            made_progress: false,
            a_to_b_ops: MAX_COPY_OPS_PER_POLL,
            b_to_a_ops: MAX_COPY_OPS_PER_POLL,
            a_to_b_ret: Poll::Pending,
            wake: false,
        };
        if timer_fired {
            let result = RoundResult {
                result: Poll::Ready(Err(CopyFailure::Copy(timeout_error()))),
                reset_timer: false,
                wake: false,
            };
            return (round, RoundAction::Return(result));
        }
        let action = self.drive(&mut round, TransferEvent::Start);
        (round, action)
    }
}

/// Whether a direction has not moved anything yet, and has a buffer of this size.
pub open spec fn is_new_transfer(state: TransferState, buf_size: usize) -> bool {
    state matches TransferState::Running(buffer) && !buffer.read_done && !buffer.need_flush
        && buffer.pos == 0 && buffer.cap == 0 && buffer.amt == 0 && buffer.buf@ == Seq::new(
        buf_size as nat,
        |i: int| 0u8,
    )
}

/// Prepares a copy with an idle timeout of so many nanoseconds and a buffer of the given size each
/// way. None of them can be zero.
pub fn copy_bidirectional_with_timeout_and_sizes(
    timeout_nanos: u128,
    a_to_b_buf_size: usize,
    b_to_a_buf_size: usize,
) -> (prepared: Result<BidirectionalCopy, CopyError>)
    ensures
        if timeout_nanos == 0 {
            prepared == Err::<BidirectionalCopy, _>(timed_out())
        } else if a_to_b_buf_size == 0 || b_to_a_buf_size == 0 {
            prepared == Err::<BidirectionalCopy, _>(no_buffer())
        } else {
            prepared matches Ok(copy) && is_new_transfer(copy.a_to_b, a_to_b_buf_size)
                && is_new_transfer(copy.b_to_a, b_to_a_buf_size) && copy.wf()
        },
{
    if timeout_nanos == 0 {
        return Err(timeout_error());
    }
    if a_to_b_buf_size == 0 || b_to_a_buf_size == 0 {
        return Err(invalid_buffer_size_error());
    }
    Ok(
        BidirectionalCopy {
            a_to_b: TransferState::Running(CopyBuffer::new(a_to_b_buf_size)),
            b_to_a: TransferState::Running(CopyBuffer::new(b_to_a_buf_size)),
        },
    )
}

/// Prepares a copy with an idle timeout of so many nanoseconds, which cannot be zero, and buffers
/// of the usual size.
pub fn copy_bidirectional_with_timeout(timeout_nanos: u128) -> (prepared: Result<
    BidirectionalCopy,
    CopyError,
>)
    ensures
        if timeout_nanos == 0 {
            prepared == Err::<BidirectionalCopy, _>(timed_out())
        } else {
            prepared matches Ok(copy) && is_new_transfer(copy.a_to_b, DEFAULT_COPY_BUF_SIZE)
                && is_new_transfer(copy.b_to_a, DEFAULT_COPY_BUF_SIZE) && copy.wf()
        },
{
    copy_bidirectional_with_timeout_and_sizes(
        timeout_nanos,
        DEFAULT_COPY_BUF_SIZE,
        DEFAULT_COPY_BUF_SIZE,
    )
}

/// Another name for [`copy_bidirectional_with_timeout`].
pub fn copy_bidirectional_with_idle_timeout(timeout_nanos: u128) -> (prepared: Result<
    BidirectionalCopy,
    CopyError,
>)
    ensures
        if timeout_nanos == 0 {
            prepared == Err::<BidirectionalCopy, _>(timed_out())
        } else {
            prepared matches Ok(copy) && is_new_transfer(copy.a_to_b, DEFAULT_COPY_BUF_SIZE)
                && is_new_transfer(copy.b_to_a, DEFAULT_COPY_BUF_SIZE) && copy.wf()
        },
{
    copy_bidirectional_with_timeout(timeout_nanos)
}

impl CopyBuffer {
    /// The bytes that the event reports as read.
    pub open spec fn read_by<E>(self, event: CopyEvent<E>) -> Seq<u8> {
        match event {
            CopyEvent::Filled(Poll::Ready(Ok(len))) => self.buf@.subrange(
                self.cap as int,
                len as int,
            ),
            CopyEvent::FilledWhileBlocked(Poll::Ready(Ok(len))) => self.buf@.subrange(
                self.cap as int,
                len as int,
            ),
            _ => Seq::empty(),
        }
    }

    /// The bytes that the event reports as written.
    pub open spec fn written_by<E>(self, event: CopyEvent<E>) -> Seq<u8> {
        match event {
            CopyEvent::Wrote(Poll::Ready(Ok(n))) => self.buf@.subrange(
                self.pos as int,
                self.pos + n,
            ),
            _ => Seq::empty(),
        }
    }

    /// Whether a reader takes back nothing of what is filled already.
    pub open spec fn keeps_filled<E>(self, event: CopyEvent<E>) -> bool {
        match event {
            CopyEvent::Filled(Poll::Ready(Ok(len))) => self.cap <= len,
            CopyEvent::FilledWhileBlocked(Poll::Ready(Ok(len))) => self.cap <= len,
            _ => true,
        }
    }

    /// Whether this is `other` but for bytes behind what is filled, which a reader may write.
    pub open spec fn same_but_spare(self, other: CopyBuffer) -> bool {
        &&& self.read_done == other.read_done
        &&& self.need_flush == other.need_flush
        &&& self.pos == other.pos
        &&& self.cap == other.cap
        &&& self.amt == other.amt
        &&& self.buf@.len() == other.buf@.len()
        &&& self.buf@.take(self.cap as int) == other.buf@.take(other.cap as int)
    }
}

/// Whether the event is an answer to the action: the outcome of the operation asked for, or the
/// start of the next round.
pub open spec fn answers<E>(action: CopyAction<E>, event: CopyEvent<E>) -> bool {
    match action {
        CopyAction::Request(CopyRequest::Fill) => event is Filled,
        CopyAction::Request(CopyRequest::FillWhileBlocked) => event is FilledWhileBlocked,
        CopyAction::Request(CopyRequest::Write) => event is Wrote,
        CopyAction::Request(CopyRequest::FlushIdle) => event is FlushedIdle,
        CopyAction::Request(CopyRequest::FlushAtEnd) => event is FlushedAtEnd,
        CopyAction::Yield | CopyAction::Park => event is Start,
        CopyAction::Done(_) | CopyAction::Fail(_) => false,
    }
}

/// One call in the course of a copy: the buffer as the call finds it, what it is told, and how many
/// operations are left.
pub struct CopyStep<E> {
    pub before: CopyBuffer,
    pub event: CopyEvent<E>,
    pub ops: usize,
}

impl<E> CopyStep<E> {
    pub open spec fn after(self) -> CopyBuffer {
        self.before.copied(self.event, self.ops).0
    }

    pub open spec fn action(self) -> CopyAction<E> {
        self.before.copied(self.event, self.ops).1
    }

    pub open spec fn is_valid(self) -> bool {
        &&& self.before.wf()
        &&& self.before.expects(self.event)
        &&& self.before.keeps_filled(self.event)
        &&& self.before.spends(self.event) ==> self.ops > 0
    }
}

/// In one call nothing is lost, made up or put out of order: what was pending and what is read is
/// what is written and what is pending then. And the count grows by what is written.
pub proof fn law_call_copies_faithfully<E>(step: CopyStep<E>)
    requires
        step.is_valid(),
    ensures
        step.after().wf(),
        step.before.pending() + step.before.read_by(step.event) == step.before.written_by(
            step.event,
        ) + step.after().pending(),
        step.after().amt == step.before.amt + step.before.written_by(step.event).len(),
{
    let before = step.before;
    let absorbed = before.absorbed(step.event);
    assert(before.pending() + before.read_by(step.event) =~= before.written_by(step.event)
        + absorbed.pending());
    if step.after().pos != absorbed.pos || step.after().cap != absorbed.cap {
        assert(absorbed.pending() =~= step.after().pending());
    }
}

/// One call in the course of a direction: where the direction stands when the call is made, what
/// the call is told, and how many operations are left.
pub struct TransferCall<E> {
    pub before: TransferState,
    pub event: TransferEvent<E>,
    pub ops: usize,
}

impl TransferState {
    /// Whether this is `other` but for bytes behind what is filled, which a reader may write.
    pub open spec fn same_but_spare(self, other: TransferState) -> bool {
        match (self, other) {
            (TransferState::Running(a), TransferState::Running(b)) => a.same_but_spare(b),
            _ => self == other,
        }
    }
}

impl<E> TransferCall<E> {
    pub open spec fn after(self) -> TransferState {
        self.before.transferred(self.event, self.ops).0
    }

    pub open spec fn action(self) -> TransferAction<E> {
        self.before.transferred(self.event, self.ops).1
    }

    pub open spec fn is_valid(self) -> bool {
        &&& self.before.wf()
        &&& self.before.expects(self.event)
        &&& self.before.spends(self.event) ==> self.ops > 0
        &&& self.before matches TransferState::Running(buffer) ==> buffer.keeps_filled(
            TransferState::copy_event(self.event),
        )
    }

    /// The bytes that the call reports as read.
    pub open spec fn read(self) -> Seq<u8> {
        match self.before {
            TransferState::Running(buffer) => buffer.read_by(TransferState::copy_event(self.event)),
            _ => Seq::empty(),
        }
    }

    /// The bytes that the call reports as written.
    pub open spec fn written(self) -> Seq<u8> {
        match self.before {
            TransferState::Running(buffer) => buffer.written_by(
                TransferState::copy_event(self.event),
            ),
            _ => Seq::empty(),
        }
    }
}

/// Whether the event is an answer to the action: the outcome of the operation asked for, or the
/// start of the next round.
pub open spec fn answers_transfer<E>(action: TransferAction<E>, event: TransferEvent<E>) -> bool {
    match action {
        TransferAction::Request(TransferRequest::Copy(request)) => event matches TransferEvent::Copy(
            event,
        ) && answers(CopyAction::Request(request), event),
        TransferAction::Request(TransferRequest::Shutdown) => event is ShutDown,
        TransferAction::Yield | TransferAction::Park | TransferAction::Finished(_) =>
            event is Start,
        TransferAction::Fail(_) => false,
    }
}

/// Whether these calls are the course of a direction from its start: each finds what the one before
/// it left, and answers it.
pub open spec fn is_course<E>(calls: Seq<TransferCall<E>>) -> bool
    decreases calls.len(),
{
    calls.len() > 0 ==> {
        &&& is_course(calls.drop_last())
        &&& calls.last().is_valid()
        &&& if calls.len() == 1 {
            &&& calls.last().event is Start
            &&& calls.last().before matches TransferState::Running(buffer) && is_new_transfer(
                calls.last().before,
                buffer.buf@.len() as usize,
            )
        } else {
            let previous = calls[calls.len() - 2];
            &&& calls.last().before.same_but_spare(previous.after())
            &&& answers_transfer(previous.action(), calls.last().event)
        }
    }
}

/// All the bytes read in these calls.
pub open spec fn all_read<E>(calls: Seq<TransferCall<E>>) -> Seq<u8>
    decreases calls.len(),
{
    if calls.len() == 0 {
        Seq::empty()
    } else {
        all_read(calls.drop_last()) + calls.last().read()
    }
}

/// All the bytes written in these calls.
pub open spec fn all_written<E>(calls: Seq<TransferCall<E>>) -> Seq<u8>
    decreases calls.len(),
{
    if calls.len() == 0 {
        Seq::empty()
    } else {
        all_written(calls.drop_last()) + calls.last().written()
    }
}

/// What holds of a direction at any time: as long as it copies, all that is read is all that is
/// written and what is pending, in that order, and the count is of what is written; and then all
/// that is read is written, and the count is final.
pub open spec fn is_faithful<E>(calls: Seq<TransferCall<E>>, state: TransferState) -> bool {
    match state {
        TransferState::Running(buffer) => {
            &&& all_read(calls) == all_written(calls) + buffer.pending()
            &&& buffer.amt == all_written(calls).len()
        },
        TransferState::ShuttingDown(count) | TransferState::Done(count) => {
            &&& all_read(calls) == all_written(calls)
            &&& count == all_written(calls).len()
        },
    }
}

proof fn lemma_same_pending(a: CopyBuffer, b: CopyBuffer)
    requires
        a.same_but_spare(b),
        a.wf(),
    ensures
        a.pending() == b.pending(),
{
    assert forall|i: int| a.pos <= i < a.cap implies a.buf@[i] == b.buf@[i] by {
        assert(a.buf@.take(a.cap as int)[i] == b.buf@.take(b.cap as int)[i]);
    }
    assert(a.pending() =~= b.pending());
}

/// Over the whole course of a direction, nothing is lost, made up or put out of order.
pub proof fn law_course_copies_faithfully<E>(calls: Seq<TransferCall<E>>)
    requires
        calls.len() > 0,
        is_course(calls),
    ensures
        is_faithful(calls, calls.last().after()),
        calls.last().after().wf(),
    decreases calls.len(),
{
    let last = calls.last();
    let rest = calls.drop_last();
    if calls.len() == 1 {
        assert(all_read(rest) =~= Seq::empty());
        assert(all_written(rest) =~= Seq::empty());
    } else {
        law_course_copies_faithfully(rest);
        assert(rest.last() == calls[calls.len() - 2]);
    }
    let read = all_read(rest);
    let written = all_written(rest);
    if let TransferState::Running(buffer) = last.before {
        let step = CopyStep {
            before: buffer,
            event: TransferState::copy_event(last.event),
            ops: last.ops,
        };
        law_call_copies_faithfully(step);
        if calls.len() == 1 {
            assert(buffer.pending() =~= Seq::empty());
            assert(read =~= written + buffer.pending());
        } else {
            lemma_same_pending(buffer, rest.last().after()->Running_0);
        }
        assert((written + buffer.pending()) + last.read() =~= written + (buffer.pending()
            + last.read()));
        assert(written + (last.written() + step.after().pending()) =~= (written + last.written())
            + step.after().pending());
        if last.after() !is Running {
            let previous = rest.last();
            assert(previous.action() == TransferAction::<E>::Request(
                TransferRequest::Copy(CopyRequest::FlushAtEnd),
            ));
            assert(step.after().pending() =~= Seq::empty());
            assert((written + last.written()) + step.after().pending() =~= written
                + last.written());
        }
    } else {
        assert(read + last.read() =~= read);
        assert(written + last.written() =~= written);
    }
}

/// A direction that is finished has written exactly what it has read, and reports how many bytes
/// that were.
pub proof fn law_finished_means_all_is_copied<E>(calls: Seq<TransferCall<E>>, count: u64)
    requires
        calls.len() > 0,
        is_course(calls),
        calls.last().action() == TransferAction::<E>::Finished(count),
    ensures
        all_written(calls) == all_read(calls),
        count == all_read(calls).len(),
{
    law_course_copies_faithfully(calls);
    law_count_is_final(calls.last().before, calls.last().event, calls.last().ops);
}

impl<E> TransferCall<E> {
    /// Whether the call reports a read that added nothing: the reader is at its end.
    pub open spec fn finds_end(self) -> bool {
        self.before matches TransferState::Running(buffer) && match TransferState::copy_event(
            self.event,
        ) {
            CopyEvent::Filled(Poll::Ready(Ok(len))) => len == buffer.cap,
            CopyEvent::FilledWhileBlocked(Poll::Ready(Ok(len))) => len == buffer.cap,
            _ => false,
        }
    }
}

/// Whether the reader came to its end in the `i`th of these calls, and nothing was read after it.
pub open spec fn read_ends_at<E>(calls: Seq<TransferCall<E>>, i: int) -> bool {
    &&& calls[i].finds_end()
    &&& forall|j: int| i < j < calls.len() ==> (#[trigger] calls[j]).read().len() == 0
}

/// A direction that reads no more has come to the end of its reader.
proof fn lemma_read_ends<E>(calls: Seq<TransferCall<E>>) -> (i: int)
    requires
        calls.len() > 0,
        is_course(calls),
        calls.last().after() matches TransferState::Running(buffer) ==> buffer.read_done,
    ensures
        0 <= i < calls.len(),
        read_ends_at(calls, i),
        calls.last().after() !is Running ==> i < calls.len() - 1,
    decreases calls.len(),
{
    let last = calls.last();
    if last.finds_end() {
        calls.len() - 1
    } else {
        let rest = calls.drop_last();
        assert(calls.len() > 1);
        assert(rest.last() == calls[calls.len() - 2]);
        let i = lemma_read_ends(rest);
        assert(rest[i] == calls[i]);
        assert forall|j: int| i < j < calls.len() implies (#[trigger] calls[j]).read().len()
            == 0 by {
            if j < rest.len() {
                assert(rest[j] == calls[j]);
            }
        }
        i
    }
}

/// A direction that has turned from copying to shutting down has come to the end of its reader: an
/// earlier call reports a read that added nothing, and nothing was read after it.
pub proof fn law_copies_to_the_end<E>(calls: Seq<TransferCall<E>>)
    requires
        calls.len() > 0,
        is_course(calls),
        calls.last().after() !is Running,
    ensures
        exists|i: int| 0 <= i < calls.len() - 1 && read_ends_at(calls, i),
        calls.last().before matches TransferState::Running(buffer) ==> buffer.read_done,
{
    let i = lemma_read_ends(calls);
    if calls.last().before is Running {
        let rest = calls.drop_last();
        assert(calls.len() > 1);
        assert(rest.last() == calls[calls.len() - 2]);
        assert(rest.last().action() == TransferAction::<E>::Request(
            TransferRequest::Copy(CopyRequest::FlushAtEnd),
        ));
    }
}

/// A direction's round ends when, and only when, its operations are used up and others are to run;
/// each operation that was ready uses one.
pub proof fn law_budget_ends_a_round<E>(step: CopyStep<E>)
    requires
        step.is_valid(),
        step.ops > 0,
    ensures
        step.before.ops_after(step.event, step.ops) <= step.ops,
        step.action() is Yield <==> step.before.ops_after(step.event, step.ops) == 0,
{
}

/// How near a round is to its end, by what comes next in it: at most so many more operations on
/// the streams are asked for.
pub open spec fn round_measure<E>(action: CopyAction<E>, ops: usize) -> nat {
    let rank: nat = match action {
        CopyAction::Request(CopyRequest::Fill) => 3,
        CopyAction::Request(CopyRequest::Write) => 2,
        CopyAction::Request(_) => 1,
        _ => 0,
    };
    if rank == 0 {
        0
    } else {
        4 * ops as nat + rank
    }
}

/// Every round ends: with each answer it is nearer to its end, even where each stream is always
/// ready.
pub proof fn law_rounds_end<E>(action: CopyAction<E>, step: CopyStep<E>)
    requires
        step.is_valid(),
        action is Request,
        answers(action, step.event),
    ensures
        round_measure(
            step.action(),
            step.before.ops_after(step.event, step.ops),
        ) < round_measure(action, step.ops),
{
}

/// Once a direction is copied, its count stays as it is, through the shutdown and ever after.
pub proof fn law_count_is_final<E>(state: TransferState, event: TransferEvent<E>, ops: usize)
    ensures
        ({
            let (after, action) = state.transferred(event, ops);
            &&& state matches TransferState::ShuttingDown(count) ==> after
                == TransferState::ShuttingDown(count) || after == TransferState::Done(count)
            &&& state matches TransferState::Done(count) ==> after == state
            &&& action matches TransferAction::Finished(count) ==> after == TransferState::Done(
                count,
            )
            &&& after is ShuttingDown && state is Running ==> (state->Running_0.copied(
                TransferState::copy_event(event),
                ops,
            ).1 matches CopyAction::Done(count) && after == TransferState::ShuttingDown(count))
        }),
{
}

/// A direction that is done stays so however often it is asked: each time it answers with its
/// count, asks nothing of the streams, and uses up none of the operations, not even where none
/// are left.
pub proof fn law_finished_direction_rests<E>(count: u64, event: TransferEvent<E>, ops: usize)
    ensures
        ({
            let state = TransferState::Done(count);
            &&& state.transferred(event, ops) == (state, TransferAction::<E>::Finished(count))
            &&& state.ops_after(event, ops) == ops
            &&& !state.progresses(event)
        }),
{
}

/// A round knows of the first direction what is so: from its start, and after each call.
pub proof fn law_rounds_know_the_first_direction<E>(
    copy: BidirectionalCopy,
    timer_fired: bool,
    round: Round,
    event: TransferEvent<E>,
)
    ensures
        copy.begun::<E>(timer_fired).1.tells(copy.begun::<E>(timer_fired).0),
        round.tells(copy) ==> copy.driven(round, event).1.tells(copy.driven(round, event).0),
{
}

impl BidirectionalCopy {
    /// Whether this is `other` but for bytes behind what is filled, which readers may write.
    pub open spec fn same_but_spare(self, other: BidirectionalCopy) -> bool {
        &&& self.a_to_b.same_but_spare(other.a_to_b)
        &&& self.b_to_a.same_but_spare(other.b_to_a)
    }
}

/// One call in a round that has started: the copy and the round as the call finds them, and what
/// it is told.
pub struct RoundCall<E> {
    pub before: BidirectionalCopy,
    pub round: Round,
    pub event: TransferEvent<E>,
}

/// What these calls, the whole of a round from its start, leave: the copy, the round, and what
/// comes next.
pub open spec fn round_after<E>(start: BidirectionalCopy, calls: Seq<RoundCall<E>>) -> (
    BidirectionalCopy,
    Round,
    RoundAction<E>,
) {
    if calls.len() == 0 {
        start.begun(false)
    } else {
        calls.last().before.driven(calls.last().round, calls.last().event)
    }
}

/// Whether these calls are a round from its start: each finds what the one before it left, and goes
/// on with it.
pub open spec fn is_round<E>(start: BidirectionalCopy, calls: Seq<RoundCall<E>>) -> bool
    decreases calls.len(),
{
    calls.len() > 0 ==> {
        let (copy, round, action) = round_after(start, calls.drop_last());
        &&& is_round(start, calls.drop_last())
        &&& action is Request
        &&& calls.last().before.same_but_spare(copy)
        &&& calls.last().round == round
    }
}

proof fn lemma_round_tells<E>(start: BidirectionalCopy, calls: Seq<RoundCall<E>>)
    requires
        is_round(start, calls),
    ensures
        round_after(start, calls).1.tells(round_after(start, calls).0),
    decreases calls.len(),
{
    if calls.len() > 0 {
        lemma_round_tells(start, calls.drop_last());
    }
}

/// A round that reports both counts has both directions done with these counts; and one that has
/// both directions done reports them, unless it gives up.
pub proof fn law_result_tells_both_counts<E>(start: BidirectionalCopy, calls: Seq<RoundCall<E>>)
    requires
        is_round(start, calls),
    ensures
        ({
            let (after, _, action) = round_after(start, calls);
            action matches RoundAction::Return(returned) ==> {
                &&& returned.result matches Poll::Ready(Ok((a, b))) ==> after.a_to_b
                    == TransferState::Done(a) && after.b_to_a == TransferState::Done(b)
                &&& after.a_to_b is Done && after.b_to_a is Done && !gives_up(action)
                    ==> returned.result is Ready
            }
        }),
{
    lemma_round_tells(start, calls);
    if calls.len() > 0 {
        lemma_round_tells(start, calls.drop_last());
    }
}

/// Whether a round's action gives up on the copy.
pub open spec fn gives_up<E>(action: RoundAction<E>) -> bool {
    action matches RoundAction::Return(returned) && returned.result matches Poll::Ready(Err(_))
}

/// The idle timer starts over exactly where a round has made progress in either direction, unless
/// the round gives up on the copy.
pub proof fn law_progress_restarts_idle_timer<E>(
    copy: BidirectionalCopy,
    round: Round,
    event: TransferEvent<E>,
)
    ensures
        ({
            let (_, after, action) = copy.driven(round, event);
            let progress = match round.direction {
                Direction::AToB => copy.a_to_b.progresses(event),
                Direction::BToA => copy.b_to_a.progresses(event),
            };
            &&& after.made_progress == (round.made_progress || progress)
            &&& action matches RoundAction::Return(returned) ==> returned.reset_timer
                == (after.made_progress && !gives_up(action))
        }),
{
}

/// Whether a round's action gives up on the copy because nothing has moved for too long.
pub open spec fn times_out<E>(action: RoundAction<E>) -> bool {
    action matches RoundAction::Return(returned) && returned.result matches Poll::Ready(
        Err(CopyFailure::Copy(error)),
    ) && error.kind is TimedOut
}

/// An idle timer that has fired ends the copy with the error of a timeout, whatever the streams
/// have. One that has not never does: a round does not give up as it starts, and later only where
/// a stream fails, or a writer takes nothing.
pub proof fn law_only_the_timer_times_out<E>(
    copy: BidirectionalCopy,
    timer_fired: bool,
    round: Round,
    event: TransferEvent<E>,
)
    ensures
        timer_fired ==> (copy.begun::<E>(timer_fired).2 matches RoundAction::Return(returned)
            && returned.result == Poll::Ready(
            Err::<(u64, u64), CopyFailure<E>>(CopyFailure::Copy(timed_out())),
        )),
        !timer_fired ==> !gives_up(copy.begun::<E>(timer_fired).2),
        !times_out(copy.driven(round, event).2),
        copy.driven(round, event).2 matches RoundAction::Return(returned) ==> (
        returned.result matches Poll::Ready(Err(failure)) ==> failure is Io || failure
            == CopyFailure::<E>::Copy(write_zero())),
{
}

/// One call in the run of a copy.
pub enum RunCall<E> {
    /// A round starts.
    Begin { before: BidirectionalCopy, timer_fired: bool },
    /// A round goes on.
    Drive { before: BidirectionalCopy, round: Round, event: TransferEvent<E> },
}

impl BidirectionalCopy {
    /// One of the directions.
    pub open spec fn direction(self, direction: Direction) -> TransferState {
        match direction {
            Direction::AToB => self.a_to_b,
            Direction::BToA => self.b_to_a,
        }
    }
}

impl<E> TransferAction<E> {
    /// Whether a direction rests with this, until the next round.
    pub open spec fn rests(self) -> bool {
        self is Yield || self is Park || self is Finished
    }
}

impl<E> RunCall<E> {
    /// The copy as the call finds it.
    pub open spec fn before(self) -> BidirectionalCopy {
        match self {
            RunCall::Begin { before, .. } => before,
            RunCall::Drive { before, .. } => before,
        }
    }

    /// What the call leaves: the copy, the round, and what comes next.
    pub open spec fn result(self) -> (BidirectionalCopy, Round, RoundAction<E>) {
        match self {
            RunCall::Begin { before, timer_fired } => before.begun(timer_fired),
            RunCall::Drive { before, round, event } => before.driven(round, event),
        }
    }

    /// What the call has a direction do, in the round that it is in: nothing, or one call of it.
    pub open spec fn calls_of(self, direction: Direction) -> Seq<TransferCall<E>> {
        match self {
            RunCall::Begin { before, timer_fired } => if timer_fired {
                Seq::empty()
            } else {
                round_calls(before, Round::fresh(), TransferEvent::Start, direction)
            },
            RunCall::Drive { before, round, event } => round_calls(before, round, event, direction),
        }
    }
}

/// What going on with a round has a direction do: the one that the round is at is told the event,
/// and the second one starts where the first comes to rest.
pub open spec fn round_calls<E>(
    copy: BidirectionalCopy,
    round: Round,
    event: TransferEvent<E>,
    direction: Direction,
) -> Seq<TransferCall<E>> {
    let first = TransferCall { before: copy.a_to_b, event, ops: round.a_to_b_ops };
    match (round.direction, direction) {
        (Direction::AToB, Direction::AToB) => seq![first],
        (Direction::AToB, Direction::BToA) => if first.action().rests() {
            seq![
                TransferCall {
                    before: copy.b_to_a,
                    event: TransferEvent::Start,
                    ops: round.b_to_a_ops,
                },
            ]
        } else {
            Seq::empty()
        },
        (Direction::BToA, Direction::AToB) => Seq::empty(),
        (Direction::BToA, Direction::BToA) => seq![
            TransferCall { before: copy.b_to_a, event, ops: round.b_to_a_ops },
        ],
    }
}

/// Whether `call` can be the next one after `previous`: it starts another round once that has
/// ended without a result, or brings the outcome of the operation asked for. Only the direction
/// that asked for it may find other bytes behind what is filled.
pub open spec fn follows<E>(previous: RunCall<E>, call: RunCall<E>) -> bool {
    let (copy, round, action) = previous.result();
    match action {
        RoundAction::Return(returned) => {
            &&& returned.result is Pending
            &&& call is Begin
            &&& call.before() == copy
        },
        RoundAction::Request(direction, request) => {
            &&& call matches RunCall::Drive { before, round: resumed, event } && resumed == round
                && answers_transfer(TransferAction::Request(request), event) && before.direction(
                direction,
            ).same_but_spare(copy.direction(direction)) && before.direction(direction).wf()
                && before.expects(round, event) && (before.direction(
                direction,
            ) matches TransferState::Running(buffer) ==> buffer.keeps_filled(
                TransferState::copy_event(event),
            ))
            &&& direction is AToB ==> call.before().b_to_a == copy.b_to_a
            &&& direction is BToA ==> call.before().a_to_b == copy.a_to_b
        },
    }
}

/// Whether these calls are the run of a copy from its start, over any number of rounds.
pub open spec fn is_run<E>(calls: Seq<RunCall<E>>) -> bool
    decreases calls.len(),
{
    calls.len() > 0 ==> {
        &&& is_run(calls.drop_last())
        &&& if calls.len() == 1 {
            &&& calls.last() is Begin
            &&& is_untouched(calls.last().before().a_to_b)
            &&& is_untouched(calls.last().before().b_to_a)
        } else {
            follows(calls[calls.len() - 2], calls.last())
        }
    }
}

/// Whether a direction has not moved anything yet, and has a buffer.
pub open spec fn is_untouched(state: TransferState) -> bool {
    &&& state.wf()
    &&& state matches TransferState::Running(buffer) && is_new_transfer(
        state,
        buffer.buf@.len() as usize,
    )
}

/// All that a run has a direction do.
pub open spec fn calls_in<E>(calls: Seq<RunCall<E>>, direction: Direction) -> Seq<TransferCall<E>>
    decreases calls.len(),
{
    if calls.len() == 0 {
        Seq::empty()
    } else {
        calls_in(calls.drop_last(), direction) + calls.last().calls_of(direction)
    }
}

/// Whether `calls` are the course of a direction that stands at `state`, with `request` as what it
/// has asked for and has no outcome of, if anything.
spec fn is_course_to<E>(
    calls: Seq<TransferCall<E>>,
    state: TransferState,
    request: Option<TransferRequest>,
) -> bool {
    &&& is_course(calls)
    &&& if calls.len() == 0 {
        is_untouched(state) && request is None
    } else {
        &&& calls.last().after() == state
        &&& state.wf()
        &&& match request {
            Some(request) => calls.last().action() == TransferAction::<E>::Request(request),
            None => calls.last().action().rests(),
        }
    }
}

proof fn lemma_course_grows<E>(
    calls: Seq<TransferCall<E>>,
    state: TransferState,
    request: Option<TransferRequest>,
    call: TransferCall<E>,
)
    requires
        is_course_to(calls, state, request),
        call.is_valid(),
        match request {
            Some(request) => {
                &&& call.before.same_but_spare(state)
                &&& answers_transfer(TransferAction::Request(request), call.event)
            },
            None => call.before == state && call.event is Start,
        },
    ensures
        is_course(calls.push(call)),
        calls.push(call).last() == call,
        call.after().wf(),
{
    let grown = calls.push(call);
    assert(grown.drop_last() =~= calls);
    if calls.len() > 0 {
        assert(grown[grown.len() - 2] == calls.last());
    }
}

/// What a direction has asked for and has no outcome of, if what comes next in the round is this.
spec fn asked<E>(action: RoundAction<E>, direction: Direction) -> Option<TransferRequest> {
    match action {
        RoundAction::Request(asking, request) if asking == direction => Some(request),
        _ => None,
    }
}

/// What holds at any time in a run: the calls of each direction are its course, up to where it
/// stands, and the round knows what is so.
spec fn run_holds<E>(calls: Seq<RunCall<E>>) -> bool {
    let (copy, round, action) = calls.last().result();
    let a_to_b = calls_in(calls, Direction::AToB);
    let b_to_a = calls_in(calls, Direction::BToA);
    &&& is_course(a_to_b)
    &&& is_course(b_to_a)
    &&& !gives_up(action) ==> {
        &&& is_course_to(a_to_b, copy.a_to_b, asked(action, Direction::AToB))
        &&& is_course_to(b_to_a, copy.b_to_a, asked(action, Direction::BToA))
        &&& round.tells(copy)
    }
    &&& action matches RoundAction::Request(direction, _) ==> {
        &&& direction == round.direction
        &&& round.wf()
    }
    &&& action is Return && !gives_up(action) ==> round.direction is BToA
}

/// Goes on with a round, from where both directions stand.
proof fn lemma_round_goes_on<E>(
    a_calls: Seq<TransferCall<E>>,
    b_calls: Seq<TransferCall<E>>,
    stands: BidirectionalCopy,
    a_request: Option<TransferRequest>,
    b_request: Option<TransferRequest>,
    copy: BidirectionalCopy,
    round: Round,
    event: TransferEvent<E>,
)
    requires
        is_course_to(a_calls, stands.a_to_b, a_request),
        is_course_to(b_calls, stands.b_to_a, b_request),
        round.wf(),
        round.tells(copy),
        round.direction is AToB ==> {
            &&& b_request is None
            &&& copy.b_to_a == stands.b_to_a
            &&& (TransferCall { before: copy.a_to_b, event, ops: round.a_to_b_ops }).is_valid()
            &&& match a_request {
                Some(request) => {
                    &&& copy.a_to_b.same_but_spare(stands.a_to_b)
                    &&& answers_transfer(TransferAction::Request(request), event)
                },
                None => copy.a_to_b == stands.a_to_b && event is Start,
            }
        },
        round.direction is BToA ==> {
            &&& a_request is None
            &&& copy.a_to_b == stands.a_to_b
            &&& (TransferCall { before: copy.b_to_a, event, ops: round.b_to_a_ops }).is_valid()
            &&& match b_request {
                Some(request) => {
                    &&& copy.b_to_a.same_but_spare(stands.b_to_a)
                    &&& answers_transfer(TransferAction::Request(request), event)
                },
                None => copy.b_to_a == stands.b_to_a && event is Start,
            }
        },
    ensures
        ({
            let (after, round_after, action) = copy.driven(round, event);
            let a_after = a_calls + round_calls(copy, round, event, Direction::AToB);
            let b_after = b_calls + round_calls(copy, round, event, Direction::BToA);
            &&& is_course(a_after)
            &&& is_course(b_after)
            &&& !gives_up(action) ==> {
                &&& is_course_to(a_after, after.a_to_b, asked(action, Direction::AToB))
                &&& is_course_to(b_after, after.b_to_a, asked(action, Direction::BToA))
                &&& round_after.tells(after)
            }
            &&& action matches RoundAction::Request(direction, _) ==> {
                &&& direction == round_after.direction
                &&& round_after.wf()
            }
            &&& action is Return && !gives_up(action) ==> round_after.direction is BToA
        }),
{
    let a_after = a_calls + round_calls(copy, round, event, Direction::AToB);
    let b_after = b_calls + round_calls(copy, round, event, Direction::BToA);
    match round.direction {
        Direction::AToB => {
            let first = TransferCall { before: copy.a_to_b, event, ops: round.a_to_b_ops };
            lemma_course_grows(a_calls, stands.a_to_b, a_request, first);
            assert(a_after =~= a_calls.push(first));
            if first.action().rests() {
                let second = TransferCall {
                    before: copy.b_to_a,
                    event: TransferEvent::<E>::Start,
                    ops: round.b_to_a_ops,
                };
                lemma_course_grows(b_calls, stands.b_to_a, b_request, second);
                assert(b_after =~= b_calls.push(second));
            } else {
                assert(b_after =~= b_calls);
            }
        },
        Direction::BToA => {
            let second = TransferCall { before: copy.b_to_a, event, ops: round.b_to_a_ops };
            lemma_course_grows(b_calls, stands.b_to_a, b_request, second);
            assert(b_after =~= b_calls.push(second));
            assert(a_after =~= a_calls);
        },
    }
}

proof fn lemma_run_holds<E>(calls: Seq<RunCall<E>>)
    requires
        calls.len() > 0,
        is_run(calls),
    ensures
        run_holds(calls),
    decreases calls.len(),
{
    let rest = calls.drop_last();
    let a_calls = calls_in(rest, Direction::AToB);
    let b_calls = calls_in(rest, Direction::BToA);
    if calls.len() == 1 {
        assert(a_calls =~= Seq::empty());
        assert(b_calls =~= Seq::empty());
    } else {
        lemma_run_holds(rest);
        assert(rest.last() == calls[calls.len() - 2]);
    }
    match calls.last() {
        RunCall::Begin { before, timer_fired } => {
            if timer_fired {
                assert(calls_in(calls, Direction::AToB) =~= a_calls);
                assert(calls_in(calls, Direction::BToA) =~= b_calls);
            } else {
                lemma_round_goes_on(
                    a_calls,
                    b_calls,
                    before,
                    None,
                    None,
                    before,
                    Round::fresh(),
                    TransferEvent::<E>::Start,
                );
            }
        },
        RunCall::Drive { before, round, event } => {
            let (stands, _, action) = rest.last().result();
            lemma_round_goes_on(
                a_calls,
                b_calls,
                stands,
                asked(action, Direction::AToB),
                asked(action, Direction::BToA),
                before,
                round,
                event,
            );
        },
    }
}

/// Over a whole run, whatever rounds it takes, what each direction does is its course from the
/// start: nothing that it has read is lost, made up or put out of order.
pub proof fn law_runs_keep_to_courses<E>(calls: Seq<RunCall<E>>, direction: Direction)
    requires
        calls.len() > 0,
        is_run(calls),
    ensures
        is_course(calls_in(calls, direction)),
        calls_in(calls, direction).len() > 0 ==> is_faithful(
            calls_in(calls, direction),
            calls_in(calls, direction).last().after(),
        ),
{
    lemma_run_holds(calls);
    if calls_in(calls, direction).len() > 0 {
        law_course_copies_faithfully(calls_in(calls, direction));
    }
}

/// A run that reports both counts has copied everything: in each direction the reader is at its
/// end, all that was read is written, in order, and the count is of just these bytes.
pub proof fn law_runs_copy_everything<E>(
    calls: Seq<RunCall<E>>,
    returned: RoundResult<E>,
    a: u64,
    b: u64,
)
    requires
        calls.len() > 0,
        is_run(calls),
        calls.last().result().2 == RoundAction::Return(returned),
        returned.result == Poll::Ready(Ok::<(u64, u64), CopyFailure<E>>((a, b))),
    ensures
        ({
            let a_to_b = calls_in(calls, Direction::AToB);
            let b_to_a = calls_in(calls, Direction::BToA);
            &&& all_written(a_to_b) == all_read(a_to_b)
            &&& a == all_read(a_to_b).len()
            &&& exists|i: int| 0 <= i < a_to_b.len() && read_ends_at(a_to_b, i)
            &&& all_written(b_to_a) == all_read(b_to_a)
            &&& b == all_read(b_to_a).len()
            &&& exists|i: int| 0 <= i < b_to_a.len() && read_ends_at(b_to_a, i)
        }),
{
    lemma_run_holds(calls);
    let a_to_b = calls_in(calls, Direction::AToB);
    let b_to_a = calls_in(calls, Direction::BToA);
    let (copy, _, _) = calls.last().result();
    assert(copy.a_to_b == TransferState::Done(a));
    assert(copy.b_to_a == TransferState::Done(b));
    law_course_copies_faithfully(a_to_b);
    law_course_copies_faithfully(b_to_a);
    law_copies_to_the_end(a_to_b);
    law_copies_to_the_end(b_to_a);
}

/// What is pending are the bytes of the buffer from what is written out to what is filled.
pub proof fn law_pending_is_what_is_read_and_not_written(buffer: CopyBuffer)
    ensures
        buffer.pending() == buffer.buf@.subrange(buffer.pos as int, buffer.cap as int),
{
}

/// What a call does to the buffer. A read is noted with how far it filled the buffer; one that
/// added nothing, and no other, tells the reader's end. A write is noted with what it took, and has
/// to be flushed then; a flush settles that. Nothing else is noted. Only where all is written out,
/// the buffer starts over at its front.
pub proof fn law_calls_note_what_happened<E>(step: CopyStep<E>)
    requires
        step.is_valid(),
    ensures
        ({
            let (before, after) = (step.before, step.after());
            let filled = match step.event {
                CopyEvent::Filled(Poll::Ready(Ok(len))) => Some(len),
                CopyEvent::FilledWhileBlocked(Poll::Ready(Ok(len))) => Some(len),
                _ => None,
            };
            let taken = match step.event {
                CopyEvent::Wrote(Poll::Ready(Ok(n))) => n as int,
                _ => 0,
            };
            let cap = match filled {
                Some(len) => len,
                None => before.cap,
            };
            &&& after.buf == before.buf
            &&& after.amt == before.amt + taken
            &&& after.read_done == match filled {
                Some(len) => len == before.cap,
                None => before.read_done,
            }
            &&& after.need_flush == if taken > 0 {
                true
            } else if step.event is FlushedIdle && step.event->FlushedIdle_0 matches Poll::Ready(
                Ok(_),
            ) {
                false
            } else {
                before.need_flush
            }
            &&& {
                ||| after.pos == before.pos + taken && after.cap == cap
                ||| after.pos == 0 && after.cap == 0 && before.pos + taken == cap
            }
        }),
{
}

/// A stream that fails ends its direction with its own error, and a writer that takes nothing ends
/// it with an error of that kind. Nothing else does. Copying is done exactly with the flush after
/// everything is written, and reports the bytes written.
pub proof fn law_what_ends_a_direction<E>(step: CopyStep<E>)
    requires
        step.is_valid(),
    ensures
        ({
            let failed = match step.event {
                CopyEvent::Filled(Poll::Ready(Err(e))) => Some(e),
                CopyEvent::FilledWhileBlocked(Poll::Ready(Err(e))) => Some(e),
                CopyEvent::Wrote(Poll::Ready(Err(e))) => Some(e),
                CopyEvent::FlushedIdle(Poll::Ready(Err(e))) => Some(e),
                CopyEvent::FlushedAtEnd(Poll::Ready(Err(e))) => Some(e),
                _ => None,
            };
            let stuck = step.event == CopyEvent::<E>::Wrote(Poll::Ready(Ok(0)));
            let done = step.event matches CopyEvent::FlushedAtEnd(Poll::Ready(Ok(_)));
            &&& failed matches Some(e) ==> step.action() == CopyAction::Fail(CopyFailure::Io(e))
            &&& stuck ==> (step.action() matches CopyAction::Fail(CopyFailure::Copy(error))
                && error.kind is WriteZero)
            &&& step.action() is Fail <==> failed is Some || stuck
            &&& done ==> step.action() == CopyAction::<E>::Done(step.before.amt)
            &&& step.action() is Done <==> done
        }),
{
}

/// Each read, write and idle flush that was ready uses one operation, and nothing else uses any. A
/// direction gives way to others exactly with the last one.
pub proof fn law_each_ready_operation_uses_one<E>(step: CopyStep<E>)
    requires
        step.is_valid(),
        step.ops > 0,
    ensures
        ({
            let ready = match step.event {
                CopyEvent::Filled(Poll::Ready(Ok(_))) => true,
                CopyEvent::FilledWhileBlocked(Poll::Ready(Ok(_))) => true,
                CopyEvent::Wrote(Poll::Ready(Ok(n))) => n > 0,
                CopyEvent::FlushedIdle(Poll::Ready(Ok(_))) => true,
                _ => false,
            };
            &&& step.before.ops_after(step.event, step.ops) == if ready {
                step.ops - 1
            } else {
                step.ops as int
            }
            &&& step.action() is Yield <==> ready && step.ops == 1
        }),
{
}

/// What a direction does next, as long as it does not end and has operations left. Where a round
/// starts, it reads if there is room and the reader is not at its end. After that, and after each
/// read or write, it writes what there is to write; once that is nothing, it reads into the whole
/// buffer, or flushes and ends if the reader is at its end. It rests only where a stream is not
/// ready: where there is nothing to read and nothing to write, after a flush of what was written;
/// where there is nothing to be written, after reading on as far as there is room.
pub proof fn law_what_comes_next<E>(step: CopyStep<E>)
    requires
        step.is_valid(),
        step.action() !is Yield,
        step.action() !is Fail,
        step.action() !is Done,
    ensures
        ({
            let after = step.after();
            let action = step.action();
            let pending = after.pos < after.cap;
            let room = after.cap < after.buf@.len() && !after.read_done;
            let goes_on = if pending {
                action == CopyAction::<E>::Request(CopyRequest::Write)
            } else {
                &&& after.pos == 0
                &&& after.cap == 0
                &&& action == CopyAction::<E>::Request(
                    if after.read_done {
                        CopyRequest::FlushAtEnd
                    } else {
                        CopyRequest::Fill
                    },
                )
            };
            match step.event {
                CopyEvent::Start => if step.before.cap < step.before.buf@.len()
                    && !step.before.read_done {
                    after == step.before && action == CopyAction::<E>::Request(CopyRequest::Fill)
                } else {
                    goes_on
                },
                CopyEvent::Filled(Poll::Ready(_)) => goes_on,
                CopyEvent::Wrote(Poll::Ready(_)) => goes_on,
                CopyEvent::Filled(Poll::Pending) => action == if pending {
                    CopyAction::<E>::Request(CopyRequest::Write)
                } else if after.need_flush {
                    CopyAction::<E>::Request(CopyRequest::FlushIdle)
                } else {
                    CopyAction::<E>::Park
                },
                CopyEvent::Wrote(Poll::Pending) => action == if room {
                    CopyAction::<E>::Request(CopyRequest::FillWhileBlocked)
                } else {
                    CopyAction::<E>::Park
                },
                CopyEvent::FilledWhileBlocked(_) => action is Park,
                CopyEvent::FlushedIdle(_) => action is Park,
                CopyEvent::FlushedAtEnd(_) => action is Park,
            }
        }),
{
}

/// A direction does what copying asks for, until that is done. Then the writer is shut down, and
/// the direction is done with the bytes written once it is.
pub proof fn law_directions_copy_and_then_shut_down<E>(
    state: TransferState,
    event: TransferEvent<E>,
    ops: usize,
)
    ensures
        ({
            let (after, action) = state.transferred(event, ops);
            match state {
                TransferState::Running(buffer) => {
                    let told = match event {
                        TransferEvent::Copy(event) => event,
                        _ => CopyEvent::Start,
                    };
                    let (copied, next) = buffer.copied(told, ops);
                    match next {
                        CopyAction::Done(count) => {
                            &&& after == TransferState::ShuttingDown(count)
                            &&& action == TransferAction::<E>::Request(TransferRequest::Shutdown)
                        },
                        CopyAction::Request(request) => {
                            &&& after == TransferState::Running(copied)
                            &&& action == TransferAction::<E>::Request(
                                TransferRequest::Copy(request),
                            )
                        },
                        CopyAction::Yield => after == TransferState::Running(copied)
                            && action is Yield,
                        CopyAction::Park => after == TransferState::Running(copied)
                            && action is Park,
                        CopyAction::Fail(failure) => after == TransferState::Running(copied)
                            && action == TransferAction::Fail(failure),
                    }
                },
                TransferState::ShuttingDown(count) => match event {
                    TransferEvent::ShutDown(Poll::Ready(Ok(_))) => {
                        &&& after == TransferState::Done(count)
                        &&& action == TransferAction::<E>::Finished(count)
                    },
                    TransferEvent::ShutDown(Poll::Ready(Err(e))) => {
                        &&& after == state
                        &&& action == TransferAction::Fail(CopyFailure::Io(e))
                    },
                    TransferEvent::ShutDown(Poll::Pending) => after == state && action is Park,
                    _ => {
                        &&& after == state
                        &&& action == TransferAction::<E>::Request(TransferRequest::Shutdown)
                    },
                },
                TransferState::Done(count) => {
                    &&& after == state
                    &&& action == TransferAction::<E>::Finished(count)
                },
            }
        }),
{
}

/// A round starts with the first direction and 128 operations for each. It gives up exactly where
/// the direction that it is at fails, with what that fails with.
pub proof fn law_rounds_fail_with_their_direction<E>(
    copy: BidirectionalCopy,
    round: Round,
    event: TransferEvent<E>,
)
    ensures
        ({
            let fresh = Round::fresh();
            &&& fresh.direction is AToB
            &&& fresh.a_to_b_ops == 128
            &&& fresh.b_to_a_ops == 128
            &&& !fresh.made_progress
            &&& !fresh.wake
        }),
        ({
            let action = copy.driven(round, event).2;
            let told = match round.direction {
                Direction::AToB => copy.a_to_b.transferred(event, round.a_to_b_ops).1,
                Direction::BToA => copy.b_to_a.transferred(event, round.b_to_a_ops).1,
            };
            &&& told matches TransferAction::Fail(failure) ==> (action matches RoundAction::Return(
                returned,
            ) && returned.result == Poll::Ready(Err::<(u64, u64), CopyFailure<E>>(failure)))
            &&& told matches TransferAction::Request(request) ==> action == RoundAction::<
                E,
            >::Request(round.direction, request)
            &&& !(told is Fail) ==> !gives_up(action)
        }),
{
}

/// Whether a call reports that anything was done on the streams: bytes that were read or written, a
/// flush or a shutdown that is finished.
pub open spec fn reports_io<E>(call: RunCall<E>) -> bool {
    match call {
        RunCall::Begin { .. } => false,
        RunCall::Drive { before, round, event } => {
            let cap = match (round.direction, before.a_to_b, before.b_to_a) {
                (Direction::AToB, TransferState::Running(buffer), _) => buffer.cap as int,
                (Direction::BToA, _, TransferState::Running(buffer)) => buffer.cap as int,
                _ => 0,
            };
            match event {
                TransferEvent::Start => false,
                TransferEvent::Copy(CopyEvent::Start) => false,
                TransferEvent::Copy(CopyEvent::Filled(outcome)) => outcome matches Poll::Ready(
                    Ok(len),
                ) && len > cap,
                TransferEvent::Copy(CopyEvent::FilledWhileBlocked(outcome)) =>
                    outcome matches Poll::Ready(Ok(len)) && len > cap,
                TransferEvent::Copy(CopyEvent::Wrote(outcome)) => outcome matches Poll::Ready(Ok(n))
                    && n > 0,
                TransferEvent::Copy(CopyEvent::FlushedIdle(outcome)) => outcome
                    matches Poll::Ready(Ok(_)),
                TransferEvent::Copy(CopyEvent::FlushedAtEnd(outcome)) => outcome
                    matches Poll::Ready(Ok(_)),
                TransferEvent::ShutDown(outcome) => outcome matches Poll::Ready(Ok(_)),
            }
        },
    }
}

/// Whether the calls from the one at `begin` on are the last round of a run, which starts there.
pub open spec fn is_last_round<E>(calls: Seq<RunCall<E>>, begin: int) -> bool {
    &&& 0 <= begin < calls.len()
    &&& calls[begin] is Begin
    &&& forall|i: int| begin < i < calls.len() ==> #[trigger] calls[i] is Drive
}

proof fn lemma_call_progress<E>(calls: Seq<RunCall<E>>)
    requires
        calls.len() > 0,
        is_run(calls),
    ensures
        ({
            let (_, round, action) = calls.last().result();
            match calls.last() {
                RunCall::Begin { .. } => !round.made_progress,
                RunCall::Drive { round: before, .. } => {
                    &&& calls.len() > 1
                    &&& before == calls[calls.len() - 2].result().1
                    &&& round.made_progress == (before.made_progress || reports_io(calls.last()))
                },
            }
        }),
{
    if let RunCall::Drive { before, round, event } = calls.last() {
        let rest = calls.drop_last();
        assert(calls.len() > 1);
        assert(rest.last() == calls[calls.len() - 2]);
        lemma_run_holds(rest);
        let (copy, _, action) = rest.last().result();
        assert(action is Request);
        let direction = action->Request_0;
        let course = calls_in(rest, direction);
        assert(is_course_to(course, copy.direction(direction), asked(action, direction)));
    }
}

/// The bytes read and written decide on the idle timer: where a round that does not give up ends,
/// the timer starts over exactly where any call of the round has reported bytes read, bytes
/// written, a finished flush or a finished shutdown, in either direction.
pub proof fn law_any_io_restarts_the_idle_timer<E>(
    calls: Seq<RunCall<E>>,
    begin: int,
    returned: RoundResult<E>,
)
    requires
        is_run(calls),
        is_last_round(calls, begin),
        calls.last().result().2 == RoundAction::Return(returned),
        !(returned.result matches Poll::Ready(Err(_))),
    ensures
        returned.reset_timer <==> exists|i: int|
            begin < i < calls.len() && #[trigger] reports_io(calls[i]),
{
    lemma_round_progress(calls, begin);
}

proof fn lemma_round_progress<E>(calls: Seq<RunCall<E>>, begin: int)
    requires
        is_run(calls),
        is_last_round(calls, begin),
    ensures
        calls.last().result().1.made_progress <==> exists|i: int|
            begin < i < calls.len() && #[trigger] reports_io(calls[i]),
    decreases calls.len(),
{
    lemma_call_progress(calls);
    if begin < calls.len() - 1 {
        let rest = calls.drop_last();
        assert(calls.last() is Drive) by {
            assert(calls[calls.len() - 1] is Drive);
        }
        assert(is_last_round(rest, begin)) by {
            assert forall|i: int| begin < i < rest.len() implies #[trigger] rest[i] is Drive by {
                assert(calls[i] is Drive);
            }
        }
        lemma_round_progress(rest, begin);
        assert(rest.last() == calls[calls.len() - 2]);
        if exists|i: int| begin < i < rest.len() && #[trigger] reports_io(rest[i]) {
            let i = choose|i: int| begin < i < rest.len() && #[trigger] reports_io(rest[i]);
            assert(reports_io(calls[i]));
        }
        if exists|i: int| begin < i < calls.len() && #[trigger] reports_io(calls[i]) {
            let i = choose|i: int| begin < i < calls.len() && #[trigger] reports_io(calls[i]);
            if i < rest.len() {
                assert(reports_io(rest[i]));
            } else {
                assert(calls[i] == calls.last());
            }
        }
        if reports_io(calls.last()) {
            assert(reports_io(calls[calls.len() - 1]));
        }
    }
}

proof fn lemma_yields<E>(state: TransferState, event: TransferEvent<E>, ops: usize)
    requires
        ops > 0,
    ensures
        state.transferred(event, ops).1 is Yield <==> state.ops_after(event, ops) == 0,
        event is Start ==> state.ops_after(event, ops) == ops,
{
}

proof fn lemma_wake_is_kept<E>(copy: BidirectionalCopy, round: Round, event: TransferEvent<E>)
    requires
        round.wf(),
        round.wake <==> round.a_to_b_ops == 0 || round.b_to_a_ops == 0,
    ensures
        ({
            let after = copy.driven(round, event).1;
            after.wake <==> after.a_to_b_ops == 0 || after.b_to_a_ops == 0
        }),
{
    match round.direction {
        Direction::AToB => {
            lemma_yields(copy.a_to_b, event, round.a_to_b_ops);
            lemma_yields(copy.b_to_a, TransferEvent::<E>::Start, round.b_to_a_ops);
        },
        Direction::BToA => {
            lemma_yields(copy.b_to_a, event, round.b_to_a_ops);
        },
    }
}

proof fn lemma_wake<E>(calls: Seq<RunCall<E>>)
    requires
        calls.len() > 0,
        is_run(calls),
    ensures
        calls.last().result().1.wake <==> calls.last().result().1.a_to_b_ops == 0
            || calls.last().result().1.b_to_a_ops == 0,
    decreases calls.len(),
{
    match calls.last() {
        RunCall::Begin { before, timer_fired } => {
            if !timer_fired {
                lemma_wake_is_kept(before, Round::fresh(), TransferEvent::<E>::Start);
            }
        },
        RunCall::Drive { before, round, event } => {
            let rest = calls.drop_last();
            assert(calls.len() > 1);
            assert(rest.last() == calls[calls.len() - 2]);
            lemma_wake(rest);
            lemma_run_holds(rest);
            lemma_wake_is_kept(before, round, event);
        },
    }
}

/// Another round follows at once exactly where a direction has used up the operations that it had
/// in this one.
pub proof fn law_rounds_follow_at_once_where_cut_short<E>(
    calls: Seq<RunCall<E>>,
    returned: RoundResult<E>,
)
    requires
        calls.len() > 0,
        is_run(calls),
        calls.last().result().2 == RoundAction::Return(returned),
    ensures
        returned.wake <==> calls.last().result().1.a_to_b_ops == 0
            || calls.last().result().1.b_to_a_ops == 0,
{
    lemma_wake(calls);
}

/// Each direction has operations of its own: a call takes from those of the direction that it is
/// for, one at most, and leaves the others.
pub proof fn law_directions_have_operations_of_their_own<E>(
    copy: BidirectionalCopy,
    round: Round,
    event: TransferEvent<E>,
)
    requires
        round.wf(),
    ensures
        ({
            let after = copy.driven(round, event).1;
            &&& round.direction is AToB ==> after.b_to_a_ops == round.b_to_a_ops && (
            after.a_to_b_ops == round.a_to_b_ops || after.a_to_b_ops == round.a_to_b_ops - 1)
            &&& round.direction is BToA ==> after.a_to_b_ops == round.a_to_b_ops && (
            after.b_to_a_ops == round.b_to_a_ops || after.b_to_a_ops == round.b_to_a_ops - 1)
        }),
{
}

/// A copy is prepared with nothing read, nothing written and all of both buffers to be filled. Each
/// error of copying has a kind of its own.
pub proof fn law_copies_start_with_nothing(state: TransferState, buf_size: usize)
    ensures
        is_new_transfer(state, buf_size) ==> (state matches TransferState::Running(buffer) && {
            &&& buffer.buf@.len() == buf_size
            &&& buffer.pos == 0
            &&& buffer.cap == 0
            &&& buffer.amt == 0
            &&& !buffer.read_done
            &&& !buffer.need_flush
        }),
        timed_out().kind is TimedOut,
        timed_out().message@ == "bidirectional copy idle timeout elapsed"@,
        no_buffer().kind is InvalidInput,
        no_buffer().message@ == "copy buffer size must be greater than zero"@,
        write_zero().kind is WriteZero,
        write_zero().message@ == "write zero byte into writer"@,
{
}

/// A copy can be prepared exactly where the timeout and both buffers are something. A timeout of
/// nothing has passed at once, whatever the buffers are. Each direction gets the buffer that was
/// asked for it.
pub proof fn law_which_copies_can_be_prepared(
    timeout_nanos: u128,
    a_to_b_buf_size: usize,
    b_to_a_buf_size: usize,
    prepared: Result<BidirectionalCopy, CopyError>,
)
    requires
        call_ensures(
            copy_bidirectional_with_timeout_and_sizes,
            (timeout_nanos, a_to_b_buf_size, b_to_a_buf_size),
            prepared,
        ),
    ensures
        prepared is Ok <==> timeout_nanos > 0 && a_to_b_buf_size > 0 && b_to_a_buf_size > 0,
        timeout_nanos == 0 ==> (prepared matches Err(error) && error.kind is TimedOut),
        timeout_nanos > 0 && (a_to_b_buf_size == 0 || b_to_a_buf_size == 0) ==> (
        prepared matches Err(error) && error.kind is InvalidInput),
        prepared matches Ok(copy) ==> {
            &&& copy.a_to_b matches TransferState::Running(buffer) && buffer.buf@.len()
                == a_to_b_buf_size && buffer.cap == 0 && buffer.amt == 0 && !buffer.read_done
            &&& copy.b_to_a matches TransferState::Running(buffer) && buffer.buf@.len()
                == b_to_a_buf_size && buffer.cap == 0 && buffer.amt == 0 && !buffer.read_done
        },
{
}

/// The operations of a copy come to what is described of them.
pub proof fn law_copies_do_what_is_described<E>()
    ensures
        forall|buffer: &mut CopyBuffer,
            event: CopyEvent<E>,
            made_progress: &mut bool,
            ops: &mut usize,
            action: CopyAction<E>| #[trigger]
            call_ensures(CopyBuffer::poll_copy::<E>, (buffer, event, made_progress, ops), action)
                ==> {
                &&& (*final(buffer), action) == (*buffer).copied(event, *ops)
                &&& *final(ops) == (*buffer).ops_after(event, *ops)
                &&& *final(made_progress) == (*made_progress || (*buffer).progresses(event))
            },
        forall|state: &mut TransferState,
            event: TransferEvent<E>,
            made_progress: &mut bool,
            ops: &mut usize,
            action: TransferAction<E>| #[trigger]
            call_ensures(transfer_one_direction::<E>, (state, event, made_progress, ops), action)
                ==> {
                &&& (*final(state), action) == (*state).transferred(event, *ops)
                &&& *final(ops) == (*state).ops_after(event, *ops)
                &&& *final(made_progress) == (*made_progress || (*state).progresses(event))
            },
        forall|copy: &mut BidirectionalCopy,
            round: &mut Round,
            event: TransferEvent<E>,
            action: RoundAction<E>| #[trigger]
            call_ensures(BidirectionalCopy::drive::<E>, (copy, round, event), action) ==> (
            *final(copy),
            *final(round),
            action,
            ) == (*copy).driven(*round, event),
        forall|copy: &mut BidirectionalCopy, timer_fired: bool, begun: (Round, RoundAction<E>)|
            #[trigger] call_ensures(BidirectionalCopy::begin::<E>, (copy, timer_fired), begun) ==> (
            *final(copy),
            begun.0,
            begun.1,
            ) == (*copy).begun::<E>(timer_fired),
        forall|buffer: &CopyBuffer, bytes: &[u8]| #[trigger]
            call_ensures(CopyBuffer::pending_bytes, (buffer,), bytes) ==> bytes@
                == buffer.buf@.subrange(buffer.pos as int, buffer.cap as int),
{
}

/// A call makes progress exactly where bytes were read or written, or a flush or the shutdown is
/// finished.
pub proof fn law_progress_is_io<E>(state: TransferState, event: TransferEvent<E>)
    requires
        state.expects(event),
    ensures
        state.progresses(event) <==> match (state, event) {
            (TransferState::Running(buffer), TransferEvent::Copy(event)) => match event {
                CopyEvent::Start => false,
                CopyEvent::Filled(outcome) => outcome matches Poll::Ready(Ok(len)) && len
                    != buffer.cap,
                CopyEvent::FilledWhileBlocked(outcome) => outcome matches Poll::Ready(Ok(len))
                    && len != buffer.cap,
                CopyEvent::Wrote(outcome) => outcome matches Poll::Ready(Ok(n)) && n > 0,
                CopyEvent::FlushedIdle(outcome) => outcome matches Poll::Ready(Ok(_)),
                CopyEvent::FlushedAtEnd(outcome) => outcome matches Poll::Ready(Ok(_)),
            },
            (TransferState::ShuttingDown(_), TransferEvent::ShutDown(outcome)) =>
                outcome matches Poll::Ready(Ok(_)),
            _ => false,
        },
{
}

} // verus!
