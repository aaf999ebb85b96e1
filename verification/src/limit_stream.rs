//! Streams that read and write no faster than a session allows.
//!
//! One poll of a limited stream goes like this. `poll_read` (or `poll_write`) says what comes
//! next: a limiter that has to let a piece through, or a transfer of so many bytes. The caller
//! waits for the limiter and calls again with the piece, or polls the stream underneath with that
//! many bytes and hands the outcome to `read_polled` (or `write_polled`).

use crate::poll::Poll;
use crate::read_buf::{
    after_first, capacity_of, filled_bytes, initialize_unfilled, room_in, spare_bytes,
};
use crate::speed_limiter::{
    law_chain_is_fixed, law_grants_are_positive, law_session_keeps_accounts,
    lemma_fresh_session_holds_nothing, LimitSettings, SessionStep, SpeedLimitSession,
    SpeedLimiterRef,
};
use sfo_split::{ReadHalf, WriteHalf};
use tokio::io::ReadBuf;
use vstd::math::min;
use vstd::prelude::*;

verus! {

/// Where a limited transfer stands.
pub enum TransferState {
    /// Nothing is granted.
    Idle,
    /// A limiter has been asked for a piece.
    Waiting,
    /// `len` bytes have been granted, and `done` of them are used.
    Transferring { len: usize, done: usize },
}

/// What a limited transfer needs next.
pub enum TransferStep<C = LimitSettings> {
    /// This limiter has to let a piece through.
    Acquire(SpeedLimiterRef<C>),
    /// The stream underneath is to be polled, with at most so many bytes.
    Transfer(usize),
}

/// A session, and how far its last grant is used up.
pub struct Throttle<C = LimitSettings> {
    pub limit: SpeedLimitSession<C>,
    pub state: TransferState,
}

impl TransferState {
    /// The bytes that may still be transferred under the grant in hand.
    pub open spec fn allowance(self) -> nat {
        match self {
            TransferState::Transferring { len, done } => (len - done) as nat,
            _ => 0,
        }
    }

    /// Where a transfer stands after `n` more bytes: the grant is given back once it is used up.
    pub open spec fn moved(self, n: usize) -> TransferState {
        match self {
            TransferState::Transferring { len, done } if done + n < len =>
                TransferState::Transferring { len, done: (done + n) as usize },
            _ => TransferState::Idle,
        }
    }

    /// Where a transfer stands after a poll of the stream underneath. One that is not ready keeps
    /// the grant, and one that fails forfeits it.
    pub open spec fn settled<E>(self, outcome: Poll<Result<usize, E>>) -> TransferState {
        match outcome {
            Poll::Pending => self,
            Poll::Ready(Ok(n)) => self.moved(n),
            Poll::Ready(Err(_)) => TransferState::Idle,
        }
    }
}

impl<C> Throttle<C> {
    /// A grant in hand is never used up: it is given back at that moment.
    pub open spec fn wf(self) -> bool {
        self.state matches TransferState::Transferring { len, done } ==> done < len
    }

    /// Whether `piece` can be handed over: none while a grant is in hand, and otherwise what the
    /// session accepts.
    pub open spec fn accepts(self, piece: Option<usize>) -> bool {
        if self.state is Transferring {
            piece is None
        } else {
            self.limit.accepts(piece)
        }
    }

    /// Where the throttle stands once `piece` is in, and what it needs next. A new grant is asked
    /// for only where none is in hand, and no more than `room` bytes are transferred.
    pub open spec fn started(self, piece: Option<usize>, room: nat) -> (
        Throttle<C>,
        TransferStep<C>,
    ) {
        if self.state is Transferring {
            (self, TransferStep::Transfer(min(self.state.allowance() as int, room as int) as usize))
        } else {
            let (limit, step) = self.limit.advanced(piece);
            match step {
                SessionStep::Acquire(limiter) => (
                    Throttle { limit, state: TransferState::Waiting },
                    TransferStep::Acquire(limiter),
                ),
                SessionStep::Granted(len) => (
                    Throttle { limit, state: TransferState::Transferring { len, done: 0 } },
                    TransferStep::Transfer(min(len as int, room as int) as usize),
                ),
            }
        }
    }

    pub fn new(limit: SpeedLimitSession<C>) -> (throttle: Throttle<C>)
        ensures
            throttle == (Throttle { limit, state: TransferState::Idle }),
            throttle.wf(),
    {
        Throttle { limit, state: TransferState::Idle }
    }

    /// Takes the transfer to a limiter that has to let a piece through, or to a poll of the stream
    /// underneath with at most `room` bytes.
    pub fn start(&mut self, piece: Option<usize>, room: usize) -> (step: TransferStep<C>)
        requires
            old(self).wf(),
            old(self).accepts(piece),
        ensures
            (*final(self), step) == old(self).started(piece, room as nat),
            final(self).wf(),
            step is Transfer <==> final(self).state is Transferring,
            step is Acquire ==> final(self).limit.held_at() is Some,
    {
        if let TransferState::Transferring { len, done } = self.state {
            let left: usize = len - done;
            return TransferStep::Transfer(
                if left <= room {
                    left
                } else {
                    room
                },
            );
        }
        match self.limit.until_ready(piece) {
            SessionStep::Acquire(limiter) => {
                self.state = TransferState::Waiting;
                TransferStep::Acquire(limiter)
            },
            SessionStep::Granted(len) => {
                self.state = TransferState::Transferring { len, done: 0 };
                TransferStep::Transfer(
                    if len <= room {
                        len
                    } else {
                        room
                    },
                )
            },
        }
    }

    /// Takes note of a poll of the stream underneath.
    pub fn settle<E>(&mut self, outcome: &Poll<Result<usize, E>>)
        requires
            old(self).wf(),
            old(self).state is Transferring,
        ensures
            final(self).limit == old(self).limit,
            final(self).state == old(self).state.settled(*outcome),
            final(self).wf(),
    {
        match outcome {
            Poll::Pending => {},
            Poll::Ready(Ok(n)) => {
                if let TransferState::Transferring { len, done } = self.state {
                    if *n >= len - done {
                        self.state = TransferState::Idle;
                    } else {
                        self.state = TransferState::Transferring { len, done: done + *n };
                    }
                }
            },
            Poll::Ready(Err(_)) => {
                self.state = TransferState::Idle;
            },
        }
    }
}

/// A reader that reads no faster than a session allows.
pub struct LimitRead<S, C = LimitSettings> {
    pub read: S,
    pub read_limit: Throttle<C>,
}

impl<S, C> LimitRead<S, C> {
    pub open spec fn wf(self) -> bool {
        self.read_limit.wf()
    }

    pub fn new(read: S, read_limit: SpeedLimitSession<C>) -> (limited: LimitRead<S, C>)
        ensures
            limited.read == read,
            limited.read_limit == (Throttle { limit: read_limit, state: TransferState::Idle }),
            limited.wf(),
    {
        LimitRead { read, read_limit: Throttle::new(read_limit) }
    }

    pub fn raw_read_mut(&mut self) -> (read: &mut S)
        ensures
            *read == old(self).read,
            final(self).read == *final(read),
            final(self).read_limit == old(self).read_limit,
    {
        &mut self.read
    }

    pub fn raw_read(&self) -> (read: &S)
        ensures
            *read == self.read,
    {
        &self.read
    }

    pub fn into_raw_read(self) -> (read: S)
        ensures
            read == self.read,
    {
        self.read
    }

    /// Begins or resumes a read into `buf`, which is initialized to its end, with zeros where it
    /// was not. The reader underneath is to be polled with a part of `buf` that follows what is
    /// filled and is no longer than the step says.
    pub fn poll_read(&mut self, piece: Option<usize>, buf: &mut ReadBuf<'_>) -> (step: TransferStep<
        C,
    >)
        requires
            old(self).wf(),
            old(self).read_limit.accepts(piece),
        ensures
            final(self).read == old(self).read,
            (final(self).read_limit, step) == old(self).read_limit.started(
                piece,
                room_in(*old(buf)) as nat,
            ),
            final(self).wf(),
            capacity_of(*final(buf)) == capacity_of(*old(buf)),
            filled_bytes(*final(buf)) == filled_bytes(*old(buf)),
            spare_bytes(*final(buf)).len() == room_in(*old(buf)),
            spare_bytes(*old(buf)).is_prefix_of(spare_bytes(*final(buf))),
            forall|i: int|
                spare_bytes(*old(buf)).len() <= i < room_in(*old(buf)) ==> #[trigger] spare_bytes(
                    *final(buf),
                )[i] == 0,
            step matches TransferStep::Transfer(limit) ==> limit <= spare_bytes(*final(buf)).len(),
    {
        initialize_unfilled(buf);
        let room: usize = buf.remaining();
        self.read_limit.start(piece, room)
    }

    /// Takes note of a poll of the reader underneath, which left so many bytes behind what is
    /// filled: they then count as read.
    pub fn read_polled<E>(
        &mut self,
        outcome: Poll<Result<usize, E>>,
        buf: &mut ReadBuf<'_>,
    ) -> (result: Poll<Result<(), E>>)
        requires
            old(self).wf(),
            old(self).read_limit.state is Transferring,
            outcome matches Poll::Ready(Ok(n)) ==> n <= spare_bytes(*old(buf)).len(),
        ensures
            final(self).read == old(self).read,
            final(self).read_limit.limit == old(self).read_limit.limit,
            final(self).read_limit.state == old(self).read_limit.state.settled(outcome),
            final(self).wf(),
            match outcome {
                Poll::Ready(Ok(n)) => {
                    &&& result == Poll::<Result<(), E>>::Ready(Ok(()))
                    &&& capacity_of(*final(buf)) == capacity_of(*old(buf))
                    &&& filled_bytes(*final(buf)) == filled_bytes(*old(buf)) + spare_bytes(
                        *old(buf),
                    ).take(n as int)
                    &&& spare_bytes(*final(buf)) == after_first(spare_bytes(*old(buf)), n as int)
                },
                Poll::Ready(Err(e)) => {
                    &&& result == Poll::<Result<(), E>>::Ready(Err(e))
                    &&& *final(buf) == *old(buf)
                },
                Poll::Pending => {
                    &&& result == Poll::<Result<(), E>>::Pending
                    &&& *final(buf) == *old(buf)
                },
            },
    {
        self.read_limit.settle(&outcome);
        match outcome {
            Poll::Ready(Ok(n)) => {
                buf.advance(n);
                Poll::Ready(Ok(()))
            },
            Poll::Ready(Err(e)) => Poll::Ready(Err(e)),
            Poll::Pending => Poll::Pending,
        }
    }
}

/// A writer that writes no faster than a session allows.
pub struct LimitWrite<S, C = LimitSettings> {
    pub write: S,
    pub write_limit: Throttle<C>,
}

impl<S, C> LimitWrite<S, C> {
    pub open spec fn wf(self) -> bool {
        self.write_limit.wf()
    }

    pub fn new(write: S, write_limit: SpeedLimitSession<C>) -> (limited: LimitWrite<S, C>)
        ensures
            limited.write == write,
            limited.write_limit == (Throttle { limit: write_limit, state: TransferState::Idle }),
            limited.wf(),
    {
        LimitWrite { write, write_limit: Throttle::new(write_limit) }
    }

    pub fn raw_write_mut(&mut self) -> (write: &mut S)
        ensures
            *write == old(self).write,
            final(self).write == *final(write),
            final(self).write_limit == old(self).write_limit,
    {
        &mut self.write
    }

    pub fn raw_write(&self) -> (write: &S)
        ensures
            *write == self.write,
    {
        &self.write
    }

    pub fn into_raw_write(self) -> (write: S)
        ensures
            write == self.write,
    {
        self.write
    }

    /// Begins or resumes a write of `buf`. The writer underneath is to be polled with as many
    /// bytes from the front of `buf` as the step says.
    pub fn poll_write(&mut self, piece: Option<usize>, buf: &[u8]) -> (step: TransferStep<C>)
        requires
            old(self).wf(),
            old(self).write_limit.accepts(piece),
        ensures
            final(self).write == old(self).write,
            (final(self).write_limit, step) == old(self).write_limit.started(piece, buf@.len()),
            final(self).wf(),
            step matches TransferStep::Transfer(limit) ==> limit <= buf@.len(),
    {
        self.write_limit.start(piece, buf.len())
    }

    /// Takes note of a poll of the writer underneath, and passes on what it gave.
    pub fn write_polled<E>(&mut self, outcome: Poll<Result<usize, E>>) -> (result: Poll<
        Result<usize, E>,
    >)
        requires
            old(self).wf(),
            old(self).write_limit.state is Transferring,
        ensures
            final(self).write == old(self).write,
            final(self).write_limit.limit == old(self).write_limit.limit,
            final(self).write_limit.state == old(self).write_limit.state.settled(outcome),
            final(self).wf(),
            result == outcome,
    {
        self.write_limit.settle(&outcome);
        outcome
    }
}

/// `sfo_split::ReadHalf`: the half of a split stream that reads.
#[verifier::external_type_specification]
#[verifier::external_body]
#[verifier::reject_recursive_types(T)]
pub struct ExReadHalf<T>(ReadHalf<T>);

/// `sfo_split::WriteHalf`: the half of a split stream that writes.
#[verifier::external_type_specification]
#[verifier::external_body]
#[verifier::reject_recursive_types(T)]
pub struct ExWriteHalf<T>(WriteHalf<T>);

/// `sfo_split::split` shares a stream between two halves. Both halves are opaque here, so nothing
/// is claimed of them; contracts refer to them as a result of this call.
pub assume_specification<T>[ sfo_split::split::<T> ](stream: T) -> (halves: (
    ReadHalf<T>,
    WriteHalf<T>,
));

/// A stream whose two directions are limited, each by a session of its own.
#[verifier::reject_recursive_types(S)]
pub struct LimitStream<S, C = LimitSettings> {
    pub read: LimitRead<ReadHalf<S>, C>,
    pub write: LimitWrite<WriteHalf<S>, C>,
}

impl<S, C> LimitStream<S, C> {
    pub open spec fn wf(self) -> bool {
        &&& self.read.wf()
        &&& self.write.wf()
    }

    pub fn new(
        stream: S,
        read_limit: SpeedLimitSession<C>,
        write_limit: SpeedLimitSession<C>,
    ) -> (limited: LimitStream<S, C>)
        ensures
            call_ensures(
                sfo_split::split::<S>,
                (stream,),
                (limited.read.read, limited.write.write),
            ),
            limited.read.read_limit == (Throttle { limit: read_limit, state: TransferState::Idle }),
            limited.write.write_limit == (Throttle {
                limit: write_limit,
                state: TransferState::Idle,
            }),
            limited.wf(),
    {
        let (read, write) = sfo_split::split(stream);
        LimitStream {
            read: LimitRead::new(read, read_limit),
            write: LimitWrite::new(write, write_limit),
        }
    }
}

/// [`LimitStream`] for streams that stay on one thread. The limit is the same.
pub type LocalLimitStream<S, C = LimitSettings> = LimitStream<S, C>;

/// [`LimitRead`] for readers that stay on one thread. The limit is the same.
pub type LocalLimitRead<S, C = LimitSettings> = LimitRead<S, C>;

/// [`LimitWrite`] for writers that stay on one thread. The limit is the same.
pub type LocalLimitWrite<S, C = LimitSettings> = LimitWrite<S, C>;

/// A call on a throttle, with what its caller reports.
pub enum ThrottleCall {
    /// A start, with a piece that a limiter let through and room for so many bytes.
    Start { piece: Option<usize>, room: usize },
    /// A poll of the stream underneath that transferred so many bytes.
    Moved(usize),
    /// A poll of the stream underneath that was not ready.
    Blocked,
    /// A poll of the stream underneath that failed.
    Failed,
}

impl ThrottleCall {
    /// The bytes that the call reports as transferred.
    pub open spec fn bytes(self) -> nat {
        match self {
            ThrottleCall::Moved(n) => n as nat,
            _ => 0,
        }
    }
}

impl<C> Throttle<C> {
    /// Whether the call can be made: a stream underneath transfers no more than it was polled
    /// with, which is at most the allowance.
    pub open spec fn allows(self, call: ThrottleCall) -> bool {
        match call {
            ThrottleCall::Start { piece, .. } => self.accepts(piece),
            ThrottleCall::Moved(n) => self.state is Transferring && n <= self.state.allowance(),
            ThrottleCall::Blocked | ThrottleCall::Failed => self.state is Transferring,
        }
    }

    /// The throttle after a call.
    pub open spec fn called(self, call: ThrottleCall) -> Throttle<C> {
        match call {
            ThrottleCall::Start { piece, room } => self.started(piece, room as nat).0,
            ThrottleCall::Moved(n) => Throttle {
                state: self.state.settled(Poll::Ready(Ok::<usize, ()>(n))),
                ..self
            },
            ThrottleCall::Blocked => Throttle {
                state: self.state.settled(Poll::<Result<usize, ()>>::Pending),
                ..self
            },
            ThrottleCall::Failed => Throttle {
                state: self.state.settled(Poll::Ready(Err::<usize, ()>(()))),
                ..self
            },
        }
    }

    /// What the limiter `level` steps up the chain lets through in a call.
    pub open spec fn admitted(self, call: ThrottleCall, level: nat) -> nat {
        match call {
            ThrottleCall::Start { piece, .. } if !(self.state is Transferring) =>
                self.limit.admitted(piece, level),
            _ => 0,
        }
    }

    /// What the limiter `level` steps up the chain has let through and can still be used.
    pub open spec fn usable(self, level: nat) -> nat {
        self.limit.credit(level) + self.state.allowance()
    }

    pub open spec fn allows_all(self, calls: Seq<ThrottleCall>) -> bool
        decreases calls.len(),
    {
        calls.len() > 0 ==> {
            &&& self.allows_all(calls.drop_last())
            &&& self.after(calls.drop_last()).allows(calls.last())
        }
    }

    /// The throttle after these calls.
    pub open spec fn after(self, calls: Seq<ThrottleCall>) -> Throttle<C>
        decreases calls.len(),
    {
        if calls.len() == 0 {
            self
        } else {
            self.after(calls.drop_last()).called(calls.last())
        }
    }

    /// All that the limiter `level` steps up the chain lets through in these calls.
    pub open spec fn total_admitted(self, calls: Seq<ThrottleCall>, level: nat) -> nat
        decreases calls.len(),
    {
        if calls.len() == 0 {
            0
        } else {
            self.total_admitted(calls.drop_last(), level) + self.after(calls.drop_last()).admitted(
                calls.last(),
                level,
            )
        }
    }
}

/// All the bytes that these calls report as transferred.
pub open spec fn total_bytes(calls: Seq<ThrottleCall>) -> nat
    decreases calls.len(),
{
    if calls.len() == 0 {
        0
    } else {
        total_bytes(calls.drop_last()) + calls.last().bytes()
    }
}

/// A transfer is asked for only under a grant, of no more bytes than are left of the grant and
/// than there is room for; and it is not empty unless the room is.
pub proof fn law_transfer_stays_within_grant<C>(
    throttle: Throttle<C>,
    piece: Option<usize>,
    room: usize,
)
    requires
        throttle.wf(),
        throttle.accepts(piece),
    ensures
        ({
            let (after, step) = throttle.started(piece, room as nat);
            step matches TransferStep::Transfer(limit) ==> {
                &&& after.state is Transferring
                &&& limit <= after.state.allowance()
                &&& limit <= room
                &&& room > 0 ==> limit > 0
            }
        }),
{
    law_grants_are_positive(throttle.limit, piece);
}

/// No call uses bytes that were not let through: what can still be used after a call, and what
/// the call transferred, is at most what could be used before and what the limiter has let
/// through since. Only a failure forfeits anything.
pub proof fn law_throttle_keeps_accounts<C>(throttle: Throttle<C>, call: ThrottleCall, level: nat)
    requires
        throttle.wf(),
        throttle.allows(call),
        level < throttle.limit.depth(),
    ensures
        throttle.called(call).wf(),
        throttle.called(call).limit.depth() == throttle.limit.depth(),
        throttle.called(call).usable(level) + call.bytes() <= throttle.usable(level)
            + throttle.admitted(call, level),
        call !is Failed ==> throttle.called(call).usable(level) + call.bytes() == throttle.usable(
            level,
        ) + throttle.admitted(call, level),
{
    if let ThrottleCall::Start { piece, room } = call {
        if !(throttle.state is Transferring) {
            law_session_keeps_accounts(throttle.limit, piece, level);
            law_chain_is_fixed(throttle.limit, piece, level);
            law_grants_are_positive(throttle.limit, piece);
        }
    }
}

/// Over any calls, the bytes transferred are at most what could be used at first and what any one
/// limiter of the chain has let through since.
pub proof fn law_throttle_totals<C>(throttle: Throttle<C>, calls: Seq<ThrottleCall>, level: nat)
    requires
        throttle.wf(),
        throttle.allows_all(calls),
        level < throttle.limit.depth(),
    ensures
        throttle.after(calls).wf(),
        throttle.after(calls).limit.depth() == throttle.limit.depth(),
        throttle.after(calls).usable(level) + total_bytes(calls) <= throttle.usable(level)
            + throttle.total_admitted(calls, level),
    decreases calls.len(),
{
    if calls.len() > 0 {
        law_throttle_totals(throttle, calls.drop_last(), level);
        law_throttle_keeps_accounts(throttle.after(calls.drop_last()), calls.last(), level);
    }
}

/// A limited stream that starts on a fresh session never transfers more than any one limiter of
/// the chain has let through.
pub proof fn law_stream_stays_within_limits<C>(
    limiter: SpeedLimiterRef<C>,
    calls: Seq<ThrottleCall>,
    level: nat,
)
    requires
        (Throttle { limit: limiter.fresh_session(), state: TransferState::Idle }).allows_all(calls),
        level < limiter.fresh_session().depth(),
    ensures
        total_bytes(calls) <= (Throttle {
            limit: limiter.fresh_session(),
            state: TransferState::Idle,
        }).total_admitted(calls, level),
{
    lemma_fresh_session_holds_nothing(limiter, level);
    law_throttle_totals(
        Throttle { limit: limiter.fresh_session(), state: TransferState::Idle },
        calls,
        level,
    );
}

impl<C> Throttle<C> {
    /// Whether the call turns to the session for a grant.
    pub open spec fn asks(self, call: ThrottleCall) -> bool {
        call is Start && self.state !is Transferring
    }

    /// Whether the call brings a new grant.
    pub open spec fn gets_grant(self, call: ThrottleCall) -> bool {
        self.asks(call) && self.called(call).state is Transferring
    }

    /// Whether any of these calls brings a grant.
    pub open spec fn ever_granted(self, calls: Seq<ThrottleCall>) -> bool
        decreases calls.len(),
    {
        calls.len() > 0 && (self.ever_granted(calls.drop_last()) || self.after(
            calls.drop_last(),
        ).gets_grant(calls.last()))
    }

    /// The size of the latest grant that these calls bring.
    pub open spec fn latest_grant(self, calls: Seq<ThrottleCall>) -> nat
        decreases calls.len(),
    {
        if calls.len() == 0 {
            0
        } else {
            let before = self.after(calls.drop_last());
            if before.gets_grant(calls.last()) {
                before.called(calls.last()).state.allowance()
            } else {
                self.latest_grant(calls.drop_last())
            }
        }
    }

    /// The bytes transferred since the latest grant that these calls bring.
    pub open spec fn moved_since_grant(self, calls: Seq<ThrottleCall>) -> nat
        decreases calls.len(),
    {
        if calls.len() == 0 || self.after(calls.drop_last()).gets_grant(calls.last()) {
            0
        } else {
            self.moved_since_grant(calls.drop_last()) + calls.last().bytes()
        }
    }

    /// Whether a transfer has failed since the latest grant that these calls bring.
    pub open spec fn failed_since_grant(self, calls: Seq<ThrottleCall>) -> bool
        decreases calls.len(),
    {
        calls.len() > 0 && !self.after(calls.drop_last()).gets_grant(calls.last()) && (
        calls.last() is Failed || self.failed_since_grant(calls.drop_last()))
    }
}

proof fn lemma_grant_in_hand<C>(throttle: Throttle<C>, calls: Seq<ThrottleCall>)
    requires
        throttle.wf(),
        throttle.state !is Transferring,
        throttle.allows_all(calls),
    ensures
        throttle.after(calls).wf(),
        throttle.moved_since_grant(calls) <= throttle.latest_grant(calls),
        match throttle.after(calls).state {
            TransferState::Transferring { len, done } => {
                &&& throttle.ever_granted(calls)
                &&& !throttle.failed_since_grant(calls)
                &&& throttle.latest_grant(calls) == len
                &&& throttle.moved_since_grant(calls) == done
            },
            _ => {
                ||| !throttle.ever_granted(calls)
                ||| throttle.moved_since_grant(calls) == throttle.latest_grant(calls)
                ||| throttle.failed_since_grant(calls)
            },
        },
    decreases calls.len(),
{
    if calls.len() > 0 {
        let before = throttle.after(calls.drop_last());
        lemma_grant_in_hand(throttle, calls.drop_last());
        if let ThrottleCall::Start { piece, room } = calls.last() {
            if before.state !is Transferring {
                law_grants_are_positive(before.limit, piece);
            }
        }
    }
}

/// Over any calls, the bytes transferred since the latest grant never exceed it. And the session is
/// turned to for another only where there was none yet, the last one is used up to the byte, or a
/// transfer under it has failed; any other call leaves the session alone and asks no limiter.
pub proof fn law_grants_are_kept_to<C>(
    throttle: Throttle<C>,
    calls: Seq<ThrottleCall>,
    call: ThrottleCall,
)
    requires
        throttle.wf(),
        throttle.state !is Transferring,
        throttle.allows_all(calls),
        throttle.after(calls).allows(call),
    ensures
        throttle.moved_since_grant(calls) <= throttle.latest_grant(calls),
        throttle.after(calls).asks(call) ==> {
            ||| !throttle.ever_granted(calls)
            ||| throttle.moved_since_grant(calls) == throttle.latest_grant(calls)
            ||| throttle.failed_since_grant(calls)
        },
        !throttle.after(calls).asks(call) ==> {
            &&& throttle.after(calls).called(call).limit == throttle.after(calls).limit
            &&& call matches ThrottleCall::Start { piece, room } ==> throttle.after(calls).started(
                piece,
                room as nat,
            ).1 is Transfer
        },
{
    lemma_grant_in_hand(throttle, calls);
}

/// Where no grant is in hand, a transfer goes by what the session says: it waits for the limiter
/// that the session names, or has all that the session grants in hand, with nothing used. Where one
/// is in hand, nothing is asked of the session, and nothing changes.
pub proof fn law_transfers_get_the_whole_grant<C>(
    throttle: Throttle<C>,
    piece: Option<usize>,
    room: usize,
)
    ensures
        ({
            let (after, step) = throttle.started(piece, room as nat);
            let (session, drawn) = throttle.limit.advanced(piece);
            match throttle.state {
                TransferState::Transferring { .. } => after == throttle && step is Transfer,
                _ => after.limit == session && match drawn {
                    SessionStep::Acquire(limiter) => {
                        &&& step == TransferStep::<C>::Acquire(limiter)
                        &&& after.state is Waiting
                    },
                    SessionStep::Granted(n) => {
                        &&& step is Transfer
                        &&& after.state == (TransferState::Transferring { len: n, done: 0 })
                    },
                },
            }
        }),
{
}

/// A transfer is of all that is left of the grant, or of all that there is room for, whichever is
/// less.
pub proof fn law_transfers_are_as_large_as_possible<C>(
    throttle: Throttle<C>,
    piece: Option<usize>,
    room: usize,
)
    requires
        throttle.wf(),
    ensures
        ({
            let (after, step) = throttle.started(piece, room as nat);
            step matches TransferStep::Transfer(limit) ==> (
            after.state matches TransferState::Transferring { len, done } && {
                &&& limit <= room
                &&& limit <= len - done
                &&& limit == room || limit == len - done
            })
        }),
{
}

/// A poll of the stream underneath that is not ready leaves the grant as it is. One that transfers
/// bytes uses just these, and gives the grant back once none are left. One that fails ends the
/// grant.
pub proof fn law_polls_use_what_they_transfer<E>(
    len: usize,
    done: usize,
    outcome: Poll<Result<usize, E>>,
)
    requires
        done < len,
    ensures
        ({
            let state = TransferState::Transferring { len, done };
            let after = state.settled(outcome);
            match outcome {
                Poll::Pending => after == state,
                Poll::Ready(Ok(n)) => if done + n < len {
                    after matches TransferState::Transferring { len: granted, done: used }
                        && granted == len && used == done + n
                } else {
                    after is Idle
                },
                Poll::Ready(Err(_)) => after is Idle,
            }
        }),
{
}

/// A throttle takes a piece only for a session that waits for one, and never while a grant is in
/// hand.
pub proof fn law_when_a_transfer_takes_a_piece<C>(throttle: Throttle<C>, piece: Option<usize>)
    ensures
        throttle.state is Transferring ==> (throttle.accepts(piece) <==> piece is None),
        throttle.state !is Transferring ==> (throttle.accepts(piece) <==> throttle.limit.accepts(
            piece,
        )),
{
}

/// Limited streams come to what is described of their throttles, each direction by its own, and
/// never change the stream underneath themselves.
pub proof fn law_limited_streams_go_by_their_throttles<S, C, E>()
    ensures
        forall|throttle: &mut Throttle<C>,
            piece: Option<usize>,
            room: usize,
            step: TransferStep<C>| #[trigger]
            call_ensures(Throttle::<C>::start, (throttle, piece, room), step) ==> (
            *final(throttle),
            step,
            ) == (*throttle).started(piece, room as nat),
        forall|throttle: &mut Throttle<C>, outcome: &Poll<Result<usize, E>>| #[trigger]
            call_ensures(Throttle::<C>::settle::<E>, (throttle, outcome), ()) ==> (*final(throttle)).limit == (*throttle).limit && (*final(throttle)).state == (*throttle).state.settled(
                *outcome,
            ),
        forall|limited: &mut LimitRead<S, C>,
            piece: Option<usize>,
            buf: &mut ReadBuf<'_>,
            step: TransferStep<C>| #[trigger]
            call_ensures(LimitRead::<S, C>::poll_read, (limited, piece, buf), step) ==> {
                &&& (*final(limited)).read == (*limited).read
                &&& ((*final(limited)).read_limit, step) == (*limited).read_limit.started(
                    piece,
                    (capacity_of(*buf) - filled_bytes(*buf).len()) as nat,
                )
                &&& filled_bytes(*final(buf)) == filled_bytes(*buf)
            },
        forall|limited: &mut LimitWrite<S, C>,
            piece: Option<usize>,
            buf: &[u8],
            step: TransferStep<C>| #[trigger]
            call_ensures(LimitWrite::<S, C>::poll_write, (limited, piece, buf), step) ==> {
                &&& (*final(limited)).write == (*limited).write
                &&& ((*final(limited)).write_limit, step) == (*limited).write_limit.started(
                    piece,
                    buf@.len(),
                )
            },
{
}

/// What a poll of the stream underneath comes to is passed on: bytes that were read count as read,
/// behind what was filled and as they stand there; bytes that were written count with their number;
/// and an error is that error.
pub proof fn law_limited_streams_pass_on_what_came<S, C, E>()
    ensures
        forall|limited: &mut LimitRead<S, C>,
            outcome: Poll<Result<usize, E>>,
            buf: &mut ReadBuf<'_>,
            result: Poll<Result<(), E>>| #[trigger]
            call_ensures(LimitRead::<S, C>::read_polled::<E>, (limited, outcome, buf), result) ==> {
                &&& (*final(limited)).read_limit.state == (*limited).read_limit.state.settled(
                    outcome,
                )
                &&& outcome matches Poll::Ready(Ok(n)) ==> {
                    &&& result matches Poll::Ready(Ok(_))
                    &&& filled_bytes(*final(buf)) == filled_bytes(*buf) + spare_bytes(*buf).take(
                        n as int,
                    )
                }
                &&& outcome matches Poll::Ready(Err(e)) ==> result == Poll::Ready(Err::<(), E>(e))
                    && *final(buf) == *buf
                &&& outcome is Pending ==> result is Pending && *final(buf) == *buf
            },
        forall|limited: &mut LimitWrite<S, C>,
            outcome: Poll<Result<usize, E>>,
            result: Poll<Result<usize, E>>| #[trigger]
            call_ensures(LimitWrite::<S, C>::write_polled::<E>, (limited, outcome), result) ==> {
                &&& result == outcome
                &&& (*final(limited)).write_limit.state == (*limited).write_limit.state.settled(
                    outcome,
                )
            },
{
}

/// Each direction of a limited stream is limited by the session given for it, from the start.
pub proof fn law_directions_have_limits_of_their_own<S, C>(
    stream: S,
    read_limit: SpeedLimitSession<C>,
    write_limit: SpeedLimitSession<C>,
    limited: LimitStream<S, C>,
)
    requires
        call_ensures(LimitStream::<S, C>::new, (stream, read_limit, write_limit), limited),
    ensures
        limited.read.read_limit.limit == read_limit,
        limited.read.read_limit.state is Idle,
        limited.write.write_limit.limit == write_limit,
        limited.write.write_limit.state is Idle,
{
}

} // verus!
