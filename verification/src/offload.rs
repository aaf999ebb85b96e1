//! Work that is done elsewhere: on a thread for blocking work, or by a future of its own.
//!
//! The reader or writer goes along with each job, together with the buffer, and comes back with
//! the outcome. `poll_read` and `poll_write` say what comes next: nothing, a job to be started, or
//! a job to be waited for. The outcome of a job goes into `read_done` and `write_done`.

use crate::buf::{Buf, DEFAULT_MAX_BUF_SIZE};
use crate::read_buf::{after_first, capacity_of, filled_bytes, room_in, spare_bytes};
use tokio::io::ReadBuf;
use vstd::math::min;
use vstd::prelude::*;

verus! {

/// Whether a job is under way.
pub enum State {
    /// None is, and this is the buffer for the next one.
    Idle(Buf),
    Busy,
}

/// A read that is to be done elsewhere, of at most so many bytes.
pub struct ReadJob<T> {
    pub inner: T,
    pub buf: Buf,
    pub max_buf_size: usize,
}

/// What comes next when reading.
pub enum ReadStep<T> {
    /// The read is done.
    Ready,
    /// This job is to be started, and then to be waited for.
    Spawn(ReadJob<T>),
    /// The job under way is to be waited for.
    Wait,
}

/// A write that is to be done elsewhere, of all that is in the buffer.
pub struct WriteJob<T> {
    pub inner: T,
    pub buf: Buf,
}

impl<T> ReadJob<T> {
    /// Whether the job is as it was handed out: with an empty buffer.
    pub open spec fn wf(self) -> bool {
        &&& self.buf.wf()
        &&& self.buf@.len() == 0
    }

    /// Makes room for as many bytes as the job may read.
    pub fn begin(&mut self)
        requires
            old(self).wf(),
        ensures
            final(self).inner == old(self).inner,
            final(self).max_buf_size == old(self).max_buf_size,
            final(self).buf@ == Seq::new(old(self).max_buf_size as nat, |i: int| 0u8),
            final(self).buf.is_whole(),
            final(self).buf.wf(),
    {
        self.buf.begin_read_from(self.max_buf_size);
    }
}

impl<T> WriteJob<T> {
    /// Whether the job is as it was handed out: with all its bytes.
    pub open spec fn wf(self) -> bool {
        &&& self.buf.wf()
        &&& self.buf.is_whole()
    }

    /// Takes note of a write of all the bytes, which counts with their number.
    pub fn wrote_all<E>(self, result: Result<(), E>) -> (back: (Result<usize, E>, Buf, T))
        requires
            self.wf(),
        ensures
            back.0 == match result {
                Ok(_) => Ok::<usize, E>(self.buf@.len() as usize),
                Err(e) => Err::<usize, E>(e),
            },
            back.1@ == Seq::<u8>::empty(),
            back.1.wf(),
            back.2 == self.inner,
    {
        let mut buf = self.buf;
        let n: usize = buf.len();
        let result = match buf.write_to(result) {
            Ok(_) => Ok(n),
            Err(e) => Err(e),
        };
        (result, buf, self.inner)
    }

    /// Takes note of one write of the bytes, which counts with what it took.
    pub fn wrote<E>(self, result: Result<usize, E>) -> (back: (Result<usize, E>, Buf, T))
        requires
            self.wf(),
        ensures
            back.0 == result,
            back.1@ == Seq::<u8>::empty(),
            back.1.wf(),
            back.2 == self.inner,
    {
        let mut buf = self.buf;
        let result = buf.write_to(result);
        (result, buf, self.inner)
    }
}

/// What comes next when writing.
pub enum WriteStep<T> {
    /// This job is to be started, and then to be waited for.
    Spawn(WriteJob<T>),
    /// The job under way is to be waited for.
    Wait,
}

/// What comes next when flushing or shutting down.
pub enum SideStep<T> {
    /// This is to be flushed or shut down elsewhere, and then to be waited for.
    Spawn(T),
    /// The job under way is to be waited for.
    Wait,
}

/// Whether `after` and `dst_after` are left once as many of `bytes` as there is room for have gone
/// to `dst`.
pub open spec fn handed_over(
    bytes: Seq<u8>,
    dst: ReadBuf<'_>,
    after: Seq<u8>,
    dst_after: ReadBuf<'_>,
) -> bool {
    let n = min(bytes.len() as int, room_in(dst));
    &&& filled_bytes(dst_after) == filled_bytes(dst) + bytes.take(n)
    &&& capacity_of(dst_after) == capacity_of(dst)
    &&& spare_bytes(dst_after) == after_first(spare_bytes(dst), n)
    &&& after == bytes.skip(n)
}

/// A reader whose reads are done elsewhere.
pub struct ReadOffload<T> {
    /// The reader, unless it is away with a job.
    pub inner: Option<T>,
    pub state: State,
}

impl<T> ReadOffload<T> {
    /// The reader is away exactly while a job is under way.
    pub open spec fn wf(self) -> bool {
        match self.state {
            State::Idle(buf) => self.inner is Some && buf.wf(),
            State::Busy => self.inner is None,
        }
    }

    /// The bytes that are read and not handed over.
    pub open spec fn held(self) -> Seq<u8> {
        match self.state {
            State::Idle(buf) => buf@,
            State::Busy => Seq::empty(),
        }
    }

    /// Whether nothing has been read with this reader yet.
    pub open spec fn is_new(self, inner: T) -> bool {
        &&& self.inner == Some(inner)
        &&& self.state is Idle
        &&& self.held() == Seq::<u8>::empty()
    }

    /// Whether a poll comes to `step` and leaves `after` and `dst_after`. What is held is handed
    /// over first. Where nothing is, the reader goes off for more, for as many bytes as there is
    /// room for and a job may have.
    pub open spec fn polled(
        self,
        dst: ReadBuf<'_>,
        step: ReadStep<T>,
        after: ReadOffload<T>,
        dst_after: ReadBuf<'_>,
    ) -> bool {
        match self.state {
            State::Busy => {
                &&& step is Wait
                &&& after == self
                &&& dst_after == dst
            },
            State::Idle(buf) => if buf@.len() > 0 {
                &&& step is Ready
                &&& after.inner == self.inner
                &&& after.state is Idle
                &&& handed_over(buf@, dst, after.held(), dst_after)
            } else {
                &&& step matches ReadStep::Spawn(job) && Some(job.inner) == self.inner && job.buf
                    == buf && job.max_buf_size == min(room_in(dst), DEFAULT_MAX_BUF_SIZE as int)
                &&& after.inner is None
                &&& after.state is Busy
                &&& dst_after == dst
            },
        }
    }

    /// Whether taking back `inner` from a job with this `result` and `bytes` comes to `read` and
    /// leaves `after` and `dst_after`: the bytes are handed over, unless the job failed.
    pub open spec fn took_back<E>(
        result: Result<usize, E>,
        bytes: Seq<u8>,
        inner: T,
        dst: ReadBuf<'_>,
        read: Result<(), E>,
        after: ReadOffload<T>,
        dst_after: ReadBuf<'_>,
    ) -> bool {
        &&& after.inner == Some(inner)
        &&& after.state is Idle
        &&& match result {
            Ok(_) => {
                &&& read == Ok::<(), E>(())
                &&& handed_over(bytes, dst, after.held(), dst_after)
            },
            Err(e) => {
                &&& read == Err::<(), E>(e)
                &&& after.held() == Seq::<u8>::empty()
                &&& dst_after == dst
            },
        }
    }

    pub fn new(inner: T) -> (offload: ReadOffload<T>)
        ensures
            offload.is_new(inner),
            offload.wf(),
    {
        ReadOffload { inner: Some(inner), state: State::Idle(Buf::with_capacity(0)) }
    }

    /// Begins or resumes a read into `dst`.
    pub fn poll_read(&mut self, dst: &mut ReadBuf<'_>) -> (step: ReadStep<T>)
        requires
            old(self).wf(),
        ensures
            old(self).polled(*old(dst), step, *final(self), *final(dst)),
            final(self).wf(),
    {
        let mut state = State::Busy;
        core::mem::swap(&mut state, &mut self.state);
        match state {
            State::Busy => ReadStep::Wait,
            State::Idle(mut buf) => {
                if !buf.is_empty() {
                    buf.copy_to(dst);
                    self.state = State::Idle(buf);
                    return ReadStep::Ready;
                }
                let inner = self.inner.take().unwrap();
                let room: usize = dst.remaining();
                let max_buf_size: usize = if room <= DEFAULT_MAX_BUF_SIZE {
                    room
                } else {
                    DEFAULT_MAX_BUF_SIZE
                };
                ReadStep::Spawn(ReadJob { inner, buf, max_buf_size })
            },
        }
    }

    /// Takes back what a job comes to. One that failed has read nothing.
    pub fn read_done<E>(
        &mut self,
        result: Result<usize, E>,
        buf: Buf,
        inner: T,
        dst: &mut ReadBuf<'_>,
    ) -> (read: Result<(), E>)
        requires
            old(self).state is Busy,
            buf.wf(),
            result is Err ==> buf@.len() == 0,
        ensures
            Self::took_back(result, buf@, inner, *old(dst), read, *final(self), *final(dst)),
            final(self).wf(),
    {
        let mut buf = buf;
        self.inner = Some(inner);
        match result {
            Ok(_) => {
                buf.copy_to(dst);
                self.state = State::Idle(buf);
                Ok(())
            },
            Err(e) => {
                assert(buf@ =~= Seq::<u8>::empty());
                self.state = State::Idle(buf);
                Err(e)
            },
        }
    }
}

/// A writer whose writes are done elsewhere, and whose flushes and shutdowns are.
pub struct WriteOffload<T> {
    /// The writer, unless it is away with a job.
    pub inner: Option<T>,
    pub state: State,
    /// Whether a flush is under way.
    pub flushing: bool,
    /// Whether a shutdown is under way.
    pub shutting_down: bool,
}

impl<T> WriteOffload<T> {
    /// The writer is away exactly while a job is under way, and there is never more than one.
    pub open spec fn wf(self) -> bool {
        match self.state {
            State::Idle(buf) => {
                &&& buf.wf()
                &&& buf@.len() == 0
                &&& !(self.flushing && self.shutting_down)
                &&& self.inner is None <==> self.flushing || self.shutting_down
            },
            State::Busy => self.inner is None && !self.flushing && !self.shutting_down,
        }
    }

    /// Whether nothing has been written with this writer yet.
    pub open spec fn is_new(self, inner: T) -> bool {
        &&& self.inner == Some(inner)
        &&& self.state is Idle
        &&& !self.flushing
        &&& !self.shutting_down
    }

    /// Whether a poll with `src` comes to `step` and leaves `after`: the writer goes off with as
    /// many bytes from the front of `src` as a job may have.
    pub open spec fn polled(self, src: Seq<u8>, step: WriteStep<T>, after: WriteOffload<T>) -> bool {
        match self.state {
            State::Busy => step is Wait && after == self,
            State::Idle(_) => {
                &&& step matches WriteStep::Spawn(job) && Some(job.inner) == self.inner && job.wf()
                    && job.buf@ == src.take(min(src.len() as int, DEFAULT_MAX_BUF_SIZE as int))
                &&& after == (WriteOffload { inner: None::<T>, state: State::Busy, ..self })
            },
        }
    }

    /// Whether a poll for a flush comes to `step` and leaves `after`.
    pub open spec fn polled_flush(self, step: SideStep<T>, after: WriteOffload<T>) -> bool {
        if self.flushing {
            step is Wait && after == self
        } else {
            &&& step matches SideStep::Spawn(inner) && Some(inner) == self.inner
            &&& after == (WriteOffload { inner: None::<T>, flushing: true, ..self })
        }
    }

    /// Whether a poll for a shutdown comes to `step` and leaves `after`.
    pub open spec fn polled_shutdown(self, step: SideStep<T>, after: WriteOffload<T>) -> bool {
        if self.shutting_down {
            step is Wait && after == self
        } else {
            &&& step matches SideStep::Spawn(inner) && Some(inner) == self.inner
            &&& after == (WriteOffload { inner: None::<T>, shutting_down: true, ..self })
        }
    }

    pub fn new(inner: T) -> (offload: WriteOffload<T>)
        ensures
            offload.is_new(inner),
            offload.wf(),
    {
        WriteOffload {
            inner: Some(inner),
            state: State::Idle(Buf::with_capacity(0)),
            flushing: false,
            shutting_down: false,
        }
    }

    /// Begins or resumes a write of `src`.
    pub fn poll_write(&mut self, src: &[u8]) -> (step: WriteStep<T>)
        requires
            old(self).wf(),
            old(self).state is Idle ==> old(self).inner is Some,
        ensures
            old(self).polled(src@, step, *final(self)),
            final(self).wf(),
    {
        let mut state = State::Busy;
        core::mem::swap(&mut state, &mut self.state);
        match state {
            State::Busy => WriteStep::Wait,
            State::Idle(mut buf) => {
                buf.copy_from(src, DEFAULT_MAX_BUF_SIZE);
                let inner = self.inner.take().unwrap();
                WriteStep::Spawn(WriteJob { inner, buf })
            },
        }
    }

    /// Takes back what a job comes to, and passes on its result.
    pub fn write_done<E>(&mut self, result: Result<usize, E>, buf: Buf, inner: T) -> (written:
        Result<usize, E>)
        requires
            old(self).wf(),
            old(self).state is Busy,
            buf.wf(),
            buf@.len() == 0,
        ensures
            written == result,
            *final(self) == (WriteOffload {
                inner: Some(inner),
                state: State::Idle(buf),
                ..*old(self)
            }),
            final(self).wf(),
    {
        self.state = State::Idle(buf);
        self.inner = Some(inner);
        result
    }

    /// Begins or resumes a flush. The buffer has no part in it.
    pub fn poll_flush(&mut self) -> (step: SideStep<T>)
        requires
            old(self).wf(),
            !old(self).flushing ==> old(self).inner is Some,
        ensures
            old(self).polled_flush(step, *final(self)),
            final(self).wf(),
    {
        if self.flushing {
            return SideStep::Wait;
        }
        let inner = self.inner.take().unwrap();
        self.flushing = true;
        SideStep::Spawn(inner)
    }

    /// Takes back what a flush comes to, and passes on its result.
    pub fn flush_done<E>(&mut self, result: Result<(), E>, inner: T) -> (flushed: Result<(), E>)
        requires
            old(self).wf(),
            old(self).flushing,
        ensures
            flushed == result,
            *final(self) == (WriteOffload { inner: Some(inner), flushing: false, ..*old(self) }),
            final(self).wf(),
    {
        self.flushing = false;
        self.inner = Some(inner);
        result
    }

    /// Begins or resumes a shutdown.
    pub fn poll_shutdown(&mut self) -> (step: SideStep<T>)
        requires
            old(self).wf(),
            !old(self).shutting_down ==> old(self).inner is Some,
        ensures
            old(self).polled_shutdown(step, *final(self)),
            final(self).wf(),
    {
        if self.shutting_down {
            return SideStep::Wait;
        }
        let inner = self.inner.take().unwrap();
        self.shutting_down = true;
        SideStep::Spawn(inner)
    }

    /// Takes back what a shutdown comes to, and passes on its result.
    pub fn shutdown_done<E>(&mut self, result: Result<(), E>, inner: T) -> (shut: Result<(), E>)
        requires
            old(self).wf(),
            old(self).shutting_down,
        ensures
            shut == result,
            *final(self) == (WriteOffload {
                inner: Some(inner),
                shutting_down: false,
                ..*old(self)
            }),
            final(self).wf(),
    {
        self.shutting_down = false;
        self.inner = Some(inner);
        result
    }
}

/// Reads arrive in order and complete: what is handed over and what is held then is what was there
/// before and what has been read.
pub proof fn law_reads_arrive_in_order(
    bytes: Seq<u8>,
    dst: ReadBuf<'_>,
    after: Seq<u8>,
    dst_after: ReadBuf<'_>,
)
    requires
        handed_over(bytes, dst, after, dst_after),
        room_in(dst) >= 0,
    ensures
        filled_bytes(dst_after) + after == filled_bytes(dst) + bytes,
        after.len() > 0 ==> room_in(dst_after) == 0,
{
    let n = min(bytes.len() as int, room_in(dst));
    assert(bytes.take(n) + bytes.skip(n) =~= bytes);
    assert((filled_bytes(dst) + bytes.take(n)) + bytes.skip(n) =~= filled_bytes(dst) + (bytes.take(
        n,
    ) + bytes.skip(n)));
}

/// What a call on a [`ReadOffload`] is, and comes to.
pub enum ReadCallKind<T, E> {
    /// A poll, and what comes next.
    Poll(ReadStep<T>),
    /// A job that comes back with this result and these bytes, and what the read comes to.
    Done { result: Result<usize, E>, bytes: Seq<u8>, inner: T, read: Result<(), E> },
}

/// A call on a [`ReadOffload`], with what it finds and what it leaves.
pub struct ReadCall<'a, T, E> {
    pub kind: ReadCallKind<T, E>,
    pub before: ReadOffload<T>,
    pub dst: ReadBuf<'a>,
    pub after: ReadOffload<T>,
    pub dst_after: ReadBuf<'a>,
}

impl<'a, T, E> ReadCall<'a, T, E> {
    pub open spec fn is_valid(self) -> bool {
        &&& room_in(self.dst) >= 0
        &&& match self.kind {
            ReadCallKind::Poll(step) => self.before.polled(
                self.dst,
                step,
                self.after,
                self.dst_after,
            ),
            ReadCallKind::Done { result, bytes, inner, read } => {
                &&& self.before.state is Busy
                &&& ReadOffload::took_back(
                    result,
                    bytes,
                    inner,
                    self.dst,
                    read,
                    self.after,
                    self.dst_after,
                )
            },
        }
    }

    /// The bytes that the call brings from the reader.
    pub open spec fn read(self) -> Seq<u8> {
        match self.kind {
            ReadCallKind::Done { result: Ok(_), bytes, .. } => bytes,
            _ => Seq::empty(),
        }
    }

    /// The bytes that the call hands over: those that the destination has more than before.
    pub open spec fn delivered(self) -> Seq<u8> {
        filled_bytes(self.dst_after).skip(filled_bytes(self.dst).len() as int)
    }
}

/// Whether these calls follow each other on a reader that holds nothing at first.
pub open spec fn are_reads<T, E>(calls: Seq<ReadCall<'_, T, E>>) -> bool
    decreases calls.len(),
{
    calls.len() > 0 ==> {
        &&& are_reads(calls.drop_last())
        &&& calls.last().is_valid()
        &&& if calls.len() == 1 {
            calls.last().before.held().len() == 0
        } else {
            calls.last().before == calls[calls.len() - 2].after
        }
    }
}

/// All the bytes that these calls bring from the reader.
pub open spec fn all_read<T, E>(calls: Seq<ReadCall<'_, T, E>>) -> Seq<u8>
    decreases calls.len(),
{
    if calls.len() == 0 {
        Seq::empty()
    } else {
        all_read(calls.drop_last()) + calls.last().read()
    }
}

/// All the bytes that these calls hand over.
pub open spec fn all_delivered<T, E>(calls: Seq<ReadCall<'_, T, E>>) -> Seq<u8>
    decreases calls.len(),
{
    if calls.len() == 0 {
        Seq::empty()
    } else {
        all_delivered(calls.drop_last()) + calls.last().delivered()
    }
}

/// Over any calls, whatever room there is for each, what is delivered is a prefix of what was read:
/// nothing is lost, made up or put out of order. The rest is what is held.
pub proof fn law_delivery_is_a_prefix_of_what_is_read<T, E>(calls: Seq<ReadCall<'_, T, E>>)
    requires
        calls.len() > 0,
        are_reads(calls),
    ensures
        all_delivered(calls) + calls.last().after.held() == all_read(calls),
        all_delivered(calls).is_prefix_of(all_read(calls)),
    decreases calls.len(),
{
    let last = calls.last();
    let rest = calls.drop_last();
    let before = last.before.held();
    let after = last.after.held();
    if calls.len() > 1 {
        law_delivery_is_a_prefix_of_what_is_read(rest);
        assert(rest.last() == calls[calls.len() - 2]);
    } else {
        assert(before =~= Seq::empty());
    }
    assert(all_delivered(rest) + before =~= all_read(rest));
    assert(before + last.read() =~= last.delivered() + after) by {
        let bytes = before + last.read();
        if handed_over(bytes, last.dst, after, last.dst_after) {
            law_reads_arrive_in_order(bytes, last.dst, after, last.dst_after);
            let n = min(bytes.len() as int, room_in(last.dst));
            assert(last.delivered() =~= bytes.take(n));
            assert(bytes.take(n) + bytes.skip(n) =~= bytes);
        } else {
            assert(last.dst_after == last.dst);
            assert(last.delivered() =~= Seq::empty());
        }
    }
    assert(all_delivered(calls) + after =~= all_delivered(rest) + (last.delivered() + after));
    assert(all_read(calls) =~= all_delivered(rest) + (before + last.read()));
    assert(all_read(calls).subrange(0, all_delivered(calls).len() as int) =~= all_delivered(calls));
}

/// A write takes from the front of what it is given, never more than a job may have, and never
/// nothing as long as there is something.
pub proof fn law_writes_take_from_the_front<T>(
    offload: WriteOffload<T>,
    src: Seq<u8>,
    job: WriteJob<T>,
    after: WriteOffload<T>,
)
    requires
        offload.polled(src, WriteStep::Spawn(job), after),
    ensures
        job.buf@.is_prefix_of(src),
        job.buf@.len() <= DEFAULT_MAX_BUF_SIZE,
        src.len() > 0 ==> job.buf@.len() > 0,
{
    let n = min(src.len() as int, DEFAULT_MAX_BUF_SIZE as int);
    assert(src.take(n) =~= src.subrange(0, n));
}

/// A read job may read as many bytes as there is room for, or 2 MiB where that is less: a read of
/// nothing, where there is room, is the end of the reader. The job has the reader with it, and
/// nothing else changes.
pub proof fn law_read_jobs_ask_for_all_there_is_room_for<T>(
    offload: ReadOffload<T>,
    dst: ReadBuf<'_>,
    job: ReadJob<T>,
    after: ReadOffload<T>,
    dst_after: ReadBuf<'_>,
)
    requires
        offload.polled(dst, ReadStep::Spawn(job), after, dst_after),
        capacity_of(dst) >= filled_bytes(dst).len(),
    ensures
        job.max_buf_size <= capacity_of(dst) - filled_bytes(dst).len(),
        job.max_buf_size <= 2 * 1024 * 1024,
        job.max_buf_size == capacity_of(dst) - filled_bytes(dst).len() || job.max_buf_size == 2
            * 1024 * 1024,
        capacity_of(dst) > filled_bytes(dst).len() ==> job.max_buf_size > 0,
        offload.inner == Some(job.inner),
        job.buf@.len() == 0,
        after.inner is None,
        after.state is Busy,
        dst_after == dst,
{
}

/// A reader that is away is waited for. One that is there and has bytes left hands them over, and
/// goes nowhere. Only one that has none left goes off for more.
pub proof fn law_reads_go_off_only_for_more<T>(
    offload: ReadOffload<T>,
    dst: ReadBuf<'_>,
    step: ReadStep<T>,
    after: ReadOffload<T>,
    dst_after: ReadBuf<'_>,
)
    requires
        offload.polled(dst, step, after, dst_after),
    ensures
        match offload.state {
            State::Busy => step is Wait && after == offload && dst_after == dst,
            State::Idle(buf) => {
                &&& buf@.len() > 0 <==> step is Ready
                &&& buf@.len() == 0 <==> step is Spawn
                &&& step is Ready ==> after.inner == offload.inner && after.state is Idle
            },
        },
{
}

/// What is handed over is from the front of what is held, as much as there is room for: the
/// destination is full then, or nothing is left. What the destination had stays.
pub proof fn law_as_much_is_handed_over_as_fits(
    bytes: Seq<u8>,
    dst: ReadBuf<'_>,
    after: Seq<u8>,
    dst_after: ReadBuf<'_>,
)
    requires
        handed_over(bytes, dst, after, dst_after),
        capacity_of(dst) >= filled_bytes(dst).len(),
    ensures
        capacity_of(dst_after) == capacity_of(dst),
        filled_bytes(dst).is_prefix_of(filled_bytes(dst_after)),
        filled_bytes(dst_after) + after == filled_bytes(dst) + bytes,
        filled_bytes(dst_after).len() <= capacity_of(dst),
        after.len() == 0 || filled_bytes(dst_after).len() == capacity_of(dst),
{
    law_reads_arrive_in_order(bytes, dst, after, dst_after);
    let n = min(bytes.len() as int, room_in(dst));
    assert(filled_bytes(dst_after).subrange(0, filled_bytes(dst).len() as int) =~= filled_bytes(
        dst,
    ));
}

/// A job that comes back brings the reader back. One that succeeded makes the read succeed, with
/// its bytes handed over. One that failed fails the read with its own error, and the destination
/// stays as it is.
pub proof fn law_jobs_bring_back_what_they_came_to<T, E>(
    result: Result<usize, E>,
    bytes: Seq<u8>,
    inner: T,
    dst: ReadBuf<'_>,
    read: Result<(), E>,
    after: ReadOffload<T>,
    dst_after: ReadBuf<'_>,
)
    requires
        ReadOffload::took_back(result, bytes, inner, dst, read, after, dst_after),
        capacity_of(dst) >= filled_bytes(dst).len(),
    ensures
        after.inner == Some(inner),
        after.state is Idle,
        result is Ok ==> {
            &&& read == Ok::<(), E>(())
            &&& filled_bytes(dst_after) + after.held() == filled_bytes(dst) + bytes
        },
        result matches Err(e) ==> {
            &&& read == Err::<(), E>(e)
            &&& dst_after == dst
            &&& after.held().len() == 0
        },
{
    if result is Ok {
        law_as_much_is_handed_over_as_fits(bytes, dst, after.held(), dst_after);
    }
}

/// What a reader holds is in its buffer as long as it is there, and it holds nothing while it is
/// away.
pub proof fn law_what_a_reader_holds<T>(offload: ReadOffload<T>)
    ensures
        offload.state matches State::Idle(buf) ==> offload.held() == buf@,
        offload.state is Busy ==> offload.held().len() == 0,
{
}

/// A reader or writer is there from the start, with nothing held and nothing under way.
pub proof fn law_new_offloads_are_idle<T>(
    reader: ReadOffload<T>,
    writer: WriteOffload<T>,
    inner: T,
)
    ensures
        reader.is_new(inner) ==> {
            &&& reader.inner == Some(inner)
            &&& reader.state matches State::Idle(buf) && buf@.len() == 0
        },
        writer.is_new(inner) ==> {
            &&& writer.inner == Some(inner)
            &&& writer.state is Idle
            &&& !writer.flushing
            &&& !writer.shutting_down
        },
{
}

/// A writer that is away is waited for. One that is there goes off with all that it is given, or
/// with 2 MiB from the front where that is less, and with nothing else.
pub proof fn law_write_jobs_take_all_they_may<T>(
    offload: WriteOffload<T>,
    src: Seq<u8>,
    step: WriteStep<T>,
    after: WriteOffload<T>,
)
    requires
        offload.polled(src, step, after),
    ensures
        offload.state is Busy ==> step is Wait && after == offload,
        offload.state is Idle ==> (step matches WriteStep::Spawn(job) && {
            &&& offload.inner == Some(job.inner)
            &&& job.buf@ == src.subrange(0, job.buf@.len() as int)
            &&& job.buf@.len() <= src.len()
            &&& job.buf@.len() <= 2 * 1024 * 1024
            &&& job.buf@.len() == src.len() || job.buf@.len() == 2 * 1024 * 1024
            &&& after.inner is None
            &&& after.state is Busy
            &&& after.flushing == offload.flushing
            &&& after.shutting_down == offload.shutting_down
        }),
{
    let n = min(src.len() as int, DEFAULT_MAX_BUF_SIZE as int);
    assert(src.take(n) =~= src.subrange(0, n));
}

/// A flush or a shutdown that is under way is waited for. Otherwise the writer goes off for it,
/// and nothing but that is marked.
pub proof fn law_one_flush_or_shutdown_at_a_time<T>(
    offload: WriteOffload<T>,
    step: SideStep<T>,
    after: WriteOffload<T>,
)
    ensures
        offload.polled_flush(step, after) ==> {
            &&& offload.flushing ==> step is Wait && after == offload
            &&& !offload.flushing ==> {
                &&& step matches SideStep::Spawn(inner) && offload.inner == Some(inner)
                &&& after.inner is None
                &&& after.flushing
                &&& after.shutting_down == offload.shutting_down
                &&& after.state == offload.state
            }
        },
        offload.polled_shutdown(step, after) ==> {
            &&& offload.shutting_down ==> step is Wait && after == offload
            &&& !offload.shutting_down ==> {
                &&& step matches SideStep::Spawn(inner) && offload.inner == Some(inner)
                &&& after.inner is None
                &&& after.shutting_down
                &&& after.flushing == offload.flushing
                &&& after.state == offload.state
            }
        },
{
}

/// A write of all the bytes counts with all of them, and one write with what it took; one that
/// failed is passed on as it failed. Either way the writer comes back with an empty buffer.
pub proof fn law_writes_count_what_was_taken<T, E>(
    job: WriteJob<T>,
    all: Result<(), E>,
    all_back: (Result<usize, E>, Buf, T),
    one: Result<usize, E>,
    one_back: (Result<usize, E>, Buf, T),
)
    requires
        job.wf(),
        call_ensures(WriteJob::<T>::wrote_all::<E>, (job, all), all_back),
        call_ensures(WriteJob::<T>::wrote::<E>, (job, one), one_back),
        job.buf@.len() <= usize::MAX,
    ensures
        all is Ok ==> all_back.0 == Ok::<usize, E>(job.buf@.len() as usize),
        all matches Err(e) ==> all_back.0 == Err::<usize, E>(e),
        one_back.0 == one,
        all_back.1@.len() == 0,
        one_back.1@.len() == 0,
        all_back.2 == job.inner,
        one_back.2 == job.inner,
{
}

/// The operations of a reader and of a writer come to what is described of them.
pub proof fn law_offloads_do_what_is_described<T, E>()
    ensures
        forall|offload: &mut ReadOffload<T>, dst: &mut ReadBuf<'_>, step: ReadStep<T>| #[trigger]
            call_ensures(ReadOffload::<T>::poll_read, (offload, dst), step) ==> (*offload).polled(
                *dst,
                step,
                *final(offload),
                *final(dst),
            ),
        forall|offload: &mut ReadOffload<T>,
            result: Result<usize, E>,
            buf: Buf,
            inner: T,
            dst: &mut ReadBuf<'_>,
            read: Result<(), E>| #[trigger]
            call_ensures(
                ReadOffload::<T>::read_done::<E>,
                (offload, result, buf, inner, dst),
                read,
            ) ==> ReadOffload::took_back(
                result,
                buf@,
                inner,
                *dst,
                read,
                *final(offload),
                *final(dst),
            ),
        forall|offload: &mut WriteOffload<T>, src: &[u8], step: WriteStep<T>| #[trigger]
            call_ensures(WriteOffload::<T>::poll_write, (offload, src), step) ==> (
            *offload).polled(src@, step, *final(offload)),
        forall|offload: &mut WriteOffload<T>, step: SideStep<T>| #[trigger]
            call_ensures(WriteOffload::<T>::poll_flush, (offload,), step) ==> (
            *offload).polled_flush(step, *final(offload)),
        forall|offload: &mut WriteOffload<T>, step: SideStep<T>| #[trigger]
            call_ensures(WriteOffload::<T>::poll_shutdown, (offload,), step) ==> (
            *offload).polled_shutdown(step, *final(offload)),
{
}

/// What a write, a flush or a shutdown comes to is passed on as it is, and brings the writer back.
pub proof fn law_writers_come_back_with_their_result<T, E>()
    ensures
        forall|offload: &mut WriteOffload<T>,
            result: Result<usize, E>,
            buf: Buf,
            inner: T,
            written: Result<usize, E>| #[trigger]
            call_ensures(
                WriteOffload::<T>::write_done::<E>,
                (offload, result, buf, inner),
                written,
            ) ==> written == result && (*final(offload)).inner == Some(inner) && (*final(offload)).state is Idle,
        forall|offload: &mut WriteOffload<T>,
            result: Result<(), E>,
            inner: T,
            flushed: Result<(), E>| #[trigger]
            call_ensures(WriteOffload::<T>::flush_done::<E>, (offload, result, inner), flushed)
                ==> flushed == result && (*final(offload)).inner == Some(inner) && !(*final(offload)).flushing,
        forall|offload: &mut WriteOffload<T>,
            result: Result<(), E>,
            inner: T,
            shut: Result<(), E>| #[trigger]
            call_ensures(WriteOffload::<T>::shutdown_done::<E>, (offload, result, inner), shut)
                ==> shut == result && (*final(offload)).inner == Some(inner) && !(*final(offload)).shutting_down,
{
}

/// The room that a read job has is just as much as it may read.
pub proof fn law_read_jobs_have_the_room_they_may_fill<T>()
    ensures
        forall|job: &mut ReadJob<T>| #[trigger]
            call_ensures(ReadJob::<T>::begin, (job,), ()) ==> (*final(job)).buf@.len() == (
            *job).max_buf_size && (*final(job)).inner == (*job).inner,
{
}

} // verus!
