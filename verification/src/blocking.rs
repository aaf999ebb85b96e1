//! Blocking readers and writers whose work is done on another thread.

use crate::buf::Buf;
use crate::offload::{
    law_writes_take_from_the_front, ReadOffload, ReadStep, SideStep, State, WriteOffload, WriteStep,
};
use crate::read_buf::{capacity_of, filled_bytes};
use crate::poll::Poll;
use tokio::io::ReadBuf;
use vstd::prelude::*;

verus! {

/// A blocking reader whose reads are done on another thread.
pub struct ReadBlocking<T> {
    pub offload: ReadOffload<T>,
}

impl<T> ReadBlocking<T> {
    pub fn new(inner: T) -> (reader: ReadBlocking<T>)
        ensures
            reader.offload.is_new(inner),
            reader.offload.wf(),
    {
        ReadBlocking { offload: ReadOffload::new(inner) }
    }

    /// Begins or resumes a read into `dst`.
    pub fn poll_read(&mut self, dst: &mut ReadBuf<'_>) -> (step: ReadStep<T>)
        requires
            old(self).offload.wf(),
        ensures
            old(self).offload.polled(*old(dst), step, final(self).offload, *final(dst)),
            final(self).offload.wf(),
    {
        self.offload.poll_read(dst)
    }

    /// Takes back what a read comes to. One that failed has read nothing.
    pub fn read_done<E>(
        &mut self,
        result: Result<usize, E>,
        buf: Buf,
        inner: T,
        dst: &mut ReadBuf<'_>,
    ) -> (read: Result<(), E>)
        requires
            old(self).offload.state is Busy,
            buf.wf(),
            result is Err ==> buf@.len() == 0,
        ensures
            ReadOffload::took_back(
                result,
                buf@,
                inner,
                *old(dst),
                read,
                final(self).offload,
                *final(dst),
            ),
            final(self).offload.wf(),
    {
        self.offload.read_done(result, buf, inner, dst)
    }
}

/// A blocking writer whose writes and flushes are done on another thread.
pub struct WriteBlocking<T> {
    pub offload: WriteOffload<T>,
}

impl<T> WriteBlocking<T> {
    pub fn new(inner: T) -> (writer: WriteBlocking<T>)
        ensures
            writer.offload.is_new(inner),
            writer.offload.wf(),
    {
        WriteBlocking { offload: WriteOffload::new(inner) }
    }

    /// Begins or resumes a write of `src`.
    pub fn poll_write(&mut self, src: &[u8]) -> (step: WriteStep<T>)
        requires
            old(self).offload.wf(),
            old(self).offload.state is Idle ==> old(self).offload.inner is Some,
        ensures
            old(self).offload.polled(src@, step, final(self).offload),
            final(self).offload.wf(),
    {
        self.offload.poll_write(src)
    }

    /// Takes back what a write comes to, and passes on its result.
    pub fn write_done<E>(&mut self, result: Result<usize, E>, buf: Buf, inner: T) -> (written:
        Result<usize, E>)
        requires
            old(self).offload.wf(),
            old(self).offload.state is Busy,
            buf.wf(),
            buf@.len() == 0,
        ensures
            written == result,
            final(self).offload == (WriteOffload {
                inner: Some(inner),
                state: State::Idle(buf),
                ..old(self).offload
            }),
            final(self).offload.wf(),
    {
        self.offload.write_done(result, buf, inner)
    }

    /// Begins or resumes a flush.
    pub fn poll_flush(&mut self) -> (step: SideStep<T>)
        requires
            old(self).offload.wf(),
            !old(self).offload.flushing ==> old(self).offload.inner is Some,
        ensures
            old(self).offload.polled_flush(step, final(self).offload),
            final(self).offload.wf(),
    {
        self.offload.poll_flush()
    }

    /// Takes back what a flush comes to, and passes on its result.
    pub fn flush_done<E>(&mut self, result: Result<(), E>, inner: T) -> (flushed: Result<(), E>)
        requires
            old(self).offload.wf(),
            old(self).offload.flushing,
        ensures
            flushed == result,
            final(self).offload == (WriteOffload {
                inner: Some(inner),
                flushing: false,
                ..old(self).offload
            }),
            final(self).offload.wf(),
    {
        self.offload.flush_done(result, inner)
    }

    /// There is nothing to shut down.
    pub fn poll_shutdown<E>(&mut self) -> (shut: Poll<Result<(), E>>)
        ensures
            shut == Poll::<Result<(), E>>::Ready(Ok(())),
            *final(self) == *old(self),
    {
        Poll::Ready(Ok(()))
    }
}

/// A read job of an idle blocking reader may read as many bytes as there is room for, or 2 MiB where
/// that is less.
pub proof fn law_blocking_reads_ask_for_all_there_is_room_for<T>()
    ensures
        forall|reader: &mut ReadBlocking<T>, dst: &mut ReadBuf<'_>, step: ReadStep<T>| #[trigger]
            call_ensures(ReadBlocking::<T>::poll_read, (reader, dst), step) && capacity_of(*dst)
                >= filled_bytes(*dst).len() ==> (step matches ReadStep::Spawn(job) ==> {
                &&& job.max_buf_size <= capacity_of(*dst) - filled_bytes(*dst).len()
                &&& job.max_buf_size <= 2 * 1024 * 1024
                &&& job.max_buf_size == capacity_of(*dst) - filled_bytes(*dst).len()
                    || job.max_buf_size == 2 * 1024 * 1024
            }),
{
}

/// A write job of an idle blocking writer has all that is to be written, or 2 MiB from its front
/// where that is less.
pub proof fn law_blocking_writes_take_all_they_may<T>()
    ensures
        forall|writer: &mut WriteBlocking<T>, src: &[u8], step: WriteStep<T>| #[trigger]
            call_ensures(WriteBlocking::<T>::poll_write, (writer, src), step) ==> (
            step matches WriteStep::Spawn(job) ==> {
                &&& job.buf@.is_prefix_of(src@)
                &&& job.buf@.len() == src@.len() || job.buf@.len() == 2 * 1024 * 1024
                &&& job.buf@.len() <= 2 * 1024 * 1024
            }),
{
    assert forall|writer: &mut WriteBlocking<T>, src: &[u8], step: WriteStep<T>| #[trigger]
        call_ensures(WriteBlocking::<T>::poll_write, (writer, src), step) implies (
    step matches WriteStep::Spawn(job) ==> {
        &&& job.buf@.is_prefix_of(src@)
        &&& job.buf@.len() == src@.len() || job.buf@.len() == 2 * 1024 * 1024
        &&& job.buf@.len() <= 2 * 1024 * 1024
    }) by {
        if let WriteStep::Spawn(job) = step {
            law_writes_take_from_the_front(
                (*writer).offload,
                src@,
                job,
                (*final(writer)).offload,
            );
        }
    }
}

} // verus!
