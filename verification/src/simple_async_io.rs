//! Readers and writers that are plain asynchronous functions, each call of which is driven as a
//! future of its own.

use crate::buf::Buf;
use crate::offload::{
    law_writes_take_from_the_front, ReadOffload, ReadStep, SideStep, State, WriteOffload, WriteStep,
};
use crate::read_buf::{capacity_of, filled_bytes};
use tokio::io::ReadBuf;
use vstd::prelude::*;

verus! {

/// A reader each of whose reads is a future of its own.
pub struct SimpleAsyncReadHolder<T> {
    pub offload: ReadOffload<T>,
}

impl<T> SimpleAsyncReadHolder<T> {
    pub fn new(inner: T) -> (holder: SimpleAsyncReadHolder<T>)
        ensures
            holder.offload.is_new(inner),
            holder.offload.wf(),
    {
        SimpleAsyncReadHolder { offload: ReadOffload::new(inner) }
    }

    /// Begins or resumes a read into `dst`.
    pub fn poll_read(&mut self, dst: &mut ReadBuf<'_>) -> (step: ReadStep<T>)
        requires
            old(self).offload.wf(),
        ensures
            old(self).offload.polled(*old(dst), step, final(self).offload, *final(dst)),
            final(self).offload.wf(),
    {
        self.offload.poll_read(dst)
    }

    /// Takes back what a read comes to. One that failed has read nothing.
    pub fn read_done<E>(
        &mut self,
        result: Result<usize, E>,
        buf: Buf,
        inner: T,
        dst: &mut ReadBuf<'_>,
    ) -> (read: Result<(), E>)
        requires
            old(self).offload.state is Busy,
            buf.wf(),
            result is Err ==> buf@.len() == 0,
        ensures
            ReadOffload::took_back(
                result,
                buf@,
                inner,
                *old(dst),
                read,
                final(self).offload,
                *final(dst),
            ),
            final(self).offload.wf(),
    {
        self.offload.read_done(result, buf, inner, dst)
    }

    /// The reader, unless it is away with a job.
    pub fn with_lock_read(&mut self) -> (inner: Option<&mut T>)
        ensures
            match old(self).offload.inner {
                Some(was) => {
                    &&& inner is Some
                    &&& *inner->0 == was
                    &&& final(self).offload.inner == Some(*final(inner->0))
                },
                None => inner is None && final(self).offload.inner is None,
            },
            final(self).offload.state == old(self).offload.state,
    {
        self.offload.inner.as_mut()
    }

    /// Gives up everything but the reader, which is lost too if it is away with a job.
    pub fn into_read(self) -> (inner: Option<T>)
        ensures
            inner == self.offload.inner,
    {
        self.offload.inner
    }
}

/// A writer each of whose writes, flushes and shutdowns is a future of its own.
pub struct SimpleAsyncWriteHolder<T> {
    pub offload: WriteOffload<T>,
}

impl<T> SimpleAsyncWriteHolder<T> {
    pub fn new(inner: T) -> (holder: SimpleAsyncWriteHolder<T>)
        ensures
            holder.offload.is_new(inner),
            holder.offload.wf(),
    {
        SimpleAsyncWriteHolder { offload: WriteOffload::new(inner) }
    }

    /// Begins or resumes a write of `src`.
    pub fn poll_write(&mut self, src: &[u8]) -> (step: WriteStep<T>)
        requires
            old(self).offload.wf(),
            old(self).offload.state is Idle ==> old(self).offload.inner is Some,
        ensures
            old(self).offload.polled(src@, step, final(self).offload),
            final(self).offload.wf(),
    {
        self.offload.poll_write(src)
    }

    /// Takes back what a write comes to, and passes on its result.
    pub fn write_done<E>(&mut self, result: Result<usize, E>, buf: Buf, inner: T) -> (written:
        Result<usize, E>)
        requires
            old(self).offload.wf(),
            old(self).offload.state is Busy,
            buf.wf(),
            buf@.len() == 0,
        ensures
            written == result,
            final(self).offload == (WriteOffload {
                inner: Some(inner),
                state: State::Idle(buf),
                ..old(self).offload
            }),
            final(self).offload.wf(),
    {
        self.offload.write_done(result, buf, inner)
    }

    /// Begins or resumes a flush.
    pub fn poll_flush(&mut self) -> (step: SideStep<T>)
        requires
            old(self).offload.wf(),
            !old(self).offload.flushing ==> old(self).offload.inner is Some,
        ensures
            old(self).offload.polled_flush(step, final(self).offload),
            final(self).offload.wf(),
    {
        self.offload.poll_flush()
    }

    /// Takes back what a flush comes to, and passes on its result.
    pub fn flush_done<E>(&mut self, result: Result<(), E>, inner: T) -> (flushed: Result<(), E>)
        requires
            old(self).offload.wf(),
            old(self).offload.flushing,
        ensures
            flushed == result,
            final(self).offload == (WriteOffload {
                inner: Some(inner),
                flushing: false,
                ..old(self).offload
            }),
            final(self).offload.wf(),
    {
        self.offload.flush_done(result, inner)
    }

    /// Begins or resumes a shutdown.
    pub fn poll_shutdown(&mut self) -> (step: SideStep<T>)
        requires
            old(self).offload.wf(),
            !old(self).offload.shutting_down ==> old(self).offload.inner is Some,
        ensures
            old(self).offload.polled_shutdown(step, final(self).offload),
            final(self).offload.wf(),
    {
        self.offload.poll_shutdown()
    }

    /// Takes back what a shutdown comes to, and passes on its result.
    pub fn shutdown_done<E>(&mut self, result: Result<(), E>, inner: T) -> (shut: Result<(), E>)
        requires
            old(self).offload.wf(),
            old(self).offload.shutting_down,
        ensures
            shut == result,
            final(self).offload == (WriteOffload {
                inner: Some(inner),
                shutting_down: false,
                ..old(self).offload
            }),
            final(self).offload.wf(),
    {
        self.offload.shutdown_done(result, inner)
    }

    /// The writer, unless it is away with a job.
    pub fn with_lock_write(&mut self) -> (inner: Option<&mut T>)
        ensures
            match old(self).offload.inner {
                Some(was) => {
                    &&& inner is Some
                    &&& *inner->0 == was
                    &&& final(self).offload.inner == Some(*final(inner->0))
                },
                None => inner is None && final(self).offload.inner is None,
            },
            final(self).offload.state == old(self).offload.state,
            final(self).offload.flushing == old(self).offload.flushing,
            final(self).offload.shutting_down == old(self).offload.shutting_down,
    {
        self.offload.inner.as_mut()
    }

    /// Gives up everything but the writer, which is lost too if it is away with a job.
    pub fn into_write(self) -> (inner: Option<T>)
        ensures
            inner == self.offload.inner,
    {
        self.offload.inner
    }
}

/// A read job of an idle asynchronous reader may read as many bytes as there is room for, or 2 MiB where
/// that is less.
pub proof fn law_asynchronous_reads_ask_for_all_there_is_room_for<T>()
    ensures
        forall|reader: &mut SimpleAsyncReadHolder<T>, dst: &mut ReadBuf<'_>, step: ReadStep<T>| #[trigger]
            call_ensures(SimpleAsyncReadHolder::<T>::poll_read, (reader, dst), step) && capacity_of(*dst)
                >= filled_bytes(*dst).len() ==> (step matches ReadStep::Spawn(job) ==> {
                &&& job.max_buf_size <= capacity_of(*dst) - filled_bytes(*dst).len()
                &&& job.max_buf_size <= 2 * 1024 * 1024
                &&& job.max_buf_size == capacity_of(*dst) - filled_bytes(*dst).len()
                    || job.max_buf_size == 2 * 1024 * 1024
            }),
{
}

/// A write job of an idle asynchronous writer has all that is to be written, or 2 MiB from its front
/// where that is less.
pub proof fn law_asynchronous_writes_take_all_they_may<T>()
    ensures
        forall|writer: &mut SimpleAsyncWriteHolder<T>, src: &[u8], step: WriteStep<T>| #[trigger]
            call_ensures(SimpleAsyncWriteHolder::<T>::poll_write, (writer, src), step) ==> (
            step matches WriteStep::Spawn(job) ==> {
                &&& job.buf@.is_prefix_of(src@)
                &&& job.buf@.len() == src@.len() || job.buf@.len() == 2 * 1024 * 1024
                &&& job.buf@.len() <= 2 * 1024 * 1024
            }),
{
    assert forall|writer: &mut SimpleAsyncWriteHolder<T>, src: &[u8], step: WriteStep<T>| #[trigger]
        call_ensures(SimpleAsyncWriteHolder::<T>::poll_write, (writer, src), step) implies (
    step matches WriteStep::Spawn(job) ==> {
        &&& job.buf@.is_prefix_of(src@)
        &&& job.buf@.len() == src@.len() || job.buf@.len() == 2 * 1024 * 1024
        &&& job.buf@.len() <= 2 * 1024 * 1024
    }) by {
        if let WriteStep::Spawn(job) = step {
            law_writes_take_from_the_front(
                (*writer).offload,
                src@,
                job,
                (*final(writer)).offload,
            );
        }
    }
}

} // verus!
