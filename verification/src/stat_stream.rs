//! Streams whose traffic is counted.
//!
//! The stream underneath is polled by the caller, who reports the outcome to `read_polled` or
//! `write_polled`. What counts as read is all that the buffer holds then, and what counts as
//! written is all that was offered, however much of it the stream took.

use crate::poll::Poll;
use crate::read_buf::filled_bytes;
use crate::speed_stat::{SfoSpeedStat, SpeedTracker, TimePicker, DEFAULT_SPEED_DURATION};
use tokio::io::ReadBuf;
use vstd::prelude::*;

verus! {

/// Tells a tracker of a read: one that is done counts with the length of what the buffer holds, and
/// any other not at all.
fn count_read<K: SpeedTracker, E>(
    stat: &mut K,
    outcome: &Poll<Result<(), E>>,
    buf: &ReadBuf<'_>,
) -> (recorded: bool)
    ensures
        match *outcome {
            Poll::Ready(Ok(())) => exists|tracker: &mut K| #[trigger]
                call_ensures(
                    K::add_read_data_size,
                    (tracker, filled_bytes(*buf).len() as u64),
                    recorded,
                ) && *tracker == *old(stat) && *final(tracker) == *final(stat),
            _ => recorded && *final(stat) == *old(stat),
        },
{
    match outcome {
        Poll::Ready(Ok(())) => stat.add_read_data_size(buf.filled().len() as u64),
        _ => true,
    }
}

/// Tells a tracker of a write: one that is done counts with the length of what was offered, and any
/// other not at all.
fn count_write<K: SpeedTracker, E>(
    stat: &mut K,
    outcome: &Poll<Result<usize, E>>,
    buf: &[u8],
) -> (recorded: bool)
    ensures
        match *outcome {
            Poll::Ready(Ok(_)) => exists|tracker: &mut K| #[trigger]
                call_ensures(K::add_write_data_size, (tracker, buf@.len() as u64), recorded)
                    && *tracker == *old(stat) && *final(tracker) == *final(stat),
            _ => recorded && *final(stat) == *old(stat),
        },
{
    match outcome {
        Poll::Ready(Ok(_)) => stat.add_write_data_size(buf.len() as u64),
        _ => true,
    }
}

/// A stream whose traffic is counted both ways.
pub struct StatStream<T, K = SfoSpeedStat> {
    pub stream: T,
    pub stat: K,
}

impl<T> StatStream<T, SfoSpeedStat> {
    pub fn new(stream: T) -> (counted: StatStream<T, SfoSpeedStat>)
        ensures
            counted.stream == stream,
            counted.stat.is_new(DEFAULT_SPEED_DURATION),
    {
        StatStream { stream, stat: SfoSpeedStat::new() }
    }
}

impl<T, S: TimePicker> StatStream<T, SfoSpeedStat<S>> {
    /// Counts by the clock `S`.
    pub fn new_test(stream: T) -> (counted: StatStream<T, SfoSpeedStat<S>>)
        ensures
            counted.stream == stream,
            counted.stat.is_new(DEFAULT_SPEED_DURATION),
    {
        StatStream { stream, stat: SfoSpeedStat::new_with_time_picker() }
    }
}

impl<T, K: SpeedTracker> StatStream<T, K> {
    pub fn new_with_tracker(stream: T, tracker: K) -> (counted: StatStream<T, K>)
        ensures
            counted.stream == stream,
            counted.stat == tracker,
    {
        StatStream { stream, stat: tracker }
    }

    pub fn get_speed_stat(&self) -> (stat: &K)
        ensures
            *stat == self.stat,
    {
        &self.stat
    }

    pub fn raw_stream(&mut self) -> (stream: &mut T)
        ensures
            *stream == old(self).stream,
            final(self).stream == *final(stream),
            final(self).stat == old(self).stat,
    {
        &mut self.stream
    }

    /// Takes note of a poll of the stream underneath with `buf`: a read that is done is reported to
    /// the tracker with the length of what `buf` holds. Returns whether what there was to report
    /// has been recorded.
    pub fn read_polled<E>(&mut self, outcome: &Poll<Result<(), E>>, buf: &ReadBuf<'_>) -> (recorded:
        bool)
        ensures
            final(self).stream == old(self).stream,
            match *outcome {
                Poll::Ready(Ok(())) => exists|tracker: &mut K| #[trigger]
                    call_ensures(
                        K::add_read_data_size,
                        (tracker, filled_bytes(*buf).len() as u64),
                        recorded,
                    ) && *tracker == old(self).stat && *final(tracker) == final(self).stat,
                _ => recorded && final(self).stat == old(self).stat,
            },
    {
        count_read(&mut self.stat, outcome, buf)
    }

    /// Takes note of a poll of the stream underneath with `buf`: a write that is done is reported to
    /// the tracker with the length of `buf`. Returns whether what there was to report has been
    /// recorded.
    pub fn write_polled<E>(&mut self, outcome: &Poll<Result<usize, E>>, buf: &[u8]) -> (recorded:
        bool)
        ensures
            final(self).stream == old(self).stream,
            match *outcome {
                Poll::Ready(Ok(_)) => exists|tracker: &mut K| #[trigger]
                    call_ensures(K::add_write_data_size, (tracker, buf@.len() as u64), recorded)
                        && *tracker == old(self).stat && *final(tracker) == final(self).stat,
                _ => recorded && final(self).stat == old(self).stat,
            },
    {
        count_write(&mut self.stat, outcome, buf)
    }
}

/// A reader whose traffic is counted.
pub struct StatRead<T, K = SfoSpeedStat> {
    pub reader: T,
    pub stat: K,
}

impl<T> StatRead<T, SfoSpeedStat> {
    pub fn new(reader: T) -> (counted: StatRead<T, SfoSpeedStat>)
        ensures
            counted.reader == reader,
            counted.stat.is_new(DEFAULT_SPEED_DURATION),
    {
        StatRead { reader, stat: SfoSpeedStat::new() }
    }
}

impl<T, S: TimePicker> StatRead<T, SfoSpeedStat<S>> {
    /// Counts by the clock `S`.
    pub fn new_test(reader: T) -> (counted: StatRead<T, SfoSpeedStat<S>>)
        ensures
            counted.reader == reader,
            counted.stat.is_new(DEFAULT_SPEED_DURATION),
    {
        StatRead { reader, stat: SfoSpeedStat::new_with_time_picker() }
    }
}

impl<T, K: SpeedTracker> StatRead<T, K> {
    pub fn new_with_tracker(reader: T, tracker: K) -> (counted: StatRead<T, K>)
        ensures
            counted.reader == reader,
            counted.stat == tracker,
    {
        StatRead { reader, stat: tracker }
    }

    pub fn get_speed_stat(&self) -> (stat: &K)
        ensures
            *stat == self.stat,
    {
        &self.stat
    }

    pub fn raw_reader(&mut self) -> (reader: &mut T)
        ensures
            *reader == old(self).reader,
            final(self).reader == *final(reader),
            final(self).stat == old(self).stat,
    {
        &mut self.reader
    }

    /// Takes note of a poll of the reader underneath with `buf`: a read that is done is reported to
    /// the tracker with the length of what `buf` holds. Returns whether what there was to report
    /// has been recorded.
    pub fn read_polled<E>(&mut self, outcome: &Poll<Result<(), E>>, buf: &ReadBuf<'_>) -> (recorded:
        bool)
        ensures
            final(self).reader == old(self).reader,
            match *outcome {
                Poll::Ready(Ok(())) => exists|tracker: &mut K| #[trigger]
                    call_ensures(
                        K::add_read_data_size,
                        (tracker, filled_bytes(*buf).len() as u64),
                        recorded,
                    ) && *tracker == old(self).stat && *final(tracker) == final(self).stat,
                _ => recorded && final(self).stat == old(self).stat,
            },
    {
        count_read(&mut self.stat, outcome, buf)
    }
}

/// A writer whose traffic is counted.
pub struct StatWrite<T, K = SfoSpeedStat> {
    pub writer: T,
    pub stat: K,
}

impl<T> StatWrite<T, SfoSpeedStat> {
    pub fn new(writer: T) -> (counted: StatWrite<T, SfoSpeedStat>)
        ensures
            counted.writer == writer,
            counted.stat.is_new(DEFAULT_SPEED_DURATION),
    {
        StatWrite { writer, stat: SfoSpeedStat::new() }
    }
}

impl<T, S: TimePicker> StatWrite<T, SfoSpeedStat<S>> {
    /// Counts by the clock `S`.
    pub fn new_test(writer: T) -> (counted: StatWrite<T, SfoSpeedStat<S>>)
        ensures
            counted.writer == writer,
            counted.stat.is_new(DEFAULT_SPEED_DURATION),
    {
        StatWrite { writer, stat: SfoSpeedStat::new_with_time_picker() }
    }
}

impl<T, K: SpeedTracker> StatWrite<T, K> {
    pub fn new_with_tracker(writer: T, tracker: K) -> (counted: StatWrite<T, K>)
        ensures
            counted.writer == writer,
            counted.stat == tracker,
    {
        StatWrite { writer, stat: tracker }
    }

    pub fn get_speed_stat(&self) -> (stat: &K)
        ensures
            *stat == self.stat,
    {
        &self.stat
    }

    pub fn raw_writer(&mut self) -> (writer: &mut T)
        ensures
            *writer == old(self).writer,
            final(self).writer == *final(writer),
            final(self).stat == old(self).stat,
    {
        &mut self.writer
    }

    /// Takes note of a poll of the writer underneath with `buf`: a write that is done is reported to
    /// the tracker with the length of `buf`. Returns whether what there was to report has been
    /// recorded.
    pub fn write_polled<E>(&mut self, outcome: &Poll<Result<usize, E>>, buf: &[u8]) -> (recorded:
        bool)
        ensures
            final(self).writer == old(self).writer,
            match *outcome {
                Poll::Ready(Ok(_)) => exists|tracker: &mut K| #[trigger]
                    call_ensures(K::add_write_data_size, (tracker, buf@.len() as u64), recorded)
                        && *tracker == old(self).stat && *final(tracker) == final(self).stat,
                _ => recorded && final(self).stat == old(self).stat,
            },
    {
        count_write(&mut self.stat, outcome, buf)
    }
}

/// What a counted stream reads counts as read, with the length of what the buffer holds, and what
/// it writes counts as written, with the length of what was offered. A poll that was not ready, or
/// failed, counts for nothing.
pub proof fn law_traffic_is_counted_in_its_direction<T, S: TimePicker, E>()
    ensures
        forall|counted: &mut StatStream<T, SfoSpeedStat<S>>,
            outcome: &Poll<Result<(), E>>,
            buf: &ReadBuf<'_>,
            recorded: bool| #[trigger]
            call_ensures(
                StatStream::<T, SfoSpeedStat<S>>::read_polled::<E>,
                (counted, outcome, buf),
                recorded,
            ) ==> {
                let (before, after) = ((*counted).stat, (*final(counted)).stat);
                &&& (*final(counted)).stream == (*counted).stream
                &&& *outcome matches Poll::Ready(Ok(_)) ==> {
                    &&& after.upload() == before.upload()
                    &&& recorded ==> after.download().sum_size == before.download().sum_size
                        + filled_bytes(*buf).len() as u64
                }
                &&& !(*outcome matches Poll::Ready(Ok(_))) ==> after == before
            },
        forall|counted: &mut StatStream<T, SfoSpeedStat<S>>,
            outcome: &Poll<Result<usize, E>>,
            buf: &[u8],
            recorded: bool| #[trigger]
            call_ensures(
                StatStream::<T, SfoSpeedStat<S>>::write_polled::<E>,
                (counted, outcome, buf),
                recorded,
            ) ==> {
                let (before, after) = ((*counted).stat, (*final(counted)).stat);
                &&& (*final(counted)).stream == (*counted).stream
                &&& *outcome matches Poll::Ready(Ok(_)) ==> {
                    &&& after.download() == before.download()
                    &&& recorded ==> after.upload().sum_size == before.upload().sum_size
                        + buf@.len() as u64
                }
                &&& !(*outcome matches Poll::Ready(Ok(_))) ==> after == before
            },
{
}

} // verus!
