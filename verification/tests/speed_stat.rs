use sfo_io::poll::Poll;
use sfo_io::speed_stat::{
    DataItem, SfoSpeedStat, SpeedState, SpeedStat, SpeedTracker, SystemTimePicker, TimePicker,
};
use sfo_io::stat_stream::{StatRead, StatStream, StatWrite};
use std::sync::atomic::{AtomicU64, Ordering};
use tokio::io::ReadBuf;

static STATE_NEW_CLOCK_TIME: AtomicU64 = AtomicU64::new(0);

struct StateNewClock;

impl TimePicker for StateNewClock {
    fn now() -> u128 {
        STATE_NEW_CLOCK_TIME.load(Ordering::Relaxed) as u128
    }
}

#[test]
fn test_speed_state_new() {
    STATE_NEW_CLOCK_TIME.store(1000, Ordering::Relaxed);
    let state: SpeedState<StateNewClock> = SpeedState::new(5);

    assert_eq!(state.sum_size, 0);
    assert_eq!(state.last_time, 1000);
    assert_eq!(state.data_items.len(), 0);
}

static SAME_SECOND_CLOCK_TIME: AtomicU64 = AtomicU64::new(0);

struct SameSecondClock;

impl TimePicker for SameSecondClock {
    fn now() -> u128 {
        SAME_SECOND_CLOCK_TIME.load(Ordering::Relaxed) as u128
    }
}

#[test]
fn test_add_data_same_second() {
    SAME_SECOND_CLOCK_TIME.store(1500, Ordering::Relaxed);
    let mut state: SpeedState<SameSecondClock> = SpeedState::new(5);

    state.add_data(100);
    assert_eq!(state.sum_size, 100);
    assert_eq!(state.data_items.len(), 1);
    assert_eq!(state.data_items[0].size, 100);
    assert_eq!(state.data_items[0].time, 1);

    state.add_data(200);
    assert_eq!(state.sum_size, 300);
    assert_eq!(state.data_items.len(), 1);
    assert_eq!(state.data_items[0].size, 300);
}

static DIFFERENT_SECONDS_CLOCK_TIME: AtomicU64 = AtomicU64::new(0);

struct DifferentSecondsClock;

impl TimePicker for DifferentSecondsClock {
    fn now() -> u128 {
        DIFFERENT_SECONDS_CLOCK_TIME.load(Ordering::Relaxed) as u128
    }
}

#[test]
fn test_add_data_different_seconds() {
    DIFFERENT_SECONDS_CLOCK_TIME.store(1000, Ordering::Relaxed);
    let mut state: SpeedState<DifferentSecondsClock> = SpeedState::new(5);

    state.add_data(100);
    DIFFERENT_SECONDS_CLOCK_TIME.fetch_add(2000, Ordering::Relaxed);
    state.add_data(200);

    assert_eq!(state.sum_size, 300);
    assert_eq!(state.data_items.len(), 2);
    assert_eq!(state.data_items[0].size, 200);
    assert_eq!(state.data_items[0].time, 1);
    assert_eq!(state.data_items[1].size, 100);
    assert_eq!(state.data_items[1].time, 2);

    assert_eq!(state.get_speed(), 60);
    DIFFERENT_SECONDS_CLOCK_TIME.fetch_add(500, Ordering::Relaxed);
    assert_eq!(state.get_speed(), 60);

    state.add_data(300);
    assert_eq!(state.sum_size, 600);
    assert_eq!(state.get_speed(), 60);
    DIFFERENT_SECONDS_CLOCK_TIME.fetch_add(500, Ordering::Relaxed);
    assert_eq!(state.get_speed(), 120);
}

static CROSS_SECONDS_CLOCK_TIME: AtomicU64 = AtomicU64::new(0);

struct CrossSecondsClock;

impl TimePicker for CrossSecondsClock {
    fn now() -> u128 {
        CROSS_SECONDS_CLOCK_TIME.load(Ordering::Relaxed) as u128
    }
}

#[test]
fn test_add_data_cross_seconds_distribution() {
    CROSS_SECONDS_CLOCK_TIME.store(1500, Ordering::Relaxed);
    let mut state: SpeedState<CrossSecondsClock> = SpeedState::new(5);
    CROSS_SECONDS_CLOCK_TIME.fetch_add(1500, Ordering::Relaxed);

    state.add_data(300);
    CROSS_SECONDS_CLOCK_TIME.fetch_add(1500, Ordering::Relaxed);

    assert_eq!(state.data_items.len(), 2);
    assert_eq!(state.data_items[0].time, 1);
    assert_eq!(state.data_items[0].size, 100);
    assert_eq!(state.data_items[1].time, 2);
    assert_eq!(state.data_items[1].size, 200);

    CROSS_SECONDS_CLOCK_TIME.store(1500, Ordering::Relaxed);
    let mut state: SpeedState<CrossSecondsClock> = SpeedState::new(5);
    CROSS_SECONDS_CLOCK_TIME.fetch_add(2000, Ordering::Relaxed);

    state.add_data(400);
    CROSS_SECONDS_CLOCK_TIME.fetch_add(1500, Ordering::Relaxed);

    assert_eq!(state.data_items.len(), 3);
    assert_eq!(state.data_items[0].time, 1);
    assert_eq!(state.data_items[0].size, 100);
    assert_eq!(state.data_items[1].time, 2);
    assert_eq!(state.data_items[1].size, 200);
    assert_eq!(state.data_items[2].time, 3);
    assert_eq!(state.data_items[2].size, 100);
}

static CLEAR_INVALID_CLOCK_TIME: AtomicU64 = AtomicU64::new(0);

struct ClearInvalidClock;

impl TimePicker for ClearInvalidClock {
    fn now() -> u128 {
        CLEAR_INVALID_CLOCK_TIME.load(Ordering::Relaxed) as u128
    }
}

#[test]
fn test_clear_invalid_item() {
    let mut state: SpeedState<ClearInvalidClock> = SpeedState::new(5);

    state.data_items.push(DataItem { size: 100, time: 5 });
    state.data_items.push(DataItem { size: 200, time: 7 });
    state.data_items.push(DataItem { size: 300, time: 8 });

    CLEAR_INVALID_CLOCK_TIME.store(11000, Ordering::Relaxed);
    state.clear_invalid_item(ClearInvalidClock::now());

    assert_eq!(state.data_items.len(), 2);
    assert_eq!(state.data_items[0].time, 7);
    assert_eq!(state.data_items[1].time, 8);
}

static GET_SPEED_CLOCK_TIME: AtomicU64 = AtomicU64::new(0);

struct GetSpeedClock;

impl TimePicker for GetSpeedClock {
    fn now() -> u128 {
        GET_SPEED_CLOCK_TIME.load(Ordering::Relaxed) as u128
    }
}

#[test]
fn test_get_speed() {
    GET_SPEED_CLOCK_TIME.store(10000, Ordering::Relaxed);
    let mut state: SpeedState<GetSpeedClock> = SpeedState::new(5);

    state.add_data(100);
    GET_SPEED_CLOCK_TIME.fetch_add(1000, Ordering::Relaxed);
    state.add_data(200);
    GET_SPEED_CLOCK_TIME.fetch_add(1000, Ordering::Relaxed);
    state.add_data(300);
    GET_SPEED_CLOCK_TIME.fetch_add(1000, Ordering::Relaxed);
    state.add_data(400);
    GET_SPEED_CLOCK_TIME.fetch_add(1000, Ordering::Relaxed);
    state.add_data(500);
    GET_SPEED_CLOCK_TIME.fetch_add(1000, Ordering::Relaxed);
    state.add_data(600);
    GET_SPEED_CLOCK_TIME.fetch_add(1000, Ordering::Relaxed);
    state.add_data(700);

    let speed = state.get_speed();
    assert_eq!(speed, 500);
}

static GET_SUM_SIZE_CLOCK_TIME: AtomicU64 = AtomicU64::new(0);

struct GetSumSizeClock;

impl TimePicker for GetSumSizeClock {
    fn now() -> u128 {
        GET_SUM_SIZE_CLOCK_TIME.load(Ordering::Relaxed) as u128
    }
}

#[test]
fn test_get_sum_size() {
    let mut state: SpeedState<GetSumSizeClock> = SpeedState::new(10);
    state.add_data(100);
    state.add_data(200);
    assert_eq!(state.get_sum_size(), 300);
}

static SPEED_STAT_IMPL_CLOCK_TIME: AtomicU64 = AtomicU64::new(0);

struct SpeedStatImplClock;

impl TimePicker for SpeedStatImplClock {
    fn now() -> u128 {
        SPEED_STAT_IMPL_CLOCK_TIME.load(Ordering::Relaxed) as u128
    }
}

#[test]
fn test_speed_stat_impl() {
    let mut stat: SfoSpeedStat<SpeedStatImplClock> = SfoSpeedStat::new_with_time_picker();

    stat.add_write_data_size(100);
    stat.add_read_data_size(200);

    assert_eq!(stat.get_write_speed(), 0);
    assert_eq!(stat.get_read_speed(), 0);

    SPEED_STAT_IMPL_CLOCK_TIME.store(5000, Ordering::Relaxed);
    stat.add_write_data_size(500);
    stat.add_read_data_size(1000);
    SPEED_STAT_IMPL_CLOCK_TIME.store(6000, Ordering::Relaxed);
    stat.add_write_data_size(0);
    stat.add_read_data_size(0);

    assert!(stat.get_write_speed() > 0);
    assert!(stat.get_read_speed() > 0);
}

static STREAM_CLOCK_TIME: AtomicU64 = AtomicU64::new(0);

struct StreamClock;

impl TimePicker for StreamClock {
    fn now() -> u128 {
        STREAM_CLOCK_TIME.load(Ordering::Relaxed) as u128
    }
}

/// A stream that reads ten bytes at a time and takes all that is written.
struct MockStream;

fn mock_read(buf: &mut ReadBuf<'_>) -> Poll<Result<(), &'static str>> {
    buf.set_filled(10);
    Poll::Ready(Ok(()))
}

fn mock_write(buf: &[u8]) -> Poll<Result<usize, &'static str>> {
    Poll::Ready(Ok(buf.len()))
}

#[test]
fn test_stat_stream_creation() {
    let mut stat_stream: StatStream<MockStream, SfoSpeedStat<StreamClock>> =
        StatStream::new_test(MockStream);
    let mut upload_size = 0;
    let mut download_size = 0;
    let mut buf = vec![0u8; 4096];
    STREAM_CLOCK_TIME.fetch_add(500, Ordering::Relaxed);
    for i in 0..100 {
        let outcome = mock_write(&buf);
        assert!(stat_stream.write_polled(&outcome, &buf));
        upload_size += buf.len();
        let mut read_buf = ReadBuf::new(&mut buf);
        let outcome = mock_read(&mut read_buf);
        assert!(stat_stream.read_polled(&outcome, &read_buf));
        download_size += read_buf.filled().len();
        STREAM_CLOCK_TIME.fetch_add(1000, Ordering::Relaxed);
        let speed_stat = stat_stream.get_speed_stat();
        if i < 5 {
            assert_eq!(speed_stat.get_write_speed(), (upload_size / 5) as u64);
            assert_eq!(speed_stat.get_read_speed(), (download_size / 5) as u64);
        } else {
            assert_eq!(speed_stat.get_write_sum_size(), upload_size as u64);
            assert_eq!(speed_stat.get_read_sum_size(), download_size as u64);
            assert_eq!(speed_stat.get_write_speed(), (4096 * 5 - 2048) / 5);
            assert_eq!(speed_stat.get_read_speed(), (10 * 5 - 5) / 5);
        }
    }
}

static READ_CLOCK_TIME: AtomicU64 = AtomicU64::new(0);

struct ReadClock;

impl TimePicker for ReadClock {
    fn now() -> u128 {
        READ_CLOCK_TIME.load(Ordering::Relaxed) as u128
    }
}

#[test]
fn test_stat_read_creation() {
    let mut stat_reader: StatRead<MockStream, SfoSpeedStat<ReadClock>> =
        StatRead::new_test(MockStream);
    let mut download_size = 0;
    let mut buf = vec![0u8; 4096];
    READ_CLOCK_TIME.fetch_add(500, Ordering::Relaxed);
    for i in 0..100 {
        let mut read_buf = ReadBuf::new(&mut buf);
        let outcome = mock_read(&mut read_buf);
        assert!(stat_reader.read_polled(&outcome, &read_buf));
        download_size += read_buf.filled().len();
        READ_CLOCK_TIME.fetch_add(1000, Ordering::Relaxed);
        let speed_stat = stat_reader.get_speed_stat();
        if i < 5 {
            assert_eq!(speed_stat.get_read_speed(), (download_size / 5) as u64);
        } else {
            assert_eq!(speed_stat.get_read_sum_size(), download_size as u64);
            assert_eq!(speed_stat.get_read_speed(), (10 * 5 - 5) / 5);
        }
    }
}

static WRITE_CLOCK_TIME: AtomicU64 = AtomicU64::new(0);

struct WriteClock;

impl TimePicker for WriteClock {
    fn now() -> u128 {
        WRITE_CLOCK_TIME.load(Ordering::Relaxed) as u128
    }
}

#[test]
fn test_stat_write_creation() {
    let mut stat_writer: StatWrite<MockStream, SfoSpeedStat<WriteClock>> =
        StatWrite::new_test(MockStream);
    let mut upload_size = 0;
    let buf = vec![0u8; 4096];
    WRITE_CLOCK_TIME.fetch_add(500, Ordering::Relaxed);
    for i in 0..100 {
        let outcome = mock_write(&buf);
        assert!(stat_writer.write_polled(&outcome, &buf));
        upload_size += buf.len();
        WRITE_CLOCK_TIME.fetch_add(1000, Ordering::Relaxed);
        let speed_stat = stat_writer.get_speed_stat();
        if i < 5 {
            assert_eq!(speed_stat.get_write_speed(), (upload_size / 5) as u64);
        } else {
            assert_eq!(speed_stat.get_write_sum_size(), upload_size as u64);
            assert_eq!(speed_stat.get_write_speed(), (4096 * 5 - 2048) / 5);
        }
    }
}

static EDGE_CLOCK_TIME: AtomicU64 = AtomicU64::new(0);

struct EdgeClock;

impl TimePicker for EdgeClock {
    fn now() -> u128 {
        EDGE_CLOCK_TIME.load(Ordering::Relaxed) as u128
    }
}

/// A tracker of a user.
struct Log {
    sizes: Vec<(char, u64)>,
}

impl SpeedStat for Log {
    fn get_write_speed(&self) -> u64 {
        0
    }

    fn get_write_sum_size(&self) -> u64 {
        0
    }

    fn get_read_speed(&self) -> u64 {
        0
    }

    fn get_read_sum_size(&self) -> u64 {
        0
    }
}

impl SpeedTracker for Log {
    fn add_write_data_size(&mut self, size: u64) -> bool {
        self.sizes.push(('w', size));
        true
    }

    fn add_read_data_size(&mut self, size: u64) -> bool {
        self.sizes.push(('r', size));
        size < 3
    }
}

#[test]
fn trackers_of_users_are_told_of_everything() {
    let mut stream = StatStream::new_with_tracker(MockStream, Log { sizes: vec![] });
    let mut bytes = [0u8; 8];
    let mut read_buf = ReadBuf::new(&mut bytes);
    read_buf.put_slice(&[1, 2]);
    let read: Poll<Result<(), ()>> = Poll::Ready(Ok(()));
    assert!(stream.read_polled(&read, &read_buf));
    read_buf.put_slice(&[3]);
    assert!(!stream.read_polled(&read, &read_buf));
    let written: Poll<Result<usize, ()>> = Poll::Ready(Ok(2));
    assert!(stream.write_polled(&written, &[1, 2, 3, 4]));
    assert_eq!(stream.stat.sizes, vec![('r', 2), ('r', 3), ('w', 4)]);
}

#[test]
fn a_stream_counts_only_what_is_done() {
    EDGE_CLOCK_TIME.store(7000, Ordering::Relaxed);
    let mut stream: StatStream<MockStream, SfoSpeedStat<EdgeClock>> = StatStream::new_test(MockStream);
    let pending: Poll<Result<usize, &'static str>> = Poll::Pending;
    let failed: Poll<Result<usize, &'static str>> = Poll::Ready(Err("gone"));
    assert!(stream.write_polled(&pending, &[1, 2, 3]));
    assert!(stream.write_polled(&failed, &[1, 2, 3]));
    assert_eq!(stream.stat.get_write_sum_size(), 0);
    // A write counts with what was offered, not with what was taken.
    let partial: Poll<Result<usize, &'static str>> = Poll::Ready(Ok(1));
    assert!(stream.write_polled(&partial, &[1, 2, 3]));
    assert_eq!(stream.stat.get_write_sum_size(), 3);

    let mut bytes = [0u8; 8];
    let mut read_buf = ReadBuf::new(&mut bytes);
    read_buf.put_slice(&[1, 2]);
    let pending: Poll<Result<(), &'static str>> = Poll::Pending;
    let failed: Poll<Result<(), &'static str>> = Poll::Ready(Err("gone"));
    let done: Poll<Result<(), &'static str>> = Poll::Ready(Ok(()));
    assert!(stream.read_polled(&pending, &read_buf));
    assert!(stream.read_polled(&failed, &read_buf));
    assert_eq!(stream.stat.get_read_sum_size(), 0);
    // A read counts with all that the buffer holds.
    read_buf.put_slice(&[3]);
    assert!(stream.read_polled(&done, &read_buf));
    assert_eq!(stream.stat.get_read_sum_size(), 3);
    assert_eq!(stream.stat.get_write_sum_size(), 3);
}

#[test]
fn raw_streams_and_trackers_are_handed_out() {
    let tracker: SfoSpeedStat<EdgeClock> = SfoSpeedStat::new_with_time_picker();
    let mut stream = StatStream::new_with_tracker(5u8, tracker);
    *stream.raw_stream() = 6;
    assert_eq!(stream.stream, 6);
    let tracker: SfoSpeedStat<EdgeClock> = SfoSpeedStat::new_with_time_picker();
    let mut reader = StatRead::new_with_tracker(5u8, tracker);
    *reader.raw_reader() = 7;
    assert_eq!(reader.reader, 7);
    let tracker: SfoSpeedStat<EdgeClock> = SfoSpeedStat::new_with_time_picker();
    let mut writer = StatWrite::new_with_tracker(5u8, tracker);
    *writer.raw_writer() = 8;
    assert_eq!(writer.writer, 8);
    assert_eq!(StatStream::new(1u8).get_speed_stat().get_write_sum_size(), 0);
    assert_eq!(StatRead::new(1u8).get_speed_stat().get_read_speed(), 0);
    assert_eq!(StatWrite::new(1u8).get_speed_stat().get_write_speed(), 0);
}

static REFUSED_CLOCK_TIME: AtomicU64 = AtomicU64::new(0);

struct RefusedClock;

impl TimePicker for RefusedClock {
    fn now() -> u128 {
        REFUSED_CLOCK_TIME.load(Ordering::Relaxed) as u128
    }
}

#[test]
fn a_clock_that_goes_back_a_second_records_nothing() {
    REFUSED_CLOCK_TIME.store(5500, Ordering::Relaxed);
    let mut state: SpeedState<RefusedClock> = SpeedState::new(5);
    assert!(state.add_data(10));
    REFUSED_CLOCK_TIME.store(5100, Ordering::Relaxed);
    assert!(state.add_data(10));
    assert_eq!(state.last_time, 5100);
    REFUSED_CLOCK_TIME.store(4999, Ordering::Relaxed);
    assert!(!state.add_data(10));
    assert_eq!(state.get_sum_size(), 20);
    assert_eq!(state.last_time, 5100);
    assert_eq!(state.data_items.len(), 1);
}

#[test]
fn a_sum_that_would_overflow_is_left_alone() {
    let mut state: SpeedState<RefusedClock> = SpeedState::new(5);
    state.last_time = 1000;
    state.add_data_at(u64::MAX, 1000);
    assert_eq!(state.get_sum_size(), u64::MAX);
    REFUSED_CLOCK_TIME.store(2000, Ordering::Relaxed);
    assert!(!state.add_data(1));
    assert!(state.add_data(0));
    assert_eq!(state.get_sum_size(), u64::MAX);
    assert_eq!(state.get_speed_at(2000), u64::MAX / 5);
}

static LAW_CLOCK_TIME: AtomicU64 = AtomicU64::new(0);

struct LawClock;

impl TimePicker for LawClock {
    fn now() -> u128 {
        LAW_CLOCK_TIME.load(Ordering::Relaxed) as u128
    }
}

#[test]
fn rounding_loses_bytes_and_adds_none() {
    let mut state: SpeedState<LawClock> = SpeedState::new(5);
    state.last_time = 1000;
    // Ten bytes over three seconds: three each.
    state.add_data_at(10, 4000);
    assert_eq!(state.data_items.len(), 3);
    let mut total = 0;
    for item in state.data_items.iter() {
        assert_eq!(item.size, 3);
        total += item.size;
    }
    assert!(total <= 10);
    assert_eq!(state.get_sum_size(), 10);
}

#[test]
fn the_speed_fades_to_zero() {
    let mut state: SpeedState<LawClock> = SpeedState::new(2);
    state.last_time = 10_000;
    state.add_data_at(100, 10_500);
    assert_eq!(state.get_speed_at(10_900), 0);
    assert_eq!(state.get_speed_at(11_000), 50);
    assert_eq!(state.get_speed_at(12_999), 50);
    assert_eq!(state.get_speed_at(13_000), 0);
    assert!(state.get_speed_at(11_000) * 2 <= state.get_sum_size());
}

#[test]
fn old_items_are_dropped_when_data_comes() {
    let mut state: SpeedState<LawClock> = SpeedState::new(2);
    state.last_time = 1_000;
    state.add_data_at(10, 1_200);
    assert_eq!(state.data_items.len(), 1);
    state.add_data_at(90, 10_200);
    // The first second is long gone, and the bytes since then are spread over nine seconds and a
    // part of another.
    assert_eq!(state.data_items.len(), 10);
    assert_eq!(state.data_items[0].time, 1);
    assert_eq!(state.data_items[0].size, 8);
    assert_eq!(state.data_items[1].size, 10);
    assert_eq!(state.data_items[9].time, 10);
    assert_eq!(state.data_items[9].size, 2);
    state.add_data_at(0, 10_300);
    assert_eq!(state.data_items.len(), 3);
    assert_eq!(state.data_items[0].time, 8);
    assert_eq!(state.get_sum_size(), 100);
}

#[test]
fn durations_can_be_chosen() {
    let mut stat = SfoSpeedStat::new_with_duration(1_000_000_000);
    assert!(stat.add_read_data_size(7));
    assert_eq!(stat.get_read_sum_size(), 7);
    assert_eq!(stat.get_write_sum_size(), 0);
    // Seven bytes are nothing over so many seconds.
    assert_eq!(stat.get_read_speed(), 0);
    let state: SpeedState<LawClock> = SpeedState::new(9);
    assert_eq!(state.speed_duration, 9);
    assert_eq!(SfoSpeedStat::new().get_read_sum_size(), 0);
}

#[test]
fn the_system_clock_counts_from_the_epoch() {
    let before = std::time::SystemTime::now()
        .duration_since(std::time::SystemTime::UNIX_EPOCH)
        .unwrap()
        .as_millis();
    let now = SystemTimePicker::now();
    assert!(now >= before);
    assert!(now - before < 60_000);
}

#[test]
fn recorded_bytes_count_in_each_of_the_next_seconds() {
    let mut state: SpeedState<LawClock> = SpeedState::new(2);
    state.last_time = 10_000;
    state.add_data_at(100, 10_100);
    assert_eq!(state.get_speed_at(11_000), 50);
    state.add_data_at(60, 10_700);
    assert_eq!(state.data_items.len(), 1);
    assert_eq!(state.get_speed_at(10_999), 0);
    assert_eq!(state.get_speed_at(11_000), 80);
    assert_eq!(state.get_speed_at(12_000), 80);
    assert_eq!(state.get_speed_at(13_000), 0);
}

#[test]
fn rounding_loses_fewer_bytes_than_there_are_seconds() {
    let mut state: SpeedState<LawClock> = SpeedState::new(9);
    state.last_time = 1500;
    // Three bytes over half a second, three seconds and half a second.
    state.add_data_at(3, 5500);
    let sizes: Vec<u64> = state.data_items.iter().map(|item| item.size).collect();
    assert_eq!(sizes, vec![0, 0, 0, 0, 0]);
    let mut state: SpeedState<LawClock> = SpeedState::new(9);
    state.last_time = 1500;
    state.add_data_at(7, 5500);
    let sizes: Vec<u64> = state.data_items.iter().map(|item| item.size).collect();
    assert_eq!(sizes, vec![0, 1, 1, 1, 0]);
    assert!(sizes.iter().sum::<u64>() >= 7 - 5 + 1);
}

#[test]
fn the_running_second_does_not_count() {
    let mut state: SpeedState<LawClock> = SpeedState::new(2);
    state.last_time = 10_000;
    state.add_data_at(100, 11_200);
    let shown = state.get_speed_at(11_900);
    assert_eq!(shown, 41);
    state.add_data_at(1_000_000, 11_500);
    assert_eq!(state.get_speed_at(11_900), shown);
    assert_eq!(state.get_sum_size(), 1_000_100);
}

#[test]
fn the_sum_outlasts_clearing_and_items_stay_in_order() {
    let mut state: SpeedState<LawClock> = SpeedState::new(2);
    state.last_time = 10_000;
    state.add_data_at(100, 10_500);
    state.add_data_at(300, 13_500);
    state.clear_invalid_item(14_000);
    state.add_data_at(50, 14_100);
    assert_eq!(state.get_sum_size(), 450);
    let times: Vec<u64> = state.data_items.iter().map(|item| item.time).collect();
    assert_eq!(times, vec![12, 13, 14]);
    state.clear_invalid_item(99_000);
    assert!(state.data_items.is_empty());
    assert_eq!(state.get_sum_size(), 450);
}

const LAST_SECOND: u128 = u64::MAX as u128;

#[test]
fn the_last_second_takes_records_of_its_own() {
    let mut state: SpeedState<LawClock> = SpeedState::new(5);
    state.last_time = LAST_SECOND * 1000 + 10;
    state.add_data_at(70, LAST_SECOND * 1000 + 20);
    state.add_data_at(30, LAST_SECOND * 1000 + 999);
    assert_eq!(state.get_sum_size(), 100);
    assert_eq!(state.data_items.len(), 1);
    assert_eq!(state.data_items[0].size, 100);
    assert_eq!(state.data_items[0].time, u64::MAX);
}

#[test]
fn bytes_are_spread_up_to_the_start_of_the_last_second() {
    let mut state: SpeedState<LawClock> = SpeedState::new(5);
    state.last_time = (LAST_SECOND - 2) * 1000;
    state.add_data_at(100, LAST_SECOND * 1000);
    let items: Vec<(u64, u64)> =
        state.data_items.iter().map(|item| (item.time, item.size)).collect();
    assert_eq!(items, vec![(u64::MAX - 2, 50), (u64::MAX - 1, 50)]);
    assert_eq!(state.get_speed_at(LAST_SECOND * 1000), 20);
    state.add_data_at(1, LAST_SECOND * 1000 + 1);
    assert_eq!(state.data_items.len(), 3);
    assert_eq!(state.get_sum_size(), 101);
}

struct EndClock;

static END_CLOCK_CALLS: AtomicU64 = AtomicU64::new(0);

impl TimePicker for EndClock {
    fn now() -> u128 {
        LAST_SECOND * 1000 + END_CLOCK_CALLS.load(Ordering::Relaxed) as u128
    }
}

#[test]
fn records_are_refused_only_where_seconds_cannot_be_counted() {
    let mut state: SpeedState<EndClock> = SpeedState::new(5);
    assert!(state.add_data(5));
    assert_eq!(state.get_sum_size(), 5);
    state.last_time = (LAST_SECOND - 1) * 1000 + 999;
    state.data_items.clear();
    // At the very start of the last second, the second before it takes it all.
    assert!(state.add_data(8));
    assert_eq!(state.data_items[0].time, u64::MAX - 1);
    assert_eq!(state.data_items[0].size, 8);
    state.last_time = (LAST_SECOND - 1) * 1000 + 999;
    END_CLOCK_CALLS.store(1, Ordering::Relaxed);
    assert!(!state.add_data(8));
    assert_eq!(state.get_sum_size(), 13);
}

#[test]
fn counters_can_be_taken_apart() {
    let mut stat: SfoSpeedStat<LawClock> = SfoSpeedStat::new_with_time_picker();
    assert!(stat.add_write_data_size(3));
    assert!(stat.add_read_data_size(4));
    let (upload, download) = stat.into_states();
    assert_eq!(upload.get_sum_size(), 3);
    assert_eq!(download.get_sum_size(), 4);
}
