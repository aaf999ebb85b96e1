//! How fast data has been coming through lately, second by second.

use std::marker::PhantomData;
use std::time::{Duration, SystemTime};
use vstd::prelude::*;

verus! {

/// A source of the current time.
pub trait TimePicker: 'static + Sync + Send {
    /// Milliseconds since some fixed moment.
    fn now() -> u128;
}

/// `std::time::SystemTime`: a reading of the system's clock.
#[verifier::external_type_specification]
#[verifier::external_body]
pub struct ExSystemTime(SystemTime);

/// How long after the Unix epoch a moment is (`SystemTime::duration_since` with
/// `SystemTime::UNIX_EPOCH`), for moments that are not before it.
pub uninterp spec fn since_epoch(moment: SystemTime) -> Option<Duration>;

/// The whole milliseconds in a duration (`Duration::as_millis`).
pub uninterp spec fn whole_millis(duration: Duration) -> nat;

/// Calls `std::time::SystemTime::now`. Nothing is claimed of what the clock shows.
#[verifier::external_body]
fn system_now() -> SystemTime {
    SystemTime::now()
}

/// Calls `std::time::SystemTime::duration_since` with the Unix epoch. There is no duration for a
/// moment before it.
#[verifier::external_body]
fn duration_since_epoch(moment: SystemTime) -> (duration: Option<Duration>)
    ensures
        duration == since_epoch(moment),
{
    moment.duration_since(SystemTime::UNIX_EPOCH).ok()
}

/// Calls `std::time::Duration::as_millis`.
#[verifier::external_body]
fn duration_as_millis(duration: Duration) -> (millis: u128)
    ensures
        millis == whole_millis(duration),
{
    duration.as_millis()
}

/// The system's clock, in milliseconds since the Unix epoch.
pub struct SystemTimePicker;

/// What a reading of the system's clock is in milliseconds. A clock that is set before the Unix
/// epoch reads as zero.
pub open spec fn epoch_millis(moment: SystemTime) -> nat {
    match since_epoch(moment) {
        Some(duration) => whole_millis(duration),
        None => 0,
    }
}

impl TimePicker for SystemTimePicker {
    fn now() -> (millis: u128)
        ensures
            exists|moment: SystemTime| millis == #[trigger] epoch_millis(moment),
    {
        let moment = system_now();
        match duration_since_epoch(moment) {
            Some(duration) => {
                let millis: u128 = duration_as_millis(duration);
                assert(millis == epoch_millis(moment));
                millis
            },
            None => {
                assert(0 == epoch_millis(moment));
                0
            },
        }
    }
}

/// The bytes of one second.
#[derive(Clone, Copy)]
pub struct DataItem {
    pub size: u64,
    /// The second, counted from the moment that the clock counts from.
    pub time: u64,
}

/// The bytes that came through in all, and by second for a while.
pub struct SpeedState<T: TimePicker> {
    pub sum_size: u64,
    /// When data was last recorded, in milliseconds.
    pub last_time: u128,
    /// Over how many seconds the speed is taken.
    pub speed_duration: u64,
    pub data_items: Vec<DataItem>,
    pub _time_picker: PhantomData<T>,
}

/// The second of a moment in milliseconds, as a counter of 64 bits shows it.
pub open spec fn second_of(now: u128) -> u64 {
    (now as int / 1000 % 0x1_0000_0000_0000_0000) as u64
}

/// The second of a moment in milliseconds.
fn get_second(now: u128) -> (second: u64)
    ensures
        second == second_of(now),
        now / 1000 <= u64::MAX ==> second == now / 1000,
{
    let seconds: u128 = now / 1000;
    assert(seconds as u64 == seconds % 0x1_0000_0000_0000_0000) by (bit_vector);
    #[verifier::truncate]
    (seconds as u64)
}

/// Whether an item is no more than `duration` seconds old.
pub open spec fn is_recent(item: DataItem, second: u64, duration: u64) -> bool {
    item.time <= second && second - item.time <= duration
}

/// The items that are no more than `duration` seconds old.
pub open spec fn recent_items(items: Seq<DataItem>, second: u64, duration: u64) -> Seq<DataItem> {
    items.filter(|item: DataItem| is_recent(item, second, duration))
}

/// The items that count for the speed: those that are recent, without those of the current second.
pub open spec fn counted_items(items: Seq<DataItem>, second: u64, duration: u64) -> Seq<DataItem> {
    items.filter(|item: DataItem| is_recent(item, second, duration) && item.time != second)
}

/// All the bytes of these items.
pub open spec fn total_size(items: Seq<DataItem>) -> nat
    decreases items.len(),
{
    if items.len() == 0 {
        0
    } else {
        total_size(items.drop_last()) + items.last().size as nat
    }
}

/// The items with `size` more bytes for the second `time`: added to the last item if that is for
/// this second, and otherwise in an item of its own.
pub open spec fn with_bytes(items: Seq<DataItem>, time: u64, size: u64) -> Seq<DataItem> {
    if items.len() > 0 && items.last().time == time {
        items.update(items.len() - 1, DataItem { size: (items.last().size + size) as u64, time })
    } else {
        items.push(DataItem { size, time })
    }
}

/// How many milliseconds of `from..to` lie in a second.
pub open spec fn overlap(from: u128, to: u128, second: int) -> int {
    let start = if from <= second * 1000 {
        second * 1000
    } else {
        from as int
    };
    let end = if to <= (second + 1) * 1000 {
        to as int
    } else {
        (second + 1) * 1000
    };
    end - start
}

/// What a second gets of `size` bytes that are spread evenly over `from..to`, rounded down.
pub open spec fn share(size: u64, from: u128, to: u128, second: int) -> int {
    size * overlap(from, to, second) / (to - from)
}

/// Into how many seconds `from..to` reaches.
pub open spec fn seconds_touched(from: u128, to: u128) -> int {
    (to - 1) / 1000 - from / 1000 + 1
}

/// `size` bytes spread evenly over `from..to`, second by second.
pub open spec fn spread(size: u64, from: u128, to: u128) -> Seq<DataItem> {
    Seq::new(
        seconds_touched(from, to) as nat,
        |k: int|
            DataItem {
                size: share(size, from, to, from / 1000 + k) as u64,
                time: (second_of(from) + k) as u64,
            },
    )
}

/// The items after `size` more bytes at the moment `now`. Within the second of the last record
/// they all go to that second. Otherwise they are spread over the time since then.
pub open spec fn items_after(
    items: Seq<DataItem>,
    last_time: u128,
    size: u64,
    now: u128,
) -> Seq<DataItem> {
    if now / 1000 == last_time / 1000 {
        with_bytes(items, second_of(now), size)
    } else {
        let parts = spread(size, last_time, now);
        with_bytes(items, parts[0].time, parts[0].size) + parts.skip(1)
    }
}

/// Whether a record at the moment `now` can follow one at `last_time`: the clock has not gone back
/// to an earlier second, and the seconds that it has gone through since can all be counted.
pub open spec fn can_follow(last_time: u128, now: u128) -> bool {
    ||| now / 1000 == last_time / 1000
    ||| {
        &&& now / 1000 > last_time / 1000
        &&& second_of(last_time) + seconds_touched(last_time, now) <= u64::MAX
    }
}

/// Whether each item is of a later second than those before it.
pub open spec fn in_order(items: Seq<DataItem>) -> bool {
    forall|i: int, j: int|
        0 <= i < j < items.len() ==> (#[trigger] items[i]).time < (#[trigger] items[j]).time
}

proof fn lemma_total_push(items: Seq<DataItem>, item: DataItem)
    ensures
        total_size(items.push(item)) == total_size(items) + item.size,
{
    assert(items.push(item).drop_last() =~= items);
}

proof fn lemma_total_add(a: Seq<DataItem>, b: Seq<DataItem>)
    ensures
        total_size(a + b) == total_size(a) + total_size(b),
    decreases b.len(),
{
    if b.len() == 0 {
        assert(a + b =~= a);
    } else {
        assert((a + b).drop_last() =~= a + b.drop_last());
        lemma_total_add(a, b.drop_last());
    }
}

proof fn lemma_total_filter(items: Seq<DataItem>, keep: spec_fn(DataItem) -> bool)
    ensures
        total_size(items.filter(keep)) <= total_size(items),
    decreases items.len(),
{
    reveal(Seq::filter);
    if items.len() > 0 {
        lemma_total_filter(items.drop_last(), keep);
        lemma_total_push(items.drop_last().filter(keep), items.last());
    }
}

proof fn lemma_filter_step(items: Seq<DataItem>, keep: spec_fn(DataItem) -> bool, i: int)
    requires
        0 <= i < items.len(),
    ensures
        items.take(i + 1).filter(keep) == if keep(items[i]) {
            items.take(i).filter(keep).push(items[i])
        } else {
            items.take(i).filter(keep)
        },
{
    reveal(Seq::filter);
    assert(items.take(i + 1).drop_last() =~= items.take(i));
}

proof fn lemma_filtered_times(items: Seq<DataItem>, keep: spec_fn(DataItem) -> bool, latest: int)
    requires
        forall|i: int| 0 <= i < items.len() ==> #[trigger] items[i].time <= latest,
    ensures
        forall|i: int|
            0 <= i < items.filter(keep).len() ==> #[trigger] items.filter(keep)[i].time <= latest,
    decreases items.len(),
{
    reveal(Seq::filter);
    if items.len() > 0 {
        let rest = items.drop_last().filter(keep);
        assert(items[items.len() - 1].time <= latest);
        lemma_filtered_times(items.drop_last(), keep, latest);
        assert forall|i: int| 0 <= i < items.filter(keep).len() implies #[trigger] items.filter(
            keep,
        )[i].time <= latest by {
            if i < rest.len() {
                assert(items.filter(keep)[i] == rest[i]);
            }
        }
    }
}

proof fn lemma_filter_in_order(items: Seq<DataItem>, keep: spec_fn(DataItem) -> bool)
    requires
        in_order(items),
    ensures
        in_order(items.filter(keep)),
    decreases items.len(),
{
    reveal(Seq::filter);
    if items.len() > 0 {
        let rest = items.drop_last();
        let last = items[items.len() - 1];
        assert(in_order(rest));
        lemma_filter_in_order(rest, keep);
        if keep(last) {
            if rest.len() > 0 {
                let latest = rest[rest.len() - 1];
                assert(latest == items[items.len() - 2]);
                assert forall|i: int| 0 <= i < rest.len() implies #[trigger] rest[i].time
                    <= latest.time by {}
                lemma_filtered_times(rest, keep, latest.time as int);
                assert(latest.time < last.time);
            }
            assert(items.filter(keep) == rest.filter(keep).push(last));
        }
    }
}

proof fn lemma_after_in_order(items: Seq<DataItem>, last_time: u128, size: u64, now: u128)
    requires
        in_order(items),
        forall|i: int| 0 <= i < items.len() ==> #[trigger] items[i].time <= second_of(last_time),
        can_follow(last_time, now),
    ensures
        in_order(items_after(items, last_time, size, now)),
        forall|i: int|
            0 <= i < items_after(items, last_time, size, now).len() ==> #[trigger] items_after(
                items,
                last_time,
                size,
                now,
            )[i].time <= second_of(now),
{
    let after = items_after(items, last_time, size, now);
    if now / 1000 != last_time / 1000 {
        let parts = spread(size, last_time, now);
        let first = with_bytes(items, parts[0].time, parts[0].size);
        assert forall|k: int| 0 <= k < parts.len() implies #[trigger] parts[k].time == second_of(
            last_time,
        ) + k by {}
        assert(second_of(last_time) + parts.len() - 1 <= second_of(now));
        assert(in_order(first));
        assert forall|i: int, j: int| 0 <= i < j < after.len() implies (#[trigger] after[i]).time
            < (#[trigger] after[j]).time by {
            if i >= first.len() {
                assert(after[i] == parts[i - first.len() + 1]);
            } else {
                assert(after[i] == first[i]);
            }
            if j >= first.len() {
                assert(after[j] == parts[j - first.len() + 1]);
            } else {
                assert(after[j] == first[j]);
            }
        }
        assert forall|i: int| 0 <= i < after.len() implies #[trigger] after[i].time <= second_of(
            now,
        ) by {
            if i >= first.len() {
                assert(after[i] == parts[i - first.len() + 1]);
            } else {
                assert(after[i] == first[i]);
            }
        }
    }
}

proof fn lemma_total_with_bytes(items: Seq<DataItem>, time: u64, size: u64)
    requires
        total_size(items) + size <= u64::MAX,
    ensures
        total_size(with_bytes(items, time, size)) == total_size(items) + size,
{
    if items.len() > 0 && items.last().time == time {
        assert(with_bytes(items, time, size).drop_last() =~= items.drop_last());
    } else {
        lemma_total_push(items, DataItem { size, time });
    }
}

/// How many milliseconds of `from..to` lie in the first `k` of its seconds.
spec fn covered(from: u128, to: u128, k: int) -> int {
    if k == 0 {
        0
    } else if to <= (from / 1000 + k) * 1000 {
        to - from
    } else {
        (from / 1000 + k) * 1000 - from
    }
}

proof fn lemma_quotients(a: int, b: int, d: int)
    by (nonlinear_arith)
    requires
        a >= 0,
        b >= 0,
        d > 0,
    ensures
        a / d + b / d <= (a + b) / d,
{
}

proof fn lemma_share_bounds(size: u64, from: u128, to: u128, k: int)
    requires
        0 <= from < to,
        0 <= k < seconds_touched(from, to),
    ensures
        0 < overlap(from, to, from / 1000 + k) <= to - from,
        0 <= share(size, from, to, from / 1000 + k) <= size,
{
    let w = overlap(from, to, from / 1000 + k);
    let d = to - from;
    assert(0 <= size * w / d <= size) by (nonlinear_arith)
        requires
            0 <= w <= d,
            0 < d,
            size >= 0,
    ;
}

proof fn lemma_spread_prefix(size: u64, from: u128, to: u128, k: int)
    requires
        0 <= from < to,
        0 <= k <= seconds_touched(from, to),
    ensures
        total_size(spread(size, from, to).take(k)) <= size * covered(from, to, k) / (to - from),
    decreases k,
{
    let parts = spread(size, from, to);
    let d = to - from;
    if k == 0 {
        assert(size * 0 / d == 0) by (nonlinear_arith)
            requires
                d > 0,
        ;
    } else {
        lemma_spread_prefix(size, from, to, k - 1);
        lemma_share_bounds(size, from, to, k - 1);
        assert(parts.take(k).drop_last() =~= parts.take(k - 1));
        let c = covered(from, to, k - 1);
        let w = overlap(from, to, from / 1000 + k - 1);
        assert(covered(from, to, k) == c + w);
        assert(size * c >= 0 && size * w >= 0) by (nonlinear_arith)
            requires
                c >= 0,
                w >= 0,
                size >= 0,
        ;
        lemma_quotients(size * c, size * w, d);
        assert(size * c + size * w == size * (c + w)) by (nonlinear_arith);
    }
}

/// Bytes that are spread over a stretch of time are never more than there were: rounding loses
/// some, and adds none.
pub proof fn law_spread_adds_nothing(size: u64, from: u128, to: u128)
    requires
        0 <= from < to,
    ensures
        total_size(spread(size, from, to)) <= size,
{
    let n = seconds_touched(from, to);
    let parts = spread(size, from, to);
    lemma_spread_prefix(size, from, to, n);
    assert(parts.take(n) =~= parts);
    assert(covered(from, to, n) == to - from);
    let d = to - from;
    assert(size * d / d == size) by (nonlinear_arith)
        requires
            d > 0,
    ;
}

proof fn lemma_total_spread_after(items: Seq<DataItem>, size: u64, from: u128, to: u128)
    requires
        0 <= from < to,
        total_size(items) + size <= u64::MAX,
    ensures
        ({
            let parts = spread(size, from, to);
            total_size(with_bytes(items, parts[0].time, parts[0].size) + parts.skip(1))
                <= total_size(items) + size
        }),
{
    let parts = spread(size, from, to);
    let first = with_bytes(items, parts[0].time, parts[0].size);
    lemma_share_bounds(size, from, to, 0);
    law_spread_adds_nothing(size, from, to);
    assert(parts =~= seq![parts[0]] + parts.skip(1));
    lemma_total_add(seq![parts[0]], parts.skip(1));
    lemma_total_push(Seq::empty(), parts[0]);
    assert(seq![parts[0]] =~= Seq::<DataItem>::empty().push(parts[0]));
    lemma_total_with_bytes(items, parts[0].time, parts[0].size);
    lemma_total_add(first, parts.skip(1));
}

proof fn lemma_quotients_lose_one(a: int, b: int, d: int)
    by (nonlinear_arith)
    requires
        a >= 0,
        b >= 0,
        d > 0,
    ensures
        (a + b) / d <= a / d + b / d + 1,
{
}

proof fn lemma_spread_prefix_loss(size: u64, from: u128, to: u128, k: int)
    requires
        0 <= from < to,
        1 <= k <= seconds_touched(from, to),
    ensures
        size * covered(from, to, k) / (to - from) <= total_size(spread(size, from, to).take(k)) + k
            - 1,
    decreases k,
{
    let parts = spread(size, from, to);
    let d = to - from;
    let c = covered(from, to, k - 1);
    let w = overlap(from, to, from / 1000 + k - 1);
    lemma_share_bounds(size, from, to, k - 1);
    assert(parts.take(k).drop_last() =~= parts.take(k - 1));
    assert(covered(from, to, k) == c + w);
    assert(parts.take(k).last().size == size * w / d);
    if k == 1 {
        assert(parts.take(0) =~= Seq::<DataItem>::empty());
    } else {
        lemma_spread_prefix_loss(size, from, to, k - 1);
        assert(size * c >= 0 && size * w >= 0) by (nonlinear_arith)
            requires
                c >= 0,
                w >= 0,
                size >= 0,
        ;
        lemma_quotients_lose_one(size * c, size * w, d);
        assert(size * c + size * w == size * (c + w)) by (nonlinear_arith);
    }
}

/// Rounding loses little of bytes that are spread over a stretch of time: fewer bytes than there are
/// seconds that it reaches into.
pub proof fn law_spread_loses_little(size: u64, from: u128, to: u128)
    requires
        0 <= from < to,
    ensures
        total_size(spread(size, from, to)) >= size - seconds_touched(from, to) + 1,
{
    let n = seconds_touched(from, to);
    let parts = spread(size, from, to);
    lemma_spread_prefix_loss(size, from, to, n);
    assert(parts.take(n) =~= parts);
    assert(covered(from, to, n) == to - from);
    let d = to - from;
    assert(size * d / d == size) by (nonlinear_arith)
        requires
            d > 0,
    ;
}

/// Whether a record at the moment `now` can follow one at `last_time`.
fn has_followed(last_time: u128, now: u128) -> (follows: bool)
    ensures
        follows == can_follow(last_time, now),
{
    let last: u128 = last_time / 1000;
    if now / 1000 <= last {
        return now / 1000 == last;
    }
    let touched: u128 = (now - 1) / 1000 - last + 1;
    touched <= (u64::MAX - get_second(last_time)) as u128
}

impl<T: TimePicker> SpeedState<T> {
    /// The items hold no more bytes than there were. There is one for each second at most, in
    /// order, and none for a second after the last record.
    pub open spec fn wf(self) -> bool {
        &&& self.speed_duration > 0
        &&& total_size(self.data_items@) <= self.sum_size
        &&& in_order(self.data_items@)
        &&& forall|i: int|
            0 <= i < self.data_items@.len() ==> #[trigger] self.data_items@[i].time
                <= second_of(self.last_time)
    }

    /// Whether `size` more bytes can be recorded at the moment `now`: they fit into the sum, and
    /// the clock has gone on by seconds that can be counted, if at all.
    pub open spec fn can_add(self, size: u64, now: u128) -> bool {
        &&& self.sum_size + size <= u64::MAX
        &&& can_follow(self.last_time, now)
    }

    /// Whether `after` is this state with `size` more bytes at the moment `now`.
    pub open spec fn added(self, size: u64, now: u128, after: SpeedState<T>) -> bool {
        &&& after.sum_size == self.sum_size + size
        &&& after.last_time == now
        &&& after.speed_duration == self.speed_duration
        &&& after.data_items@ == items_after(
            recent_items(self.data_items@, second_of(now), self.speed_duration),
            self.last_time,
            size,
            now,
        )
    }

    /// The speed as it shows at the moment `now`: the bytes of the last seconds, without the
    /// current one, over the number of seconds.
    pub open spec fn speed_at(self, now: u128) -> u64 {
        (total_size(counted_items(self.data_items@, second_of(now), self.speed_duration))
            / self.speed_duration as nat) as u64
    }

    /// Whether this can show as the speed, whatever time the clock shows.
    pub open spec fn shows_speed(self, speed: u64) -> bool {
        exists|now: u128| #[trigger]
            call_ensures(T::now, (), now) && speed == self.speed_at(now)
    }

    /// Whether reporting `size` bytes can leave `after`, and have them `recorded` or not, whatever
    /// time the clock shows.
    pub open spec fn counts(self, size: u64, recorded: bool, after: SpeedState<T>) -> bool {
        exists|now: u128| #[trigger]
            call_ensures(T::now, (), now) && recorded == self.can_add(size, now) && if recorded {
                self.added(size, now, after)
            } else {
                after == self
            }
    }

    /// Whether `after` is this state without the items that are too old at the moment `now`.
    pub open spec fn cleared(self, now: u128, after: SpeedState<T>) -> bool {
        &&& after.sum_size == self.sum_size
        &&& after.last_time == self.last_time
        &&& after.speed_duration == self.speed_duration
        &&& after.data_items@ == recent_items(
            self.data_items@,
            second_of(now),
            self.speed_duration,
        )
    }

    /// Whether the change can leave `after`, whatever time the clock shows.
    pub open spec fn changed(self, change: StateChange, after: SpeedState<T>) -> bool {
        match change {
            StateChange::Recorded(size) => self.counts(size, true, after),
            StateChange::Refused(size) => self.counts(size, false, after),
            StateChange::Cleared(now) => self.cleared(now, after),
        }
    }

    /// Whether nothing has been recorded yet, and the speed is taken over `duration` seconds.
    pub open spec fn is_new(self, duration: u64) -> bool {
        &&& self.sum_size == 0
        &&& call_ensures(T::now, (), self.last_time)
        &&& self.speed_duration == duration
        &&& self.data_items@ == Seq::<DataItem>::empty()
    }

    pub fn new(speed_duration: u64) -> (state: SpeedState<T>)
        requires
            speed_duration > 0,
        ensures
            state.is_new(speed_duration),
            state.wf(),
    {
        SpeedState {
            sum_size: 0,
            last_time: T::now(),
            speed_duration,
            data_items: Vec::new(),
            _time_picker: PhantomData,
        }
    }

    /// A state to stand in while another one is taken out.
    fn blank() -> (state: SpeedState<T>)
        ensures
            state.wf(),
    {
        SpeedState {
            sum_size: 0,
            last_time: 0,
            speed_duration: 1,
            data_items: Vec::new(),
            _time_picker: PhantomData,
        }
    }

    /// Drops the items that are too old at the moment `now`.
    pub fn clear_invalid_item(&mut self, now: u128)
        ensures
            old(self).cleared(now, *final(self)),
            old(self).wf() ==> final(self).wf(),
    {
        let second: u64 = get_second(now);
        let ghost keep = |item: DataItem| is_recent(item, second, self.speed_duration);
        let mut kept: Vec<DataItem> = Vec::new();
        let mut i: usize = 0;
        proof {
            reveal(Seq::filter);
        }
        while i < self.data_items.len()
            invariant
                i <= self.data_items@.len(),
                *self == *old(self),
                keep == (|item: DataItem| is_recent(item, second, self.speed_duration)),
                kept@ == self.data_items@.take(i as int).filter(keep),
            decreases self.data_items.len() - i,
        {
            proof {
                lemma_filter_step(self.data_items@, keep, i as int);
            }
            let item: DataItem = self.data_items[i];
            if item.time <= second && second - item.time <= self.speed_duration {
                kept.push(item);
            }
            i = i + 1;
        }
        assert(self.data_items@.take(i as int) =~= self.data_items@);
        self.data_items = kept;
        proof {
            if old(self).wf() {
                lemma_cleared_is_wf(*old(self), now, *self);
            }
        }
    }

    /// Adds bytes to the last item, or behind it.
    fn push_bytes(&mut self, time: u64, size: u64)
        requires
            old(self).data_items@.len() > 0 && old(self).data_items@.last().time == time
                ==> old(self).data_items@.last().size + size <= u64::MAX,
        ensures
            final(self).sum_size == old(self).sum_size,
            final(self).last_time == old(self).last_time,
            final(self).speed_duration == old(self).speed_duration,
            final(self).data_items@ == with_bytes(old(self).data_items@, time, size),
    {
        let len: usize = self.data_items.len();
        if len > 0 && self.data_items[len - 1].time == time {
            let size: u64 = self.data_items[len - 1].size + size;
            self.data_items.set(len - 1, DataItem { size, time });
        } else {
            self.data_items.push(DataItem { size, time });
        }
    }

    /// Records `size` bytes at the moment `now`.
    pub fn add_data_at(&mut self, size: u64, now: u128)
        requires
            old(self).wf(),
            old(self).can_add(size, now),
        ensures
            old(self).added(size, now, *final(self)),
            final(self).wf(),
    {
        self.sum_size = self.sum_size + size;
        self.clear_invalid_item(now);
        let ghost kept = self.data_items@;
        proof {
            let keep = |item: DataItem|
                is_recent(item, second_of(now), old(self).speed_duration);
            lemma_total_filter(old(self).data_items@, keep);
            lemma_filtered_times(old(self).data_items@, keep, second_of(old(self).last_time) as int);
            lemma_filter_in_order(old(self).data_items@, keep);
            lemma_after_in_order(kept, old(self).last_time, size, now);
            if kept.len() > 0 {
                assert(kept.last().size <= total_size(kept));
            }
        }
        if now / 1000 == self.last_time / 1000 {
            self.push_bytes(get_second(now), size);
            proof {
                lemma_total_with_bytes(kept, second_of(now), size);
            }
        } else {
            let ghost from = self.last_time;
            let ghost to = now;
            let ghost parts = spread(size, self.last_time, now);
            let duration: u128 = now - self.last_time;
            let mut pos: u128 = 0;
            let mut offset: u128 = 1000 - self.last_time % 1000;
            let mut sec: u64 = get_second(self.last_time);
            let ghost mut k: int = 0;
            while pos < duration
                invariant
                    from == self.last_time,
                    to == now,
                    0 <= from < to,
                                duration == to - from,
                    parts == spread(size, self.last_time, now),
                    parts.len() == seconds_touched(from, to),
                    0 <= k <= parts.len(),
                    sec == second_of(self.last_time) + k,
                    second_of(self.last_time) + parts.len() <= u64::MAX,
                    pos == if k == 0 {
                        0
                    } else {
                        (from / 1000 + k) * 1000 - from
                    },
                    offset == if k == 0 {
                        (from / 1000 + 1) * 1000 - from
                    } else {
                        1000
                    },
                    kept.len() > 0 ==> kept.last().size + size <= u64::MAX,
                    self.sum_size == old(self).sum_size + size,
                    self.speed_duration == old(self).speed_duration,
                    self.last_time == old(self).last_time,
                    self.data_items@ == if k == 0 {
                        kept
                    } else {
                        with_bytes(kept, parts[0].time, parts[0].size) + parts.subrange(1, k)
                    },
                decreases parts.len() - k,
            {
                let mut weight: u128 = offset;
                if pos + offset > duration {
                    weight = duration - pos;
                }
                proof {
                    lemma_share_bounds(size, from, to, k);
                    assert(weight == overlap(from, to, from / 1000 + k));
                    assert(size * weight <= u64::MAX * 1000) by (nonlinear_arith)
                        requires
                            0 <= size <= u64::MAX,
                            0 <= weight <= 1000,
                    ;
                    if k > 0 {
                        let items = self.data_items@;
                        if k == 1 {
                            assert(items =~= with_bytes(kept, parts[0].time, parts[0].size));
                        } else {
                            assert(items.last() == parts[k - 1]);
                        }
                        assert(items.last().time == second_of(self.last_time) + k - 1);
                    }
                }
                let data_size: u64 = (size as u128 * weight / duration) as u64;
                assert(parts[k] == (DataItem { size: data_size, time: sec }));
                let ghost before = self.data_items@;
                self.push_bytes(sec, data_size);
                proof {
                    if k == 0 {
                        assert(parts.subrange(1, 1) =~= Seq::<DataItem>::empty());
                        assert(self.data_items@ =~= with_bytes(kept, parts[0].time, parts[0].size)
                            + parts.subrange(1, 1));
                    } else {
                        assert(self.data_items@ =~= with_bytes(kept, parts[0].time, parts[0].size)
                            + parts.subrange(1, k + 1));
                    }
                    k = k + 1;
                }
                pos = pos + offset;
                offset = 1000;
                sec = sec + 1;
            }
            proof {
                assert(k == parts.len());
                assert(parts.subrange(1, k) =~= parts.skip(1));
                lemma_total_spread_after(kept, size, self.last_time, now);
            }
        }
        self.last_time = now;
    }

    /// Records `size` bytes now. Where that cannot be done, nothing changes.
    pub fn add_data(&mut self, size: u64) -> (recorded: bool)
        requires
            old(self).wf(),
        ensures
            old(self).counts(size, recorded, *final(self)),
            final(self).wf(),
    {
        let now: u128 = T::now();
        if size <= u64::MAX - self.sum_size && has_followed(self.last_time, now) {
            self.add_data_at(size, now);
            true
        } else {
            false
        }
    }

    /// The speed as it shows at the moment `now`.
    pub fn get_speed_at(&self, now: u128) -> (speed: u64)
        requires
            self.wf(),
        ensures
            speed == self.speed_at(now),
    {
        let second: u64 = get_second(now);
        let ghost count = |item: DataItem|
            is_recent(item, second, self.speed_duration) && item.time != second;
        let mut sum_size: u64 = 0;
        let mut i: usize = 0;
        proof {
            reveal(Seq::filter);
        }
        while i < self.data_items.len()
            invariant
                i <= self.data_items@.len(),
                self.wf(),
                count == (|item: DataItem|
                    is_recent(item, second, self.speed_duration) && item.time != second),
                sum_size == total_size(self.data_items@.take(i as int).filter(count)),
            decreases self.data_items.len() - i,
        {
            proof {
                let items = self.data_items@;
                lemma_filter_step(items, count, i as int);
                lemma_total_push(items.take(i as int).filter(count), items[i as int]);
                lemma_total_filter(items.take(i + 1), count);
                assert(items =~= items.take(i + 1) + items.skip(i + 1));
                lemma_total_add(items.take(i + 1), items.skip(i + 1));
            }
            let item: DataItem = self.data_items[i];
            if item.time < second && second - item.time <= self.speed_duration {
                sum_size = sum_size + item.size;
            }
            i = i + 1;
        }
        assert(self.data_items@.take(i as int) =~= self.data_items@);
        sum_size / self.speed_duration
    }

    /// The speed as it shows now, in bytes per second.
    pub fn get_speed(&self) -> (speed: u64)
        requires
            self.wf(),
        ensures
            self.shows_speed(speed),
    {
        let now: u128 = T::now();
        self.get_speed_at(now)
    }

    /// All the bytes that were recorded.
    pub fn get_sum_size(&self) -> (size: u64)
        ensures
            size == self.sum_size,
    {
        self.sum_size
    }
}

/// What can be asked about the data that went both ways.
pub trait SpeedStat: 'static + Send + Sync {
    fn get_write_speed(&self) -> u64;

    fn get_write_sum_size(&self) -> u64;

    fn get_read_speed(&self) -> u64;

    fn get_read_sum_size(&self) -> u64;
}

/// What data that went either way is reported to. A report says whether it was recorded.
pub trait SpeedTracker: SpeedStat {
    fn add_write_data_size(&mut self, size: u64) -> bool;

    fn add_read_data_size(&mut self, size: u64) -> bool;
}

/// Counters for both directions.
pub struct SfoSpeedStat<T: TimePicker = SystemTimePicker> {
    upload_state: SpeedState<T>,
    download_state: SpeedState<T>,
}

/// Over how many seconds the speed is taken where nothing else is asked for.
pub const DEFAULT_SPEED_DURATION: u64 = 5;

impl SfoSpeedStat<SystemTimePicker> {
    pub fn new() -> (stat: SfoSpeedStat<SystemTimePicker>)
        ensures
            stat.is_new(DEFAULT_SPEED_DURATION),
    {
        Self::new_with_duration(DEFAULT_SPEED_DURATION)
    }

    /// Counters that take the speed over `duration` seconds.
    pub fn new_with_duration(duration: u64) -> (stat: SfoSpeedStat<SystemTimePicker>)
        requires
            duration > 0,
        ensures
            stat.is_new(duration),
    {
        SfoSpeedStat {
            upload_state: SpeedState::new(duration),
            download_state: SpeedState::new(duration),
        }
    }
}

impl<T: TimePicker> SfoSpeedStat<T> {
    #[verifier::type_invariant]
    spec fn wf(self) -> bool {
        &&& self.upload_state.wf()
        &&& self.download_state.wf()
    }

    /// The counter of what was written.
    pub closed spec fn upload(self) -> SpeedState<T> {
        self.upload_state
    }

    /// The counter of what was read.
    pub closed spec fn download(self) -> SpeedState<T> {
        self.download_state
    }

    /// Whether nothing has been counted yet, and the speed is taken over `duration` seconds.
    pub open spec fn is_new(self, duration: u64) -> bool {
        &&& self.upload().is_new(duration)
        &&& self.download().is_new(duration)
    }

    pub fn new_with_time_picker() -> (stat: SfoSpeedStat<T>)
        ensures
            stat.is_new(DEFAULT_SPEED_DURATION),
    {
        SfoSpeedStat {
            upload_state: SpeedState::new(DEFAULT_SPEED_DURATION),
            download_state: SpeedState::new(DEFAULT_SPEED_DURATION),
        }
    }
}

impl<T: TimePicker> SfoSpeedStat<T> {
    /// The counters of what was written and of what was read, each by itself.
    pub fn into_states(self) -> (states: (SpeedState<T>, SpeedState<T>))
        ensures
            states.0 == self.upload(),
            states.1 == self.download(),
            states.0.wf(),
            states.1.wf(),
    {
        proof {
            use_type_invariant(&self);
        }
        (self.upload_state, self.download_state)
    }
}

impl<T: TimePicker> SpeedStat for SfoSpeedStat<T> {
    fn get_write_speed(&self) -> (speed: u64)
        ensures
            self.upload().shows_speed(speed),
    {
        proof {
            use_type_invariant(self);
        }
        self.upload_state.get_speed()
    }

    fn get_write_sum_size(&self) -> (size: u64)
        ensures
            size == self.upload().sum_size,
    {
        self.upload_state.get_sum_size()
    }

    fn get_read_speed(&self) -> (speed: u64)
        ensures
            self.download().shows_speed(speed),
    {
        proof {
            use_type_invariant(self);
        }
        self.download_state.get_speed()
    }

    fn get_read_sum_size(&self) -> (size: u64)
        ensures
            size == self.download().sum_size,
    {
        self.download_state.get_sum_size()
    }
}

impl<T: TimePicker> SpeedTracker for SfoSpeedStat<T> {
    fn add_write_data_size(&mut self, size: u64) -> (recorded: bool)
        ensures
            old(self).upload().counts(size, recorded, final(self).upload()),
            final(self).download() == old(self).download(),
    {
        proof {
            use_type_invariant(&*self);
        }
        let mut state = SpeedState::blank();
        core::mem::swap(&mut state, &mut self.upload_state);
        let recorded: bool = state.add_data(size);
        self.upload_state = state;
        recorded
    }

    fn add_read_data_size(&mut self, size: u64) -> (recorded: bool)
        ensures
            old(self).download().counts(size, recorded, final(self).download()),
            final(self).upload() == old(self).upload(),
    {
        proof {
            use_type_invariant(&*self);
        }
        let mut state = SpeedState::blank();
        core::mem::swap(&mut state, &mut self.download_state);
        let recorded: bool = state.add_data(size);
        self.download_state = state;
        recorded
    }
}

/// The speed never shows more than all the bytes over the number of seconds.
pub proof fn law_speed_is_covered_by_sum<T: TimePicker>(state: SpeedState<T>, now: u128)
    requires
        state.wf(),
    ensures
        state.speed_at(now) <= state.sum_size / state.speed_duration,
        state.speed_at(now) * state.speed_duration <= state.sum_size,
{
    let second = second_of(now);
    let count = |item: DataItem|
        is_recent(item, second, state.speed_duration) && item.time != second;
    lemma_total_filter(state.data_items@, count);
    let total = total_size(counted_items(state.data_items@, second, state.speed_duration));
    let sum = state.sum_size as nat;
    let d = state.speed_duration as nat;
    assert(total / d <= sum / d && (total / d) * d <= sum && total / d <= total) by (nonlinear_arith)
        requires
            total <= sum,
            d > 0,
    ;
}

/// Once nothing has come through for longer than the speed is taken over, the speed shows as zero.
pub proof fn law_speed_fades<T: TimePicker>(state: SpeedState<T>, now: u128)
    requires
        state.wf(),
        second_of(now) > second_of(state.last_time) + state.speed_duration,
    ensures
        state.speed_at(now) == 0,
{
    let second = second_of(now);
    let count = |item: DataItem|
        is_recent(item, second, state.speed_duration) && item.time != second;
    lemma_none_left(state.data_items@, count);
    assert(0nat / (state.speed_duration as nat) == 0) by (nonlinear_arith)
        requires
            state.speed_duration > 0,
    ;
}

proof fn lemma_none_left(items: Seq<DataItem>, keep: spec_fn(DataItem) -> bool)
    requires
        forall|i: int| 0 <= i < items.len() ==> !keep(#[trigger] items[i]),
    ensures
        items.filter(keep).len() == 0,
    decreases items.len(),
{
    reveal(Seq::filter);
    if items.len() > 0 {
        assert(!keep(items[items.len() - 1]));
        assert forall|i: int| 0 <= i < items.drop_last().len() implies !keep(
            #[trigger] items.drop_last()[i],
        ) by {
            assert(!keep(items[i]));
        }
        lemma_none_left(items.drop_last(), keep);
    }
}

proof fn lemma_cleared_is_wf<T: TimePicker>(
    before: SpeedState<T>,
    now: u128,
    after: SpeedState<T>,
)
    requires
        before.wf(),
        before.cleared(now, after),
    ensures
        after.wf(),
{
    let keep = |item: DataItem| is_recent(item, second_of(now), before.speed_duration);
    lemma_total_filter(before.data_items@, keep);
    lemma_filtered_times(before.data_items@, keep, second_of(before.last_time) as int);
    lemma_filter_in_order(before.data_items@, keep);
}

/// What can happen to a state.
pub enum StateChange {
    /// So many bytes are reported, and recorded.
    Recorded(u64),
    /// So many bytes are reported, and cannot be recorded.
    Refused(u64),
    /// The items that are too old at this moment are dropped.
    Cleared(u128),
}

impl StateChange {
    /// The bytes that the change records.
    pub open spec fn bytes(self) -> nat {
        match self {
            StateChange::Recorded(size) => size as nat,
            _ => 0,
        }
    }
}

/// All the bytes that these changes record.
pub open spec fn sum_of(changes: Seq<StateChange>) -> nat
    decreases changes.len(),
{
    if changes.len() == 0 {
        0
    } else {
        sum_of(changes.drop_last()) + changes.last().bytes()
    }
}

/// Whether `states` are the states before the first of these changes and after each.
pub open spec fn is_history<T: TimePicker>(
    states: Seq<SpeedState<T>>,
    changes: Seq<StateChange>,
) -> bool {
    &&& states.len() == changes.len() + 1
    &&& forall|i: int|
        0 <= i < changes.len() ==> (#[trigger] states[i]).changed(changes[i], states[i + 1])
}

proof fn lemma_added_is_wf<T: TimePicker>(
    before: SpeedState<T>,
    size: u64,
    now: u128,
    after: SpeedState<T>,
)
    requires
        before.wf(),
        before.can_add(size, now),
        before.added(size, now, after),
    ensures
        after.wf(),
{
    let keep = |item: DataItem| is_recent(item, second_of(now), before.speed_duration);
    let kept = before.data_items@.filter(keep);
    lemma_total_filter(before.data_items@, keep);
    lemma_filtered_times(before.data_items@, keep, second_of(before.last_time) as int);
    lemma_filter_in_order(before.data_items@, keep);
    lemma_after_in_order(kept, before.last_time, size, now);
    if now / 1000 == before.last_time / 1000 {
        lemma_total_with_bytes(kept, second_of(now), size);
    } else {
        lemma_total_spread_after(kept, size, before.last_time, now);
    }
}

/// Over any reports and clearings, the sum grows by exactly the bytes that were recorded, and the
/// items stay in order and within the sum.
pub proof fn law_sum_counts_every_record<T: TimePicker>(
    states: Seq<SpeedState<T>>,
    changes: Seq<StateChange>,
)
    requires
        is_history(states, changes),
    ensures
        states.last().sum_size == states.first().sum_size + sum_of(changes),
        states.last().speed_duration == states.first().speed_duration,
        states.first().wf() ==> states.last().wf(),
    decreases changes.len(),
{
    if changes.len() > 0 {
        let i = changes.len() - 1;
        let before = states[i];
        let after = states[i + 1];
        assert(before.changed(changes[i], after));
        assert forall|j: int| 0 <= j < changes.drop_last().len() implies (
        #[trigger] states.drop_last()[j]).changed(
            changes.drop_last()[j],
            states.drop_last()[j + 1],
        ) by {
            assert(states[j].changed(changes[j], states[j + 1]));
        }
        law_sum_counts_every_record(states.drop_last(), changes.drop_last());
        if states.first().wf() {
            match changes[i] {
                StateChange::Recorded(size) => {
                    let now = choose|now: u128| #[trigger]
                        call_ensures(T::now, (), now) && before.can_add(size, now) && before.added(
                            size,
                            now,
                            after,
                        );
                    lemma_added_is_wf(before, size, now, after);
                },
                StateChange::Refused(_) => {},
                StateChange::Cleared(now) => {
                    lemma_cleared_is_wf(before, now, after);
                },
            }
        }
    }
}

/// Bytes that are recorded for a second count for the speed, in full, in each of the next seconds
/// that the speed is taken over.
pub proof fn law_recorded_bytes_count(
    items: Seq<DataItem>,
    time: u64,
    size: u64,
    second: u64,
    duration: u64,
)
    requires
        total_size(items) + size <= u64::MAX,
        time < second,
        second - time <= duration,
    ensures
        total_size(counted_items(with_bytes(items, time, size), second, duration)) == total_size(
            counted_items(items, second, duration),
        ) + size,
{
    reveal(Seq::filter);
    let count = |item: DataItem| is_recent(item, second, duration) && item.time != second;
    let after = with_bytes(items, time, size);
    if items.len() > 0 && items.last().time == time {
        assert(after.drop_last() =~= items.drop_last());
        lemma_total_push(items.drop_last().filter(count), items.last());
        lemma_total_push(items.drop_last().filter(count), after.last());
    } else {
        assert(after.drop_last() =~= items);
        lemma_total_push(items.filter(count), after.last());
    }
}

proof fn lemma_filter_twice(
    items: Seq<DataItem>,
    wide: spec_fn(DataItem) -> bool,
    narrow: spec_fn(DataItem) -> bool,
)
    requires
        forall|item: DataItem| #[trigger] narrow(item) ==> wide(item),
    ensures
        items.filter(wide).filter(narrow) == items.filter(narrow),
    decreases items.len(),
{
    reveal(Seq::filter);
    if items.len() > 0 {
        let rest = items.drop_last();
        lemma_filter_twice(rest, wide, narrow);
        if wide(items.last()) {
            assert(rest.filter(wide).push(items.last()).drop_last() =~= rest.filter(wide));
        }
    }
}

/// Bytes that are recorded in the running second, where it is the second of the last record too, do
/// not change the speed that shows in that second.
pub proof fn law_running_second_does_not_count<T: TimePicker>(
    state: SpeedState<T>,
    size: u64,
    now: u128,
    after: SpeedState<T>,
    later: u128,
)
    requires
        state.can_add(size, now),
        state.added(size, now, after),
        now / 1000 == state.last_time / 1000,
        later / 1000 == now / 1000,
    ensures
        after.speed_at(later) == state.speed_at(later),
{
    reveal(Seq::filter);
    let second = second_of(now);
    let keep = |item: DataItem| is_recent(item, second, state.speed_duration);
    let count = |item: DataItem|
        is_recent(item, second, state.speed_duration) && item.time != second;
    let kept = state.data_items@.filter(keep);
    lemma_filter_twice(state.data_items@, keep, count);
    if kept.len() > 0 && kept.last().time == second {
        assert(after.data_items@.drop_last() =~= kept.drop_last());
    } else {
        assert(after.data_items@.drop_last() =~= kept);
    }
}

/// A clock that does not go back to an earlier second never stops records, up to the start of the
/// last second that 64 bits can count; and within one second, whichever it is, it never does.
pub proof fn law_clocks_that_go_on_are_followed(last_time: u128, now: u128)
    requires
        last_time / 1000 <= now / 1000,
        now <= u64::MAX * 1000 || now / 1000 == last_time / 1000,
    ensures
        can_follow(last_time, now),
{
}

/// The bytes of the items of the seconds from `from` on and before `to`.
pub open spec fn bytes_between(items: Seq<DataItem>, from: int, to: int) -> nat
    decreases items.len(),
{
    if items.len() == 0 {
        0
    } else {
        let last = items[items.len() - 1];
        let rest = bytes_between(items.subrange(0, items.len() - 1), from, to);
        if from <= last.time < to {
            rest + last.size as nat
        } else {
            rest
        }
    }
}

proof fn lemma_bytes_push(items: Seq<DataItem>, item: DataItem, from: int, to: int)
    ensures
        bytes_between(items.push(item), from, to) == bytes_between(items, from, to) + if from
            <= item.time < to {
            item.size as nat
        } else {
            0
        },
{
    let pushed = items.push(item);
    assert(pushed.subrange(0, pushed.len() - 1) =~= items);
}

proof fn lemma_bytes_add(a: Seq<DataItem>, b: Seq<DataItem>, from: int, to: int)
    ensures
        bytes_between(a + b, from, to) == bytes_between(a, from, to) + bytes_between(b, from, to),
    decreases b.len(),
{
    if b.len() == 0 {
        assert(a + b =~= a);
    } else {
        let rest = b.drop_last();
        lemma_bytes_add(a, rest, from, to);
        assert(a + b =~= (a + rest).push(b.last()));
        assert(b =~= rest.push(b.last()));
        lemma_bytes_push(a + rest, b.last(), from, to);
        lemma_bytes_push(rest, b.last(), from, to);
    }
}

/// The bytes of the items that are kept, where what is kept depends on the second alone.
proof fn lemma_bytes_of_kept(
    items: Seq<DataItem>,
    keep: spec_fn(DataItem) -> bool,
    second: int,
    kept: bool,
)
    requires
        forall|item: DataItem| item.time == second ==> #[trigger] keep(item) == kept,
    ensures
        bytes_between(items.filter(keep), second, second + 1) == if kept {
            bytes_between(items, second, second + 1)
        } else {
            0
        },
    decreases items.len(),
{
    reveal(Seq::filter);
    if items.len() > 0 {
        let rest = items.drop_last();
        let last = items.last();
        lemma_bytes_of_kept(rest, keep, second, kept);
        assert(items =~= rest.push(last));
        lemma_bytes_push(rest, last, second, second + 1);
        lemma_bytes_push(rest.filter(keep), last, second, second + 1);
    }
}

proof fn lemma_bytes_of_counted(items: Seq<DataItem>, second: u64, duration: u64)
    ensures
        total_size(counted_items(items, second, duration)) == bytes_between(
            items,
            second - duration,
            second as int,
        ),
    decreases items.len(),
{
    reveal(Seq::filter);
    if items.len() > 0 {
        let rest = items.drop_last();
        let last = items.last();
        lemma_bytes_of_counted(rest, second, duration);
        assert(items =~= rest.push(last));
        lemma_bytes_push(rest, last, second - duration, second as int);
        lemma_total_push(counted_items(rest, second, duration), last);
    }
}

proof fn lemma_bytes_within_total(items: Seq<DataItem>, from: int, to: int)
    ensures
        bytes_between(items, from, to) <= total_size(items),
        (forall|i: int| 0 <= i < items.len() ==> from <= #[trigger] items[i].time < to)
            ==> bytes_between(items, from, to) == total_size(items),
        (forall|i: int| 0 <= i < items.len() ==> !(from <= #[trigger] items[i].time < to))
            ==> bytes_between(items, from, to) == 0,
    decreases items.len(),
{
    if items.len() > 0 {
        let rest = items.drop_last();
        assert(items =~= rest.push(items.last()));
        lemma_bytes_push(rest, items.last(), from, to);
        lemma_bytes_within_total(rest, from, to);
        if forall|i: int| 0 <= i < items.len() ==> from <= #[trigger] items[i].time < to {
            assert forall|i: int| 0 <= i < rest.len() implies from <= #[trigger] rest[i].time
                < to by {
                assert(rest[i] == items[i]);
            }
            assert(from <= items[items.len() - 1].time < to);
        }
        if forall|i: int| 0 <= i < items.len() ==> !(from <= #[trigger] items[i].time < to) {
            assert forall|i: int| 0 <= i < rest.len() implies !(from <= #[trigger] rest[i].time
                < to) by {
                assert(rest[i] == items[i]);
            }
            assert(!(from <= items[items.len() - 1].time < to));
        }
    }
}

/// The speed is the bytes of the seconds that are over, as many of the last ones as the speed is
/// taken over, divided by their number: items that are one second old up to `speed_duration`
/// seconds old count in full, and no others at all.
pub proof fn law_speed_is_bytes_over_seconds<T: TimePicker>(state: SpeedState<T>, now: u128)
    requires
        state.wf(),
    ensures
        state.speed_at(now) == bytes_between(
            state.data_items@,
            second_of(now) - state.speed_duration,
            second_of(now) as int,
        ) / state.speed_duration as nat,
{
    let second = second_of(now);
    let d = state.speed_duration as nat;
    lemma_bytes_of_counted(state.data_items@, second, state.speed_duration);
    lemma_bytes_within_total(state.data_items@, second - d, second as int);
    let bytes = bytes_between(state.data_items@, second - d, second as int);
    assert(bytes / d <= bytes) by (nonlinear_arith)
        requires
            d > 0,
    ;
}

/// As long as every item is one second to `speed_duration` seconds old, the speed is all the bytes
/// of the items over the number of seconds; and where none is, it is zero.
pub proof fn law_every_item_of_the_last_seconds_counts<T: TimePicker>(
    state: SpeedState<T>,
    now: u128,
)
    requires
        state.wf(),
    ensures
        (forall|i: int|
            0 <= i < state.data_items@.len() ==> 1 <= second_of(now)
                - #[trigger] state.data_items@[i].time <= state.speed_duration) ==> state.speed_at(
            now,
        ) == total_size(state.data_items@) / state.speed_duration as nat,
        (forall|i: int|
            0 <= i < state.data_items@.len() ==> !(1 <= second_of(now)
                - #[trigger] state.data_items@[i].time <= state.speed_duration)) ==> state.speed_at(
            now,
        ) == 0,
{
    let second = second_of(now);
    let d = state.speed_duration as nat;
    let items = state.data_items@;
    law_speed_is_bytes_over_seconds(state, now);
    lemma_bytes_within_total(items, second - d, second as int);
    assert(0nat / d == 0) by (nonlinear_arith)
        requires
            d > 0,
    ;
    if forall|i: int|
        0 <= i < items.len() ==> 1 <= second - #[trigger] items[i].time <= state.speed_duration {
        assert forall|i: int| 0 <= i < items.len() implies second - d <= #[trigger] items[i].time
            < second by {}
    }
    if forall|i: int|
        0 <= i < items.len() ==> !(1 <= second - #[trigger] items[i].time
            <= state.speed_duration) {
        assert forall|i: int| 0 <= i < items.len() implies !(second - d
            <= #[trigger] items[i].time < second) by {}
    }
}

/// What is reported as the speed is that of a moment that the clock shows.
pub proof fn law_speed_shown_is_of_a_clock_reading<T: TimePicker>(state: SpeedState<T>, speed: u64)
    requires
        state.wf(),
        state.shows_speed(speed),
    ensures
        exists|now: u128| #[trigger]
            call_ensures(T::now, (), now) && speed == bytes_between(
                state.data_items@,
                second_of(now) - state.speed_duration,
                second_of(now) as int,
            ) / state.speed_duration as nat,
{
    let now = choose|now: u128| #[trigger]
        call_ensures(T::now, (), now) && speed == state.speed_at(now);
    law_speed_is_bytes_over_seconds(state, now);
}

/// The size of all items is that of each of them, once.
pub proof fn law_total_is_of_each_item(items: Seq<DataItem>, item: DataItem)
    ensures
        total_size(Seq::empty()) == 0,
        total_size(items.push(item)) == total_size(items) + item.size,
{
    lemma_total_push(items, item);
}

/// A moment in milliseconds is in the second that it is a thousandth of, as long as 64 bits can
/// count it.
pub proof fn law_a_second_is_a_thousand_milliseconds(now: u128)
    ensures
        now < 18_446_744_073_709_551_616_000 ==> second_of(now) * 1000 <= now < second_of(now)
            * 1000 + 1000,
        second_of(now) as int % 0x1_0000_0000_0000_0000 == now as int / 1000
            % 0x1_0000_0000_0000_0000,
{
}

/// On a clock whose seconds 64 bits can count, a record can follow the last one exactly where the
/// clock is not in an earlier second, and, unless it is in the same one, not past the start of the
/// last second that can be counted.
pub proof fn law_which_records_can_follow(last_time: u128, now: u128)
    requires
        last_time < 18_446_744_073_709_551_616_000,
        now < 18_446_744_073_709_551_616_000,
    ensures
        can_follow(last_time, now) <==> {
            ||| now / 1000 == last_time / 1000
            ||| now / 1000 > last_time / 1000 && now <= 18_446_744_073_709_551_615_000
        },
{
}

/// A report is recorded exactly where its bytes fit into the sum and the clock can be followed at
/// the moment that it shows; the sum then grows by the bytes, and the moment is kept. A report that
/// is not recorded changes nothing.
pub proof fn law_reports_are_recorded_or_change_nothing<T: TimePicker>(
    state: SpeedState<T>,
    size: u64,
    recorded: bool,
    after: SpeedState<T>,
)
    requires
        state.counts(size, recorded, after),
    ensures
        exists|now: u128| #[trigger]
            call_ensures(T::now, (), now) && recorded == (state.sum_size + size
                <= 18_446_744_073_709_551_615 && can_follow(state.last_time, now)) && (if recorded {
                after.sum_size == state.sum_size + size && after.last_time == now
                    && after.speed_duration == state.speed_duration
            } else {
                after == state
            }),
{
    let now = choose|now: u128| #[trigger]
        call_ensures(T::now, (), now) && recorded == state.can_add(size, now) && if recorded {
            state.added(size, now, after)
        } else {
            after == state
        };
    assert(call_ensures(T::now, (), now));
}

/// Clearing keeps what is no more than `speed_duration` seconds old, second by second and item by
/// item, and nothing else.
pub proof fn law_clearing_drops_what_is_too_old<T: TimePicker>(
    state: SpeedState<T>,
    now: u128,
    after: SpeedState<T>,
    second: int,
)
    requires
        state.cleared(now, after),
    ensures
        after.sum_size == state.sum_size,
        after.last_time == state.last_time,
        after.speed_duration == state.speed_duration,
        bytes_between(after.data_items@, second, second + 1) == if 0 <= second_of(now) - second
            <= state.speed_duration {
            bytes_between(state.data_items@, second, second + 1)
        } else {
            0
        },
        forall|item: DataItem|
            #![trigger after.data_items@.contains(item)]
            after.data_items@.contains(item) <==> state.data_items@.contains(item) && 0
                <= second_of(now) - item.time <= state.speed_duration,
{
    let keep = |item: DataItem| is_recent(item, second_of(now), state.speed_duration);
    lemma_bytes_of_kept(
        state.data_items@,
        keep,
        second,
        0 <= second_of(now) - second <= state.speed_duration,
    );
    assert forall|item: DataItem|
        #![trigger after.data_items@.contains(item)]
        after.data_items@.contains(item) <==> state.data_items@.contains(item) && 0 <= second_of(
            now,
        ) - item.time <= state.speed_duration by {
        lemma_filter_members(state.data_items@, keep, item);
    }
}

proof fn lemma_filter_members(
    items: Seq<DataItem>,
    keep: spec_fn(DataItem) -> bool,
    item: DataItem,
)
    ensures
        items.filter(keep).contains(item) <==> items.contains(item) && keep(item),
    decreases items.len(),
{
    reveal(Seq::filter);
    if items.len() > 0 {
        let rest = items.drop_last();
        let last = items.last();
        lemma_filter_members(rest, keep, item);
        assert(items =~= rest.push(last));
        assert(items.contains(item) <==> rest.contains(item) || item == last) by {
            lemma_push_members(rest, last, item);
        }
        if keep(last) {
            lemma_push_members(rest.filter(keep), last, item);
        }
    }
}

proof fn lemma_push_members(items: Seq<DataItem>, last: DataItem, item: DataItem)
    ensures
        items.push(last).contains(item) <==> items.contains(item) || item == last,
{
    let pushed = items.push(last);
    if items.contains(item) {
        let i = choose|i: int| 0 <= i < items.len() && items[i] == item;
        assert(pushed[i] == item);
    }
    if item == last {
        assert(pushed[items.len() as int] == item);
    }
    if pushed.contains(item) {
        let i = choose|i: int| 0 <= i < pushed.len() && pushed[i] == item;
        if i < items.len() {
            assert(items[i] == item);
        }
    }
}

proof fn lemma_bytes_with(items: Seq<DataItem>, time: u64, size: u64, second: int)
    requires
        total_size(items) + size <= u64::MAX,
    ensures
        bytes_between(with_bytes(items, time, size), second, second + 1) == bytes_between(
            items,
            second,
            second + 1,
        ) + if second == time {
            size as nat
        } else {
            0
        },
{
    let after = with_bytes(items, time, size);
    if items.len() > 0 && items.last().time == time {
        let rest = items.drop_last();
        assert(items =~= rest.push(items.last()));
        assert(after =~= rest.push(after.last()));
        lemma_bytes_push(rest, items.last(), second, second + 1);
        lemma_bytes_push(rest, after.last(), second, second + 1);
    } else {
        lemma_bytes_push(items, DataItem { size, time }, second, second + 1);
    }
}

/// The bytes of the parts of a spread from the second part on, up to the part before `k`.
proof fn lemma_bytes_of_parts(size: u64, from: u128, to: u128, k: int, second: int)
    requires
        from < to,
        1 <= k <= seconds_touched(from, to),
        second_of(from) + seconds_touched(from, to) <= u64::MAX,
    ensures
        bytes_between(spread(size, from, to).subrange(1, k), second, second + 1) == if second_of(
            from,
        ) < second < second_of(from) + k {
            share(size, from, to, from / 1000 + second - second_of(from)) as nat
        } else {
            0
        },
    decreases k,
{
    let parts = spread(size, from, to);
    if k > 1 {
        lemma_bytes_of_parts(size, from, to, k - 1, second);
        assert(parts.subrange(1, k) =~= parts.subrange(1, k - 1).push(parts[k - 1]));
        lemma_bytes_push(parts.subrange(1, k - 1), parts[k - 1], second, second + 1);
        lemma_share_bounds(size, from, to, k - 1);
    }
}

/// A record within the second of the last one adds all its bytes to that second. Of every second,
/// what is no more than `speed_duration` seconds old stays, and the rest goes.
pub proof fn law_a_record_in_the_same_second_goes_there<T: TimePicker>(
    state: SpeedState<T>,
    size: u64,
    now: u128,
    after: SpeedState<T>,
    second: int,
)
    requires
        state.wf(),
        state.can_add(size, now),
        state.added(size, now, after),
        now / 1000 == state.last_time / 1000,
    ensures
        after.sum_size == state.sum_size + size,
        after.last_time == now,
        after.speed_duration == state.speed_duration,
        bytes_between(after.data_items@, second, second + 1) == (if 0 <= second_of(now) - second
            <= state.speed_duration {
            bytes_between(state.data_items@, second, second + 1)
        } else {
            0
        }) + (if second == second_of(now) {
            size as nat
        } else {
            0
        }),
{
    let keep = |item: DataItem| is_recent(item, second_of(now), state.speed_duration);
    lemma_bytes_of_kept(
        state.data_items@,
        keep,
        second,
        0 <= second_of(now) - second <= state.speed_duration,
    );
    lemma_total_filter(state.data_items@, keep);
    lemma_bytes_with(state.data_items@.filter(keep), second_of(now), size, second);
}

/// A record in a later second is spread over the time since the last one: the `k`th second from
/// that of the last record on gets as much of the bytes as milliseconds of that time lie in it, in
/// proportion and rounded down, and has an item; no other second gets anything. Of every second,
/// what is no more than `speed_duration` seconds old stays, and the rest goes.
pub proof fn law_a_later_record_is_spread_evenly<T: TimePicker>(
    state: SpeedState<T>,
    size: u64,
    now: u128,
    after: SpeedState<T>,
    k: int,
)
    requires
        state.wf(),
        state.can_add(size, now),
        state.added(size, now, after),
        now / 1000 > state.last_time / 1000,
    ensures
        after.sum_size == state.sum_size + size,
        after.last_time == now,
        after.speed_duration == state.speed_duration,
        ({
            let start = state.last_time as int;
            let second = second_of(state.last_time) + k;
            let begins = (start / 1000 + k) * 1000;
            let first = if start > begins {
                start
            } else {
                begins
            };
            let end = if now < begins + 1000 {
                now as int
            } else {
                begins + 1000
            };
            let kept = if 0 <= second_of(now) - second <= state.speed_duration {
                bytes_between(state.data_items@, second, second + 1)
            } else {
                0
            };
            if first < end {
                &&& bytes_between(after.data_items@, second, second + 1) == kept + size * (end
                    - first) / (now - start)
                &&& exists|i: int|
                    0 <= i < after.data_items@.len() && #[trigger] after.data_items@[i].time
                        == second
            } else {
                bytes_between(after.data_items@, second, second + 1) == kept
            }
        }),
{
    let keep = |item: DataItem| is_recent(item, second_of(now), state.speed_duration);
    let kept = state.data_items@.filter(keep);
    let second = second_of(state.last_time) + k;
    let start = state.last_time;
    let parts = spread(size, start, now);
    let n = seconds_touched(start, now);
    let first = with_bytes(kept, parts[0].time, parts[0].size);
    lemma_bytes_of_kept(
        state.data_items@,
        keep,
        second,
        0 <= second_of(now) - second <= state.speed_duration,
    );
    lemma_total_filter(state.data_items@, keep);
    lemma_share_bounds(size, start, now, 0);
    lemma_bytes_with(kept, parts[0].time, parts[0].size, second);
    lemma_bytes_of_parts(size, start, now, n, second);
    assert(parts.skip(1) =~= parts.subrange(1, n));
    lemma_bytes_add(first, parts.skip(1), second, second + 1);
    if 0 <= k < n {
        lemma_share_bounds(size, start, now, k);
        if k == 0 {
            assert(after.data_items@[first.len() - 1] == first[first.len() - 1]);
            assert(after.data_items@[first.len() - 1].time == second);
        } else {
            assert(after.data_items@[first.len() + k - 1] == parts[k]);
            assert(after.data_items@[first.len() + k - 1].time == second);
        }
    }
}

/// The system's clock reads in whole milliseconds after the epoch.
pub proof fn law_system_clock_reads_in_milliseconds(moment: SystemTime)
    ensures
        match since_epoch(moment) {
            Some(duration) => epoch_millis(moment) == whole_millis(duration),
            None => epoch_millis(moment) == 0,
        },
{
}

/// New counters have counted nothing either way, and take the speed over the seconds asked for.
pub proof fn law_new_counters_are_empty<T: TimePicker>(stat: SfoSpeedStat<T>, duration: u64)
    requires
        stat.is_new(duration),
    ensures
        stat.upload().sum_size == 0,
        stat.download().sum_size == 0,
        stat.upload().data_items@.len() == 0,
        stat.download().data_items@.len() == 0,
        stat.upload().speed_duration == duration,
        stat.download().speed_duration == duration,
        call_ensures(T::now, (), stat.upload().last_time),
        call_ensures(T::now, (), stat.download().last_time),
{
}

/// What is written and what is read are counted apart, and both in full: a report that is recorded
/// adds its bytes to the sum of its own direction, and the other direction stays as it is.
pub proof fn law_directions_are_counted_apart<T: TimePicker>()
    ensures
        forall|stat: &mut SfoSpeedStat<T>, size: u64, recorded: bool| #[trigger]
            call_ensures(
                <SfoSpeedStat<T> as SpeedTracker>::add_write_data_size,
                (stat, size),
                recorded,
            ) ==> {
                &&& (*final(stat)).download() == (*stat).download()
                &&& recorded ==> (*final(stat)).upload().sum_size == (*stat).upload().sum_size
                    + size
                &&& !recorded ==> (*final(stat)).upload() == (*stat).upload()
            },
        forall|stat: &mut SfoSpeedStat<T>, size: u64, recorded: bool| #[trigger]
            call_ensures(
                <SfoSpeedStat<T> as SpeedTracker>::add_read_data_size,
                (stat, size),
                recorded,
            ) ==> {
                &&& (*final(stat)).upload() == (*stat).upload()
                &&& recorded ==> (*final(stat)).download().sum_size == (*stat).download().sum_size
                    + size
                &&& !recorded ==> (*final(stat)).download() == (*stat).download()
            },
{
}

/// What is asked about a direction is answered from that direction's counter.
pub proof fn law_questions_go_to_their_direction<T: TimePicker>(
    stat: &SfoSpeedStat<T>,
    written: u64,
    read: u64,
    write_speed: u64,
    read_speed: u64,
)
    requires
        call_ensures(<SfoSpeedStat<T> as SpeedStat>::get_write_sum_size, (stat,), written),
        call_ensures(<SfoSpeedStat<T> as SpeedStat>::get_read_sum_size, (stat,), read),
        call_ensures(<SfoSpeedStat<T> as SpeedStat>::get_write_speed, (stat,), write_speed),
        call_ensures(<SfoSpeedStat<T> as SpeedStat>::get_read_speed, (stat,), read_speed),
    ensures
        written == stat.upload().sum_size,
        read == stat.download().sum_size,
        stat.upload().shows_speed(write_speed),
        stat.download().shows_speed(read_speed),
{
}

/// The speed that is computed for a moment is the bytes of the seconds that are over, as many of
/// the last ones as the speed is taken over, divided by their number.
pub proof fn law_computed_speed_is_bytes_over_seconds<T: TimePicker>(
    state: &SpeedState<T>,
    now: u128,
    speed: u64,
)
    requires
        state.wf(),
        call_ensures(SpeedState::<T>::get_speed_at, (state, now), speed),
    ensures
        speed == bytes_between(
            state.data_items@,
            second_of(now) - state.speed_duration,
            second_of(now) as int,
        ) / state.speed_duration as nat,
{
    law_speed_is_bytes_over_seconds(*state, now);
}

/// Recording and clearing come to what is described of them, and the sum is what was recorded.
pub proof fn law_states_do_what_is_described<T: TimePicker>()
    ensures
        forall|state: &mut SpeedState<T>, size: u64, now: u128| #[trigger]
            call_ensures(SpeedState::<T>::add_data_at, (state, size, now), ()) ==> (*state).added(
                size,
                now,
                *final(state),
            ),
        forall|state: &mut SpeedState<T>, size: u64, recorded: bool| #[trigger]
            call_ensures(SpeedState::<T>::add_data, (state, size), recorded) ==> (*state).counts(
                size,
                recorded,
                *final(state),
            ),
        forall|state: &mut SpeedState<T>, now: u128| #[trigger]
            call_ensures(SpeedState::<T>::clear_invalid_item, (state, now), ()) ==> (
            *state).cleared(now, *final(state)),
        forall|state: &SpeedState<T>, sum: u64| #[trigger]
            call_ensures(SpeedState::<T>::get_sum_size, (state,), sum) ==> sum == state.sum_size,
        forall|duration: u64, state: SpeedState<T>| #[trigger]
            call_ensures(SpeedState::<T>::new, (duration,), state) ==> state.sum_size == 0
                && state.speed_duration == duration && state.data_items@.len() == 0,
{
}

} // verus!
