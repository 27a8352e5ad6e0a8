//! Stop time data, packed so that the display code can read it directly.

use vstd::prelude::*;

use crate::first_match::{
    first_match,
    is_first_match_index,
    lemma_first_match_is_first_index,
    lemma_first_match_skip,
};
use crate::le_bytes::{le_u16_value, read_le_u16};

verus! {

/// An entry in the stop time data.
#[derive(Debug, Clone, Copy, PartialEq, Eq, Structural, PartialOrd, Ord)]
pub struct StopTimeEntry {
    pub route: u16,
    pub hour: u8,
    pub minute: u8,
    pub second: u8,
}

/// Lexicographic `>=` on `(hour, minute, second)` triples.
pub open spec fn time_ge(h1: u8, m1: u8, s1: u8, h2: u8, m2: u8, s2: u8) -> bool {
    h1 > h2 || (h1 == h2 && (m1 > m2 || (m1 == m2 && s1 >= s2)))
}

/// Seconds since midnight of `hour:minute:second`.
pub open spec fn seconds_of_day(hour: int, minute: int, second: int) -> int {
    hour * 3600 + minute * 60 + second
}

/// Number of seconds in a day.
pub open spec fn seconds_per_day() -> int {
    86400
}

/// Minutes until a stop at `stop` seconds, seen from `now` seconds: the
/// difference when the stop is later today, else the difference across
/// midnight into the next day, rounded down to whole minutes.
pub open spec fn minutes_until(stop: int, now: int) -> int {
    if stop >= now {
        (stop - now) / 60
    } else {
        (seconds_per_day() - now + stop) / 60
    }
}

/// The entry that the five bytes `b[0..5]` encode: the route as a little-endian
/// `u16`, then hour, minute and second.
pub open spec fn decode_stop_time(b: Seq<u8>) -> StopTimeEntry {
    StopTimeEntry {
        route: le_u16_value(b[0], b[1]) as u16,
        hour: b[2],
        minute: b[3],
        second: b[4],
    }
}

/// The entries of a stop time table: one per whole 5-byte chunk, in order;
/// trailing bytes that do not fill a chunk are ignored.
pub open spec fn stop_time_entries(data: Seq<u8>) -> Seq<StopTimeEntry> {
    Seq::new(
        (data.len() / 5) as nat,
        |i: int| decode_stop_time(data.subrange(5 * i, 5 * i + 5)),
    )
}

/// The predicate "at or after `hour:minute:second`" on entries.
pub open spec fn at_or_after(hour: u8, minute: u8, second: u8) -> spec_fn(StopTimeEntry) -> bool {
    |e: StopTimeEntry| time_ge(e.hour, e.minute, e.second, hour, minute, second)
}

/// The first entry, in table order, at or after `hour:minute:second`.
pub open spec fn first_at_or_after(entries: Seq<StopTimeEntry>, hour: u8, minute: u8, second: u8) -> Option<StopTimeEntry> {
    first_match(entries, at_or_after(hour, minute, second))
}

/// The next stop of a table at `hour:minute:second`: the first entry at or after
/// that time, or, when every entry is earlier, the table's first entry (the
/// first bus of the next day).
pub open spec fn next_stop(data: Seq<u8>, hour: u8, minute: u8, second: u8) -> StopTimeEntry {
    match first_at_or_after(stop_time_entries(data), hour, minute, second) {
        Some(entry) => entry,
        None => stop_time_entries(data)[0],
    }
}

/// Decodes the entry at byte offset `off`.
fn decode_at(data: &[u8], off: usize) -> (entry: StopTimeEntry)
    requires
        off + 5 <= data@.len(),
    ensures
        entry == decode_stop_time(data@.subrange(off as int, off + 5)),
{
    StopTimeEntry {
        route: read_le_u16(data[off], data[off + 1]),
        hour: data[off + 2],
        minute: data[off + 3],
        second: data[off + 4],
    }
}

/// Iterates through a sorted list of stop time entries to find the next entry
/// that is greater than or equal to the given time. When there is none, the
/// first entry of the table is the next stop.
pub fn find_next_stop_time_entry(data: &[u8], hour: u8, minute: u8, second: u8) -> (entry: StopTimeEntry)
    requires
        data@.len() >= 5,
    ensures
        entry == next_stop(data@, hour, minute, second),
{
    let ghost entries = stop_time_entries(data@);
    let len = data.len();
    let n = len / 5;
    let mut k: usize = 0;
    assert(entries.skip(0) =~= entries);
    while k < n
        invariant
            len == data@.len(),
            n == len / 5,
            entries == stop_time_entries(data@),
            entries.len() == n,
            k <= n,
            first_at_or_after(entries, hour, minute, second) == first_at_or_after(
                entries.skip(k as int),
                hour,
                minute,
                second,
            ),
        decreases n - k,
    {
        assert(k * 5 + 5 <= len) by (nonlinear_arith)
            requires
                k < n,
                n == len / 5,
        ;
        let entry = decode_at(data, k * 5);
        assert(entry == entries[k as int]);
        if entry.greater_than_equal(hour, minute, second) {
            assert(entries.skip(k as int)[0] == entries[k as int]);
            return entry;
        }
        proof {
            lemma_first_match_skip(entries, at_or_after(hour, minute, second), k as int);
        }
        k = k + 1;
    }
    assert(entries.skip(k as int).len() == 0);
    let first = decode_at(data, 0);
    assert(first == entries[0]);
    first
}

/// Whether a clock reading is a time of day: hour below 24, minute and second
/// below 60.
pub open spec fn is_time_of_day(hour: u8, minute: u8, second: u8) -> bool {
    hour < 24 && minute < 60 && second < 60
}

/// Whether the entries are in time order, earliest first.
pub open spec fn sorted_by_time(entries: Seq<StopTimeEntry>) -> bool {
    forall|i: int, j: int|
        0 <= i <= j < entries.len() ==> time_ge(
            #[trigger] entries[j].hour,
            entries[j].minute,
            entries[j].second,
            #[trigger] entries[i].hour,
            entries[i].minute,
            entries[i].second,
        )
}

/// In a table sorted by time, the next stop at a time that some entry is at or
/// after is the earliest such entry: it is at or after the time, and every
/// entry at or after the time is at or after it. When no entry is at or after
/// the time, the next stop is the table's first entry.
pub proof fn lemma_next_stop_is_earliest(data: Seq<u8>, hour: u8, minute: u8, second: u8)
    requires
        data.len() >= 5,
        sorted_by_time(stop_time_entries(data)),
    ensures
        ({
            let entries = stop_time_entries(data);
            let next = next_stop(data, hour, minute, second);
            if exists|i: int|
                0 <= i < entries.len() && time_ge(
                    #[trigger] entries[i].hour,
                    entries[i].minute,
                    entries[i].second,
                    hour,
                    minute,
                    second,
                ) {
                &&& time_ge(next.hour, next.minute, next.second, hour, minute, second)
                &&& forall|i: int|
                    0 <= i < entries.len() && time_ge(
                        #[trigger] entries[i].hour,
                        entries[i].minute,
                        entries[i].second,
                        hour,
                        minute,
                        second,
                    ) ==> time_ge(
                        entries[i].hour,
                        entries[i].minute,
                        entries[i].second,
                        next.hour,
                        next.minute,
                        next.second,
                    )
            } else {
                next == entries[0]
            }
        }),
{
    let entries = stop_time_entries(data);
    let pred = at_or_after(hour, minute, second);
    lemma_first_match_is_first_index(entries, pred);
    match first_match(entries, pred) {
        Some(e) => {
            let k = choose|k: int| is_first_match_index(entries, pred, k) && #[trigger] entries[k] == e;
            assert forall|i: int|
                0 <= i < entries.len() && time_ge(
                    #[trigger] entries[i].hour,
                    entries[i].minute,
                    entries[i].second,
                    hour,
                    minute,
                    second,
                ) implies time_ge(
                entries[i].hour,
                entries[i].minute,
                entries[i].second,
                e.hour,
                e.minute,
                e.second,
            ) by {
                if i < k {
                    assert(!pred(entries[i]));
                }
                assert(entries[k] == e);
            }
        },
        None => {
            assert forall|i: int| 0 <= i < entries.len() implies !time_ge(
                #[trigger] entries[i].hour,
                entries[i].minute,
                entries[i].second,
                hour,
                minute,
                second,
            ) by {
                assert(!pred(entries[i]));
            }
        },
    }
}

/// For an entry whose hour is a time of day, at a time of day, the entry is at
/// or after the time exactly when it has not passed at that time.
pub proof fn lemma_at_or_after_iff_not_passed(entry: StopTimeEntry, hour: u8, minute: u8, second: u8)
    requires
        is_time_of_day(entry.hour, entry.minute, entry.second),
        is_time_of_day(hour, minute, second),
    ensures
        time_ge(entry.hour, entry.minute, entry.second, hour, minute, second) <==> !(
        entry.stop_seconds() < seconds_of_day(hour as int, minute as int, second as int)),
{
}

/// For a stop and a clock reading within the same day, the minutes until the
/// stop are the seconds from the reading `hour * 3600 + minute * 60 + second`
/// forward to the stop, taken around the clock, in whole minutes; so they are
/// fewer than a day's 1440.
pub proof fn lemma_minutes_until_around_the_clock(entry: StopTimeEntry, hour: u8, minute: u8, second: u8)
    requires
        entry.stop_seconds() < 86400,
        hour * 3600 + minute * 60 + second < 86400,
    ensures
        minutes_until(entry.stop_seconds(), seconds_of_day(hour as int, minute as int, second as int))
            == ((entry.stop_seconds() - (hour * 3600 + minute * 60 + second)) % 86400) / 60,
        minutes_until(entry.stop_seconds(), seconds_of_day(hour as int, minute as int, second as int))
            < 1440,
{
    let stop = entry.stop_seconds();
    let now = hour * 3600 + minute * 60 + second;
    lemma_stop_seconds_reads_late_hours(entry);
    if stop >= now {
        vstd::arithmetic::div_mod::lemma_small_mod((stop - now) as nat, 86400);
    } else {
        vstd::arithmetic::div_mod::lemma_mod_add_multiples_vanish(stop - now, 86400);
        vstd::arithmetic::div_mod::lemma_small_mod((stop - now + 86400) as nat, 86400);
    }
}

/// The stop time of an entry in seconds since midnight: hour, minute and
/// second as stored, except that an hour from 24 on stands for the hour minus
/// 24, on the clock after midnight. An entry whose hour is below 48 and whose
/// minute and second are below 60 thus stops within the day.
pub proof fn lemma_stop_seconds_reads_late_hours(e: StopTimeEntry)
    ensures
        e.hour < 24 ==> e.stop_seconds() == e.hour * 3600 + e.minute * 60 + e.second,
        e.hour >= 24 ==> e.stop_seconds() == (e.hour - 24) * 3600 + e.minute * 60 + e.second,
        e.stop_seconds() >= 0,
        e.hour < 48 && e.minute < 60 && e.second < 60 ==> e.stop_seconds() < 86400,
{
}

/// `time_ge` is the order of `(hour, minute, second)` triples of bytes, for
/// every byte value: the same as comparing `hour * 65536 + minute * 256 +
/// second`.
pub proof fn lemma_time_ge_is_tuple_order(h1: u8, m1: u8, s1: u8, h2: u8, m2: u8, s2: u8)
    ensures
        time_ge(h1, m1, s1, h2, m2, s2) <==> h1 * 65536 + m1 * 256 + s1 >= h2 * 65536 + m2 * 256
            + s2,
{
}

/// The entries of a table are its 5-byte chunks in order: entry `i` has the
/// route `data[5i] + 256 * data[5i + 1]`, then the hour, minute and second of
/// bytes `5i + 2` to `5i + 4`; a table has one entry per whole chunk.
pub proof fn lemma_stop_time_entries_layout(data: Seq<u8>)
    ensures
        stop_time_entries(data).len() == data.len() / 5,
        forall|i: int|
            #![trigger stop_time_entries(data)[i]]
            0 <= i < data.len() / 5 ==> {
                &&& stop_time_entries(data)[i].route == data[5 * i] + 256 * data[5 * i + 1]
                &&& stop_time_entries(data)[i].hour == data[5 * i + 2]
                &&& stop_time_entries(data)[i].minute == data[5 * i + 3]
                &&& stop_time_entries(data)[i].second == data[5 * i + 4]
            },
{
    assert forall|i: int| 0 <= i < data.len() / 5 implies {
        &&& #[trigger] stop_time_entries(data)[i].route == data[5 * i] + 256 * data[5 * i + 1]
        &&& stop_time_entries(data)[i].hour == data[5 * i + 2]
        &&& stop_time_entries(data)[i].minute == data[5 * i + 3]
        &&& stop_time_entries(data)[i].second == data[5 * i + 4]
    } by {
        assert(5 * i + 5 <= data.len()) by (nonlinear_arith)
            requires
                0 <= i < data.len() / 5,
        ;
        let chunk = data.subrange(5 * i, 5 * i + 5);
        assert(chunk[0] == data[5 * i] && chunk[1] == data[5 * i + 1]);
        assert(data[5 * i] + 256 * data[5 * i + 1] <= 65535);
    }
}

/// The next stop at a time is the entry at the first index of the table whose
/// `(hour, minute, second)` is at or after the time as a triple of bytes
/// (hours of 24 and more included); when no entry is, it is the first entry.
pub proof fn lemma_next_stop_is_first_at_or_after(data: Seq<u8>, hour: u8, minute: u8, second: u8)
    requires
        data.len() >= 5,
    ensures
        ({
            let entries = stop_time_entries(data);
            let key = hour * 65536 + minute * 256 + second;
            let next = next_stop(data, hour, minute, second);
            ||| exists|k: int|
                {
                    &&& 0 <= k < entries.len()
                    &&& #[trigger] entries[k] == next
                    &&& entries[k].hour * 65536 + entries[k].minute * 256 + entries[k].second >= key
                    &&& forall|j: int|
                        0 <= j < k ==> #[trigger] entries[j].hour * 65536 + entries[j].minute * 256
                            + entries[j].second < key
                }
            ||| {
                &&& forall|j: int|
                    0 <= j < entries.len() ==> #[trigger] entries[j].hour * 65536 + entries[j].minute
                        * 256 + entries[j].second < key
                &&& next == entries[0]
            }
        }),
{
    let entries = stop_time_entries(data);
    let key = hour * 65536 + minute * 256 + second;
    let pred = at_or_after(hour, minute, second);
    assert forall|j: int| 0 <= j < entries.len() implies (pred(#[trigger] entries[j]) <==> entries[j].hour
        * 65536 + entries[j].minute * 256 + entries[j].second >= key) by {
        lemma_time_ge_is_tuple_order(
            entries[j].hour,
            entries[j].minute,
            entries[j].second,
            hour,
            minute,
            second,
        );
    }
    lemma_first_match_is_first_index(entries, pred);
    match first_match(entries, pred) {
        Some(e) => {
            let k = choose|k: int| is_first_match_index(entries, pred, k) && #[trigger] entries[k] == e;
            assert forall|j: int| 0 <= j < k implies #[trigger] entries[j].hour * 65536
                + entries[j].minute * 256 + entries[j].second < key by {
                assert(!pred(entries[j]));
            }
            assert(pred(entries[k]));
        },
        None => {
            assert forall|j: int| 0 <= j < entries.len() implies #[trigger] entries[j].hour * 65536
                + entries[j].minute * 256 + entries[j].second < key by {
                assert(!pred(entries[j]));
            }
        },
    }
}

/// Seconds since midnight of a clock reading, in `u32`.
fn clock_seconds(hour: u8, minute: u8, second: u8) -> (t: u32)
    ensures
        t == seconds_of_day(hour as int, minute as int, second as int),
{
    (hour as u32) * 3600 + (minute as u32) * 60 + (second as u32)
}

impl StopTimeEntry {
    /// Size in bytes of one packed entry.
    pub const SIZE: usize = 5;

    /// Reads an entry from exactly [`StopTimeEntry::SIZE`] bytes; `None` when
    /// `bytes` has another length.
    pub fn read_from_bytes(bytes: &[u8]) -> (entry: Option<StopTimeEntry>)
        ensures
            entry == (if bytes@.len() == 5 {
                Some(decode_stop_time(bytes@))
            } else {
                None
            }),
    {
        if bytes.len() == 5 {
            let e = decode_at(bytes, 0);
            assert(bytes@.subrange(0, 5) =~= bytes@);
            Some(e)
        } else {
            None
        }
    }

    /// The entry's hour on the clock: hours from 24 on belong to service
    /// that runs past midnight and stand for the hour minus 24.
    pub open spec fn clock_hour(self) -> int {
        if self.hour >= 24 {
            self.hour - 24
        } else {
            self.hour as int
        }
    }

    /// Seconds since midnight at which the bus stops.
    pub open spec fn stop_seconds(self) -> int {
        seconds_of_day(self.clock_hour(), self.minute as int, self.second as int)
    }

    /// Whether the entry's `(hour, minute, second)` is at or after the given time,
    /// compared as a tuple.
    pub fn greater_than_equal(&self, hour: u8, minute: u8, second: u8) -> (ge: bool)
        ensures
            ge == time_ge(self.hour, self.minute, self.second, hour, minute, second),
    {
        if self.hour != hour {
            self.hour > hour
        } else if self.minute != minute {
            self.minute > minute
        } else {
            self.second >= second
        }
    }

    /// The stop time in seconds since midnight, in `u32`.
    pub(crate) fn stop_time_u32(&self) -> (t: u32)
        ensures
            t == self.stop_seconds(),
    {
        let stop_hour = if self.hour >= 24 {
            self.hour - 24
        } else {
            self.hour
        };
        (stop_hour as u32) * 3600 + (self.minute as u32) * 60 + (self.second as u32)
    }

    /// Whole minutes until the bus stops, counting from `hour:minute:second`.
    /// A stop earlier than the given time is taken to be on the next day.
    pub fn minutes_until_stop(&self, hour: u8, minute: u8, second: u8) -> (minutes: u16)
        requires
            self.stop_seconds() >= seconds_of_day(hour as int, minute as int, second as int)
                || seconds_of_day(hour as int, minute as int, second as int) <= seconds_per_day(),
        ensures
            minutes == minutes_until(
                self.stop_seconds(),
                seconds_of_day(hour as int, minute as int, second as int),
            ),
    {
        let stop_time = self.stop_time_u32();
        let now = clock_seconds(hour, minute, second);
        if stop_time >= now {
            ((stop_time - now) / 60) as u16
        } else {
            let max_time: u32 = 24 * 60 * 60;
            ((max_time - now + stop_time) / 60) as u16
        }
    }

    /// Whether the stop time, read on the clock, lies before `hour:minute:second`.
    pub fn passed(&self, hour: u8, minute: u8, second: u8) -> (passed: bool)
        ensures
            passed == (self.stop_seconds() < seconds_of_day(
                hour as int,
                minute as int,
                second as int,
            )),
    {
        let stop_time = self.stop_time_u32();
        let target_time = clock_seconds(hour, minute, second);
        stop_time < target_time
    }
}

} // verus!
