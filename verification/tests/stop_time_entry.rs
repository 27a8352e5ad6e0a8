use bus_stop_display::stop_time_entry::{find_next_stop_time_entry, StopTimeEntry};

#[test]
fn test_decode_stop_time_entry() {
    let data = [2, 0, 5, 8, 51];
    let entry = StopTimeEntry::read_from_bytes(&data).unwrap();
    assert_eq!(entry.route, 2);
    assert_eq!(entry.hour, 5);
    assert_eq!(entry.minute, 8);
    assert_eq!(entry.second, 51);
}

#[test]
fn test_greater_than_equal() {
    let stop_time = StopTimeEntry {
        route: 1,
        hour: 5,
        minute: 8,
        second: 51,
    };
    assert!(stop_time.greater_than_equal(4, 7, 50));
    assert!(!stop_time.greater_than_equal(6, 9, 52));
}

#[test]
fn test_minutes_until() {
    let stop_time = StopTimeEntry {
        route: 1,
        hour: 5,
        minute: 8,
        second: 51,
    };
    assert_eq!(stop_time.minutes_until_stop(5, 6, 51), 2);
    assert_eq!(stop_time.minutes_until_stop(5, 10, 51), 1438);
}

#[test]
fn test_minutes_until_next_day() {
    let stop_time = StopTimeEntry {
        route: 1,
        hour: 24,
        minute: 10,
        second: 0,
    };
    assert_eq!(stop_time.minutes_until_stop(0, 5, 0), 5);
}

#[test]
fn test_minutes_until_overflow() {
    let stop_time = StopTimeEntry {
        route: 1,
        hour: 5,
        minute: 50,
        second: 0,
    };
    assert_eq!(stop_time.minutes_until_stop(23, 30, 0), 6 * 60 + 20);
}

#[test]
fn test_next_stop_time_entry() {
    let data = [
        1, 0, 5, 8, 51, // 05:08:51
        2, 0, 6, 0, 0, // 06:00:00
        3, 0, 7, 30, 0, // 07:30:00
    ];
    let entry = find_next_stop_time_entry(&data, 5, 9, 0);
    assert_eq!(entry.route, 2);
    assert_eq!(entry.hour, 6);
    assert_eq!(entry.minute, 0);
    assert_eq!(entry.second, 0);

    let entry = find_next_stop_time_entry(&data, 6, 0, 0);
    assert_eq!(entry.route, 2);
    assert_eq!(entry.hour, 6);
    assert_eq!(entry.minute, 0);
    assert_eq!(entry.second, 0);

    let entry = find_next_stop_time_entry(&data, 7, 30, 1);
    assert_eq!(entry.route, 1);
    assert_eq!(entry.hour, 5);
    assert_eq!(entry.minute, 8);
    assert_eq!(entry.second, 51);
}

#[test]
fn route_is_read_little_endian() {
    let entry = StopTimeEntry::read_from_bytes(&[0x02, 0x01, 10, 20, 30]).unwrap();
    assert_eq!(entry.route, 0x0102);
    let entry = StopTimeEntry::read_from_bytes(&[0xff, 0xff, 0, 0, 0]).unwrap();
    assert_eq!(entry.route, 0xffff);
}

#[test]
fn read_from_bytes_needs_exactly_one_entry() {
    assert!(StopTimeEntry::read_from_bytes(&[1, 0, 5, 8]).is_none());
    assert!(StopTimeEntry::read_from_bytes(&[1, 0, 5, 8, 51, 0]).is_none());
    assert!(StopTimeEntry::read_from_bytes(&[]).is_none());
    assert_eq!(StopTimeEntry::SIZE, 5);
}

#[test]
fn greater_than_equal_is_tuple_order() {
    let stop_time = StopTimeEntry { route: 1, hour: 5, minute: 8, second: 51 };
    assert!(stop_time.greater_than_equal(5, 8, 51));
    assert!(!stop_time.greater_than_equal(5, 8, 52));
    assert!(stop_time.greater_than_equal(5, 7, 59));
    assert!(!stop_time.greater_than_equal(5, 9, 0));
    assert!(stop_time.greater_than_equal(4, 59, 59));
    // Fields are compared as numbers, whatever their range.
    assert!(stop_time.greater_than_equal(5, 7, 200));
}

#[test]
fn passed_compares_clock_seconds() {
    let stop_time = StopTimeEntry { route: 1, hour: 5, minute: 8, second: 51 };
    assert!(!stop_time.passed(5, 8, 51));
    assert!(stop_time.passed(5, 8, 52));
    assert!(!stop_time.passed(0, 0, 0));
    // An hour from 24 on stands for the hour minus 24.
    let late = StopTimeEntry { route: 1, hour: 25, minute: 0, second: 0 };
    assert!(late.passed(1, 0, 1));
    assert!(!late.passed(1, 0, 0));
    assert!(!late.greater_than_equal(25, 0, 1));
}

#[test]
fn at_or_after_agrees_with_not_passed_on_times_of_day() {
    let entries = [
        StopTimeEntry { route: 1, hour: 0, minute: 0, second: 0 },
        StopTimeEntry { route: 1, hour: 12, minute: 30, second: 15 },
        StopTimeEntry { route: 1, hour: 23, minute: 59, second: 59 },
    ];
    let times = [(0, 0, 0), (12, 30, 14), (12, 30, 15), (12, 30, 16), (23, 59, 59), (6, 0, 0)];
    for e in entries.iter() {
        for &(h, m, s) in times.iter() {
            assert_eq!(e.greater_than_equal(h, m, s), !e.passed(h, m, s));
        }
    }
}

#[test]
fn minutes_until_around_the_clock() {
    let stop_time = StopTimeEntry { route: 1, hour: 23, minute: 59, second: 0 };
    assert_eq!(stop_time.minutes_until_stop(0, 0, 0), 1439);
    assert_eq!(stop_time.minutes_until_stop(23, 59, 0), 0);
    assert_eq!(stop_time.minutes_until_stop(23, 58, 1), 0);
    assert_eq!(stop_time.minutes_until_stop(23, 58, 0), 1);
    // One second late: the stop is taken to be tomorrow.
    assert_eq!(stop_time.minutes_until_stop(23, 59, 1), 1439);
    let midnight = StopTimeEntry { route: 1, hour: 0, minute: 0, second: 0 };
    assert_eq!(midnight.minutes_until_stop(23, 59, 0), 1);
    // Seconds are cut, not rounded.
    let stop_time = StopTimeEntry { route: 1, hour: 10, minute: 0, second: 0 };
    assert_eq!(stop_time.minutes_until_stop(9, 58, 1), 1);
}

#[test]
fn next_stop_falls_back_to_first_entry() {
    let data = [4, 0, 6, 0, 0, 5, 0, 9, 0, 0];
    let entry = find_next_stop_time_entry(&data, 23, 0, 0);
    assert_eq!(entry.route, 4);
    assert_eq!(entry.hour, 6);
}

#[test]
fn next_stop_ignores_trailing_bytes() {
    // The last three bytes do not fill an entry and are not read.
    let data = [1, 0, 6, 0, 0, 2, 0, 23];
    let entry = find_next_stop_time_entry(&data, 7, 0, 0);
    assert_eq!(entry.route, 1);
    assert_eq!(entry.hour, 6);
}

#[test]
fn next_stop_takes_first_match_in_table_order() {
    // Not sorted: the first entry at or after the time wins.
    let data = [1, 0, 9, 0, 0, 2, 0, 8, 0, 0];
    let entry = find_next_stop_time_entry(&data, 7, 0, 0);
    assert_eq!(entry.route, 1);
    let entry = find_next_stop_time_entry(&data, 8, 30, 0);
    assert_eq!(entry.route, 1);
}
