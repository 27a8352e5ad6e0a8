//! Choosing the schedule that applies on a date and the next bus in it.

use vstd::prelude::*;

use crate::special_service_entry::{
    find_special_service_entry,
    service_type_of,
    special_service_on,
    SpecialServiceType,
};
use crate::stop_time_entry::{find_next_stop_time_entry, next_stop, StopTimeEntry};

verus! {

/// A day of the week, as the clock reports it.
#[derive(Debug, Clone, Copy, PartialEq, Eq, Structural)]
pub enum DayOfWeek {
    Sunday,
    Monday,
    Tuesday,
    Wednesday,
    Thursday,
    Friday,
    Saturday,
}

/// A date and time of day, as the clock reports it.
#[derive(Debug, Clone, Copy, PartialEq, Eq, Structural)]
pub struct DateTime {
    pub year: u16,
    pub month: u8,
    pub day: u8,
    pub day_of_week: DayOfWeek,
    pub hour: u8,
    pub minute: u8,
    pub second: u8,
}

/// The packed tables of one bus stop.
pub struct StopData<'a> {
    /// Special service days.
    pub special_service: &'a [u8],
    /// Stop times on weekdays.
    pub weekday: &'a [u8],
    /// Stop times on Saturdays.
    pub saturday: &'a [u8],
    /// Stop times on Sundays.
    pub sunday: &'a [u8],
}

/// Which of the three stop time tables runs on a day.
#[derive(Debug, Clone, Copy, PartialEq, Eq, Structural)]
pub enum ServiceDay {
    Weekday,
    Saturday,
    Sunday,
}

/// The day of the week that the number `n` stands for, Monday being 1 and
/// Sunday 7; any other number is read as Monday.
pub open spec fn day_of_week_of(n: u8) -> DayOfWeek {
    if n == 2 {
        DayOfWeek::Tuesday
    } else if n == 3 {
        DayOfWeek::Wednesday
    } else if n == 4 {
        DayOfWeek::Thursday
    } else if n == 5 {
        DayOfWeek::Friday
    } else if n == 6 {
        DayOfWeek::Saturday
    } else if n == 7 {
        DayOfWeek::Sunday
    } else {
        DayOfWeek::Monday
    }
}

/// Parses a day of the week from its number, Monday being 1 and Sunday 7.
/// Any other number gives Monday.
pub fn u8_to_day_of_week(n: u8) -> (day: DayOfWeek)
    ensures
        day == day_of_week_of(n),
{
    match n {
        1 => DayOfWeek::Monday,
        2 => DayOfWeek::Tuesday,
        3 => DayOfWeek::Wednesday,
        4 => DayOfWeek::Thursday,
        5 => DayOfWeek::Friday,
        6 => DayOfWeek::Saturday,
        7 => DayOfWeek::Sunday,
        _ => DayOfWeek::Monday,
    }
}

/// The number of a day of the week, Monday being 1 and Sunday 7.
pub open spec fn day_number(day: DayOfWeek) -> u8 {
    match day {
        DayOfWeek::Monday => 1,
        DayOfWeek::Tuesday => 2,
        DayOfWeek::Wednesday => 3,
        DayOfWeek::Thursday => 4,
        DayOfWeek::Friday => 5,
        DayOfWeek::Saturday => 6,
        DayOfWeek::Sunday => 7,
    }
}

/// Parsing a day's number gives the day back, and a number outside 1 to 7
/// gives Monday.
pub proof fn lemma_day_numbers_round_trip(day: DayOfWeek, n: u8)
    ensures
        day_of_week_of(day_number(day)) == day,
        (n < 1 || n > 7) ==> day_of_week_of(n) == DayOfWeek::Monday,
{
}

/// The service that a day of the week has when it is no special day.
pub open spec fn regular_service(day: DayOfWeek) -> ServiceDay {
    match day {
        DayOfWeek::Saturday => ServiceDay::Saturday,
        DayOfWeek::Sunday => ServiceDay::Sunday,
        _ => ServiceDay::Weekday,
    }
}

/// The service that a special service type asks for; an unknown type runs
/// weekday service.
pub open spec fn special_service(kind: SpecialServiceType) -> ServiceDay {
    match kind {
        SpecialServiceType::Saturday => ServiceDay::Saturday,
        SpecialServiceType::Sunday => ServiceDay::Sunday,
        _ => ServiceDay::Weekday,
    }
}

/// The service that runs at `now`: a special service entry for the date wins
/// over the day of the week.
pub open spec fn service_day(special: Seq<u8>, now: DateTime) -> ServiceDay {
    match special_service_on(special, now.year, now.month, now.day) {
        Some(e) => special_service(service_type_of(e.service_code)),
        None => regular_service(now.day_of_week),
    }
}

/// The stop time table of a service.
pub open spec fn schedule_table(data: StopData, day: ServiceDay) -> Seq<u8> {
    match day {
        ServiceDay::Weekday => data.weekday@,
        ServiceDay::Saturday => data.saturday@,
        ServiceDay::Sunday => data.sunday@,
    }
}

/// The stop time table that runs at `now`.
pub open spec fn table_at(data: StopData, now: DateTime) -> Seq<u8> {
    schedule_table(data, service_day(data.special_service@, now))
}

/// The next bus at `now`: the next stop, at the time of day of `now`, in the
/// table of the service that runs on that date.
pub open spec fn next_bus(data: StopData, now: DateTime) -> StopTimeEntry {
    next_stop(table_at(data, now), now.hour, now.minute, now.second)
}

/// A special service day runs the schedule of its service type whatever the
/// day of the week: two readings on that date at the same time of day have
/// the same next bus.
pub proof fn lemma_special_service_overrides_day_of_week(data: StopData, now: DateTime, other: DateTime)
    requires
        special_service_on(data.special_service@, now.year, now.month, now.day) is Some,
        other.year == now.year,
        other.month == now.month,
        other.day == now.day,
        other.hour == now.hour,
        other.minute == now.minute,
        other.second == now.second,
    ensures
        next_bus(data, other) == next_bus(data, now),
{
}

/// On a day without special service, the day of the week picks the schedule:
/// Monday to Friday the weekday table, Saturday and Sunday their own.
pub proof fn lemma_regular_days_follow_day_of_week(data: StopData, now: DateTime)
    requires
        special_service_on(data.special_service@, now.year, now.month, now.day) is None,
    ensures
        table_at(data, now) == (match now.day_of_week {
            DayOfWeek::Saturday => data.saturday@,
            DayOfWeek::Sunday => data.sunday@,
            _ => data.weekday@,
        }),
{
}

/// The next bus at `now` is the next stop, at the hour, minute and second of
/// `now`, in the table of the day: on a date with a special service entry,
/// code 1 runs the Saturday table, code 2 the Sunday table and every other
/// code the weekday table; on other dates Saturday and Sunday run their own
/// tables and the other days the weekday table.
pub proof fn lemma_next_bus_searches_the_days_table(data: StopData, now: DateTime)
    ensures
        next_bus(data, now) == next_stop(
            match special_service_on(data.special_service@, now.year, now.month, now.day) {
                Some(e) => if e.service_code == 1 {
                    data.saturday@
                } else if e.service_code == 2 {
                    data.sunday@
                } else {
                    data.weekday@
                },
                None => match now.day_of_week {
                    DayOfWeek::Saturday => data.saturday@,
                    DayOfWeek::Sunday => data.sunday@,
                    _ => data.weekday@,
                },
            },
            now.hour,
            now.minute,
            now.second,
        ),
{
}

/// Gets the next stop time for the given date and time: special service for
/// the date, where the table has it, decides the schedule, else the day of
/// the week does; an unknown special service type runs the weekday schedule.
pub fn get_next_stop_time(now: &DateTime, data: &StopData) -> (entry: StopTimeEntry)
    requires
        table_at(*data, *now).len() >= 5,
    ensures
        entry == next_bus(*data, *now),
{
    if let Some(special_service_entry) = find_special_service_entry(
        data.special_service,
        now.year,
        now.month,
        now.day,
    ) {
        match special_service_entry.service_type() {
            SpecialServiceType::Weekday => {
                find_next_stop_time_entry(data.weekday, now.hour, now.minute, now.second)
            },
            SpecialServiceType::Saturday => {
                find_next_stop_time_entry(data.saturday, now.hour, now.minute, now.second)
            },
            SpecialServiceType::Sunday => {
                find_next_stop_time_entry(data.sunday, now.hour, now.minute, now.second)
            },
            SpecialServiceType::Unknown(_) => {
                find_next_stop_time_entry(data.weekday, now.hour, now.minute, now.second)
            },
        }
    } else {
        match now.day_of_week {
            DayOfWeek::Monday
            | DayOfWeek::Tuesday
            | DayOfWeek::Wednesday
            | DayOfWeek::Thursday
            | DayOfWeek::Friday => {
                find_next_stop_time_entry(data.weekday, now.hour, now.minute, now.second)
            },
            DayOfWeek::Saturday => {
                find_next_stop_time_entry(data.saturday, now.hour, now.minute, now.second)
            },
            DayOfWeek::Sunday => {
                find_next_stop_time_entry(data.sunday, now.hour, now.minute, now.second)
            },
        }
    }
}

} // verus!
