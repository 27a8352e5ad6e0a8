//! The decisions of the display's main loop, one clock reading at a time.
//!
//! The loop around it reads the clock, calls [`step`], carries out the action
//! and reads the clock again: after [`DisplayAction::SleepUntilAlarm`] once the
//! alarm has fired, after a `Show` action once the text has been shown for
//! thirty seconds, and after [`DisplayAction::ReadClock`] at once.

use vstd::prelude::*;

use crate::schedule::{get_next_stop_time, next_bus, table_at, DateTime, StopData};
use crate::stop_time_entry::{minutes_until, seconds_of_day, seconds_per_day, StopTimeEntry};

verus! {

/// Where the main loop stands.
#[derive(Debug, Clone, Copy, PartialEq, Eq, Structural)]
pub enum DisplayState {
    /// No bus is chosen yet: the next clock reading picks one.
    Idle,
    /// Counting down to the bus `next`.
    Showing { next: StopTimeEntry },
}

/// What the main loop does before its next clock reading.
#[derive(Debug, Clone, Copy, PartialEq, Eq, Structural)]
pub enum DisplayAction {
    /// Turn the backlight off, wait for the alarm at `hour:minute`, then turn
    /// it on again.
    SleepUntilAlarm { hour: u8, minute: u8 },
    /// Show the route and the minutes left for thirty seconds.
    ShowMinutes { route: u16, minutes: u8 },
    /// Show the route and that the bus is due now for thirty seconds.
    ShowNow { route: u16 },
    /// Read the clock again at once.
    ReadClock,
}

/// Seconds since midnight of a clock reading.
pub open spec fn now_seconds(now: DateTime) -> int {
    seconds_of_day(now.hour as int, now.minute as int, now.second as int)
}

/// The step taken while counting down to `next`: once the bus has passed the
/// loop starts over; else it shows the minutes left, or that the bus is due
/// when less than a minute is left.
pub open spec fn countdown(next: StopTimeEntry, now: DateTime) -> (DisplayState, DisplayAction) {
    if next.stop_seconds() < now_seconds(now) {
        (DisplayState::Idle, DisplayAction::ReadClock)
    } else {
        let minutes = minutes_until(next.stop_seconds(), now_seconds(now));
        if minutes > 0 {
            (
                DisplayState::Showing { next },
                DisplayAction::ShowMinutes { route: next.route, minutes: minutes as u8 },
            )
        } else {
            (DisplayState::Showing { next }, DisplayAction::ShowNow { route: next.route })
        }
    }
}

/// The time of day, in seconds since midnight, one hour before a stop at
/// `stop` seconds, taken around the clock.
pub open spec fn alarm_seconds(stop: int) -> int {
    (stop + seconds_per_day() - 3600) % seconds_per_day()
}

/// The step taken in `state` at the clock reading `now`. From `Idle` the next
/// bus is chosen; when more than an hour is left the display sleeps until the
/// clock reaches the minute one hour before the bus stops, else it counts down
/// at once.
pub open spec fn next_step(state: DisplayState, data: StopData, now: DateTime) -> (DisplayState, DisplayAction) {
    match state {
        DisplayState::Idle => {
            let next = next_bus(data, now);
            let minutes = minutes_until(next.stop_seconds(), now_seconds(now));
            if minutes > 60 {
                (
                    DisplayState::Showing { next },
                    DisplayAction::SleepUntilAlarm {
                        hour: (alarm_seconds(next.stop_seconds()) / 3600) as u8,
                        minute: (alarm_seconds(next.stop_seconds()) % 3600 / 60) as u8,
                    },
                )
            } else {
                countdown(next, now)
            }
        },
        DisplayState::Showing { next } => countdown(next, now),
    }
}

/// Whether the loop can take a step from `state` at `now`: from `Idle` the
/// table of the day must hold an entry, and the minutes to the chosen bus
/// must be computable (the bus is later today, or `now` is within a day).
pub open spec fn can_step(state: DisplayState, data: StopData, now: DateTime) -> bool {
    state is Idle ==> {
        &&& table_at(data, now).len() >= 5
        &&& (next_bus(data, now).stop_seconds() >= now_seconds(now) || now_seconds(now)
            <= seconds_per_day())
    }
}

/// The display shows a bus only while it has not passed: a `Show` action
/// names the route of the bus that the next state counts down to, and that
/// bus stops at or after the clock reading. Less than a minute before the stop
/// it shows that the bus is due.
pub proof fn lemma_shows_only_buses_not_passed(state: DisplayState, data: StopData, now: DateTime)
    ensures
        ({
            let (next_state, action) = next_step(state, data, now);
            match action {
                DisplayAction::ShowMinutes { route, minutes } => next_state matches DisplayState::Showing {
                    next,
                } && next.route == route && next.stop_seconds() >= now_seconds(now) && minutes_until(
                    next.stop_seconds(),
                    now_seconds(now),
                ) > 0,
                DisplayAction::ShowNow { route } => next_state matches DisplayState::Showing { next }
                    && next.route == route && next.stop_seconds() - now_seconds(now) < 60,
                _ => true,
            }
        }),
{
}

/// The display sleeps only when a bus has just been chosen and more than an
/// hour is left until it, and it keeps that bus for when it wakes.
pub proof fn lemma_sleeps_only_for_distant_buses(state: DisplayState, data: StopData, now: DateTime)
    ensures
        ({
            let (next_state, action) = next_step(state, data, now);
            action is SleepUntilAlarm ==> {
                &&& state is Idle
                &&& next_state == (DisplayState::Showing { next: next_bus(data, now) })
                &&& minutes_until(next_bus(data, now).stop_seconds(), now_seconds(now)) > 60
            }
        }),
{
}

/// The alarm wakes the display as the bus approaches: for a bus that stops
/// within the day, the alarm time is a time of day, and at the start of the
/// alarm's minute exactly 60 whole minutes are left until the stop.
pub proof fn lemma_alarm_wakes_an_hour_before(state: DisplayState, data: StopData, now: DateTime)
    requires
        next_bus(data, now).stop_seconds() < seconds_per_day(),
    ensures
        ({
            let (_, action) = next_step(state, data, now);
            action matches DisplayAction::SleepUntilAlarm { hour, minute } ==> {
                &&& hour < 24 && minute < 60
                &&& ({
                    let stop = next_bus(data, now).stop_seconds();
                    let wake = hour * 3600 + minute * 60;
                    if stop >= wake {
                        (stop - wake) / 60 == 60
                    } else {
                        (86400 - wake + stop) / 60 == 60
                    }
                })
            }
        }),
{
    let stop = next_bus(data, now).stop_seconds();
    if state is Idle && minutes_until(stop, now_seconds(now)) > 60 {
        let a = alarm_seconds(stop);
        let wake = seconds_of_day(a / 3600, a % 3600 / 60, 0);
        assert(0 <= stop) by {
            assert(next_bus(data, now).clock_hour() >= 0);
        }
        assert(0 <= a < 86400 && (a / 3600) * 3600 + (a % 3600 / 60) * 60 == a - a % 60)
            by (nonlinear_arith)
            requires
                a == (stop + 86400 - 3600) % 86400,
                0 <= stop,
        ;
        assert(a % 60 == stop % 60 && (stop >= 3600 ==> a == stop - 3600) && (stop < 3600 ==> a
            == stop + 82800)) by (nonlinear_arith)
            requires
                a == (stop + 86400 - 3600) % 86400,
                0 <= stop < 86400,
        ;
        assert(minutes_until(stop, wake) == 60) by (nonlinear_arith)
            requires
                wake == a - a % 60,
                a % 60 == stop % 60,
                stop >= 3600 ==> a == stop - 3600,
                stop < 3600 ==> a == stop + 82800,
                0 <= stop < 86400,
                minutes_until(stop, wake) == if stop >= wake {
                    (stop - wake) / 60
                } else {
                    (86400 - wake + stop) / 60
                },
        ;
    }
}

/// What one step does, in terms of the seconds left: with `left` the whole
/// minutes from the reading `hour * 3600 + minute * 60 + second` forward to
/// the stop of the bus (the next bus when `Idle`, else the bus counted down
/// to), around the clock when the stop is earlier in the day:
/// - from `Idle`, more than 60 minutes left puts the display to sleep;
/// - a stop earlier in the day than the reading starts the loop over;
/// - otherwise it shows the minutes left, cut to a byte, or, with none left,
///   that the bus is due, and keeps counting down to that bus.
pub proof fn lemma_step_follows_minutes_left(state: DisplayState, data: StopData, now: DateTime)
    ensures
        ({
            let next = match state {
                DisplayState::Idle => next_bus(data, now),
                DisplayState::Showing { next } => next,
            };
            let stop = next.stop_seconds();
            let reading = now.hour * 3600 + now.minute * 60 + now.second;
            let left = if stop >= reading {
                (stop - reading) / 60
            } else {
                (86400 - reading + stop) / 60
            };
            let (next_state, action) = next_step(state, data, now);
            if state is Idle && left > 60 {
                &&& next_state == (DisplayState::Showing { next })
                &&& action is SleepUntilAlarm
            } else if stop < reading {
                &&& next_state == DisplayState::Idle
                &&& action == DisplayAction::ReadClock
            } else if left > 0 {
                &&& next_state == (DisplayState::Showing { next })
                &&& action == (DisplayAction::ShowMinutes { route: next.route, minutes: left as u8 })
                &&& (state is Idle ==> left <= 60 && left == left as u8)
            } else {
                &&& next_state == (DisplayState::Showing { next })
                &&& action == (DisplayAction::ShowNow { route: next.route })
            }
        }),
{
}

/// The countdown towards `next` at `now`.
fn count_down(next: StopTimeEntry, now: &DateTime) -> (res: (DisplayState, DisplayAction))
    ensures
        res == countdown(next, *now),
{
    if next.passed(now.hour, now.minute, now.second) {
        (DisplayState::Idle, DisplayAction::ReadClock)
    } else {
        let minutes = next.minutes_until_stop(now.hour, now.minute, now.second);
        if minutes > 0 {
            (
                DisplayState::Showing { next },
                DisplayAction::ShowMinutes { route: next.route, minutes: minutes as u8 },
            )
        } else {
            (DisplayState::Showing { next }, DisplayAction::ShowNow { route: next.route })
        }
    }
}

/// Takes one step of the main loop: the next state and the action to carry
/// out, from the current state and a clock reading.
pub fn step(state: &DisplayState, now: &DateTime, data: &StopData) -> (res: (DisplayState, DisplayAction))
    requires
        can_step(*state, *data, *now),
    ensures
        res == next_step(*state, *data, *now),
{
    match state {
        DisplayState::Idle => {
            let next = get_next_stop_time(now, data);
            let minutes = next.minutes_until_stop(now.hour, now.minute, now.second);
            if minutes > 60 {
                let stop = next.stop_time_u32();
                let alarm = (stop + 86400 - 3600) % 86400;
                (
                    DisplayState::Showing { next },
                    DisplayAction::SleepUntilAlarm {
                        hour: (alarm / 3600) as u8,
                        minute: (alarm % 3600 / 60) as u8,
                    },
                )
            } else {
                count_down(next, now)
            }
        },
        DisplayState::Showing { next } => count_down(*next, now),
    }
}

} // verus!
