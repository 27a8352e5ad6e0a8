# bus_stop_display

Verified logic of an informal bus stop display: a microcontroller with an
LCD1602 screen and a real-time clock that shows when the next bus comes.

- `src/stop_time_entry.rs`: packed stop time entries (route, hour, minute,
  second), the comparisons and minute counts on them, and the search for the
  next stop in a table.
- `src/special_service_entry.rs`: packed special service days and the search
  for the entry of a date.
- `src/schedule.rs`: the choice of weekday, Saturday or Sunday schedule for a
  date, and the next bus at a date and time.
- `src/display.rs`: the two- and three-place number texts shown on screen.
- `src/controller.rs`: the main loop's decisions as a step function from a
  state and a clock reading to the next state and an action.
- `src/first_match.rs`: the first element of a sequence that satisfies a
  predicate, shared by both table searches.
- `src/le_bytes.rs`: little-endian fields, read through `zerocopy`.
- `app/main.rs`: the firmware around the library (embassy-rp RTC and I2C,
  the LCD driver, the loop that carries out the actions). It expects the
  stop's tables under `app/stop_data/` and the build date and time in the
  `BUILD_*` environment variables. It is written for the RP2040 (`no_std`,
  `no_main`); `Cargo.toml` selects embassy-executor's std platform so that it
  can be checked on a host, and the Cortex-M platform replaces it for the
  board.
