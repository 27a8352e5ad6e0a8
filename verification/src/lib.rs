//! Decoding and scheduling logic for an informal bus stop display.
//!
//! The display keeps packed tables of stop times and special service days,
//! decodes them entry by entry, picks the schedule that applies to the
//! current date and finds the next bus.

pub mod controller;
pub mod display;
pub mod first_match;
pub mod le_bytes;
pub mod schedule;
pub mod special_service_entry;
pub mod stop_time_entry;
