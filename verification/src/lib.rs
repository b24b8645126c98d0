//! Attendance-session core: the scanned-code grammar, the time normalizer with
//! its grid reconstruction, the session cache with its two expiry clocks, and
//! the rules that keep the cache and the persistent store consistent.

pub mod cache;
pub mod calendar;
pub mod instant;
pub mod models;
pub mod regenerate;
pub mod service;
pub mod signing_code;
pub mod store;
pub mod text;
pub mod time_utils;
