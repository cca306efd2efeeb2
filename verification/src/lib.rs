//! Availability engine for a calendar-booking service.
//!
//! The engine is a pure function of caller-supplied settings, availability
//! rules and a query: it enumerates bookable time windows inside a date range
//! and validates a single proposed window, reporting a conflict reason when
//! the window is not bookable. Storage, HTTP handling and authentication live
//! outside the engine and hand it plain values.

pub mod checker;
pub mod date;
pub mod error;
pub mod generator;
pub mod model;
pub mod requests;
pub mod selector;
pub mod session;
pub mod text;
pub mod time_of_day;
pub mod weekday;
