//! Verified core of a transit-feed import pipeline.
//!
//! A parsed feed (routes, trips, stops, timetables, calendars, shape points)
//! is normalized into a self-contained snapshot: every textual identifier is
//! replaced by a dense integer code from a shared interner, enumeration
//! values are mapped to stable small integers, and all rows for one import
//! are gathered into a single batch that a store applies atomically.

pub mod codec;
pub mod color;
pub mod import;
pub mod interner;
pub mod loader;
pub mod model;
pub mod provision;
pub mod records;
pub mod rows;
pub mod serve;
pub mod store;
pub mod text;
