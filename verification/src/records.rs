//! Parsed feed records as the loaders receive them: plain values only.
//! Identifier fields still carry their text; coordinates and travelled
//! distances are fixed-point integers (degrees in ten-millionths,
//! distances in thousandths) so that no field is approximate platform
//! arithmetic; dates are plain year, month and day numbers.

use vstd::prelude::*;

use crate::codec::{CalendarException, RouteKind, TripDirection};
use crate::color::Color;

verus! {

/// A calendar date as plain year, month and day numbers.
#[derive(Debug, Clone, Copy, PartialEq, Eq, Hash, Structural)]
pub struct Ymd {
    pub year: i32,
    pub month: u8,
    pub day: u8,
}

/// One route of the feed.
#[derive(Debug, Clone, PartialEq, Eq)]
pub struct RouteRecord {
    pub id: String,
    pub short_name: Option<String>,
    pub long_name: Option<String>,
    pub desc: Option<String>,
    pub kind: RouteKind,
    pub text_color: Option<Color>,
    pub color: Option<Color>,
    pub sort_order: Option<u32>,
}

/// One trip of the feed, referencing its route, service and optional shape
/// by identifier text.
#[derive(Debug, Clone, PartialEq, Eq)]
pub struct TripRecord {
    pub id: String,
    pub route_id: String,
    pub service_id: String,
    pub shape_id: Option<String>,
    pub headsign: Option<String>,
    pub direction: Option<TripDirection>,
}

/// One stop of the feed; latitude and longitude are degrees in
/// ten-millionths.
#[derive(Debug, Clone, PartialEq, Eq)]
pub struct StopRecord {
    pub id: String,
    pub name: Option<String>,
    pub latitude_e7: Option<i64>,
    pub longitude_e7: Option<i64>,
    pub parent_station: Option<String>,
    pub platform_code: Option<String>,
}

/// One timetable entry of a trip at a stop; times are seconds since the
/// service day began, the travelled distance is in thousandths.
#[derive(Debug, Clone, PartialEq, Eq)]
pub struct StopTimeRecord {
    pub trip_id: String,
    pub arrival_time: Option<u32>,
    pub departure_time: Option<u32>,
    pub stop_id: String,
    pub stop_sequence: u32,
    pub shape_dist_traveled_e3: Option<i64>,
}

/// One service calendar: the weekdays it runs on between two dates.
#[derive(Debug, Clone, PartialEq, Eq)]
pub struct CalendarRecord {
    pub id: String,
    pub monday: bool,
    pub tuesday: bool,
    pub wednesday: bool,
    pub thursday: bool,
    pub friday: bool,
    pub saturday: bool,
    pub sunday: bool,
    pub start_date: Ymd,
    pub end_date: Ymd,
}

/// One calendar exception: service added or removed on a date.
#[derive(Debug, Clone, PartialEq, Eq)]
pub struct CalendarDateRecord {
    pub service_id: String,
    pub date: Ymd,
    pub exception: CalendarException,
}

/// One point of a trip geometry; coordinates are degrees in ten-millionths,
/// the travelled distance is in thousandths.
#[derive(Debug, Clone, PartialEq, Eq)]
pub struct ShapePointRecord {
    pub id: String,
    pub latitude_e7: i64,
    pub longitude_e7: i64,
    pub sequence: u32,
    pub dist_traveled_e3: Option<i64>,
}

/// The optional feed metadata section: who published the feed.
#[derive(Debug, Clone, PartialEq, Eq)]
pub struct FeedMetadata {
    pub publisher_name: String,
    pub publisher_url: String,
}

/// One whole parsed feed, materialized in memory before any write begins.
/// Optional sections are `None` when absent from the input.
#[derive(Debug, Clone, PartialEq, Eq)]
pub struct Feed {
    pub metadata: Option<FeedMetadata>,
    pub routes: Vec<RouteRecord>,
    pub trips: Vec<TripRecord>,
    pub stops: Vec<StopRecord>,
    pub stop_times: Vec<StopTimeRecord>,
    pub calendars: Option<Vec<CalendarRecord>>,
    pub calendar_dates: Option<Vec<CalendarDateRecord>>,
    pub shapes: Option<Vec<ShapePointRecord>>,
}

} // verus!
