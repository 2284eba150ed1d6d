//! Entity rows as they are persisted: every identifier field replaced by its
//! interned code, every enumeration field by its canonical code or absent.

use vstd::prelude::*;

use crate::records::Ymd;

verus! {

/// One persisted route row.
#[derive(Debug, Clone, PartialEq, Eq)]
pub struct RouteRow {
    pub route_id: u32,
    pub route_short_name: Option<String>,
    pub route_long_name: Option<String>,
    pub route_desc: Option<String>,
    pub route_type: Option<i32>,
    pub route_text_color: Option<String>,
    pub route_color: Option<String>,
    pub route_sort_order: Option<i32>,
}

/// One persisted trip row; route, service and shape are referenced purely by
/// equal integer codes.
#[derive(Debug, Clone, PartialEq, Eq)]
pub struct TripRow {
    pub trip_id: u32,
    pub route_id: u32,
    pub service_id: u32,
    pub shape_id: Option<u32>,
    pub trip_headsign: Option<String>,
    pub direction_id: Option<i32>,
}

/// One persisted stop row; the optional parent station is referenced by code.
#[derive(Debug, Clone, PartialEq, Eq)]
pub struct StopRow {
    pub stop_id: u32,
    pub stop_name: Option<String>,
    pub stop_lat_e7: Option<i64>,
    pub stop_lon_e7: Option<i64>,
    pub parent_station: Option<u32>,
    pub platform_code: Option<String>,
}

/// One persisted timetable row; trip and stop are referenced by code.
#[derive(Debug, Clone, Copy, PartialEq, Eq)]
pub struct StopTimeRow {
    pub trip_id: u32,
    pub arrival_time: Option<i32>,
    pub departure_time: Option<i32>,
    pub stop_id: u32,
    pub stop_sequence: i32,
    pub shape_dist_traveled_e3: Option<i64>,
}

/// One persisted calendar row; the service is referenced by code.
#[derive(Debug, Clone, Copy, PartialEq, Eq)]
pub struct CalendarRow {
    pub service_id: u32,
    pub monday: bool,
    pub tuesday: bool,
    pub wednesday: bool,
    pub thursday: bool,
    pub friday: bool,
    pub saturday: bool,
    pub sunday: bool,
    pub start_date: Ymd,
    pub end_date: Ymd,
}

/// One persisted calendar-exception row; the service is referenced by code.
#[derive(Debug, Clone, Copy, PartialEq, Eq)]
pub struct CalendarDateRow {
    pub service_id: u32,
    pub date: Ymd,
    pub exception_type: Option<i32>,
}

/// One persisted shape-point row; the shape is referenced by code.
#[derive(Debug, Clone, Copy, PartialEq, Eq)]
pub struct ShapePointRow {
    pub shape_id: u32,
    pub shape_pt_lat_e7: i64,
    pub shape_pt_lon_e7: i64,
    pub shape_pt_sequence: i32,
    pub shape_dist_traveled_e3: Option<i64>,
}

} // verus!
