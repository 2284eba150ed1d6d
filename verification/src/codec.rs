//! The enumeration codec: a fixed lookup from feed-defined enumerations
//! (route kind, trip direction, calendar-exception type) to their canonical
//! small integer codes. Unrecognized values encode to "absent" (stored as
//! null) rather than aborting an import.

use vstd::prelude::*;

verus! {

/// The kind of vehicle serving a route. The eight standard kinds carry the
/// codes 0 through 7; an extended kind carries its own defined code; any
/// undefined value is `Unrecognized`.
#[derive(Debug, Clone, Copy, PartialEq, Eq, Hash)]
pub enum RouteKind {
    Tramway,
    Subway,
    Rail,
    Bus,
    Ferry,
    CableCar,
    Gondola,
    Funicular,
    /// A defined extended route-kind code.
    Extended(i16),
    /// An undefined route-kind value: encodes to absent.
    Unrecognized,
}

/// The direction of travel of a trip, used to separate timetables.
#[derive(Debug, Clone, Copy, PartialEq, Eq, Hash)]
pub enum TripDirection {
    Outbound,
    Inbound,
    /// An undefined direction value: encodes to absent.
    Unrecognized,
}

/// Whether a calendar exception adds or removes service on a date.
#[derive(Debug, Clone, Copy, PartialEq, Eq, Hash)]
pub enum CalendarException {
    Added,
    Deleted,
    /// An undefined exception value: encodes to absent.
    Unrecognized,
}

/// The canonical code of a route kind; `None` for an unrecognized value.
pub open spec fn spec_encode_route_kind(k: RouteKind) -> Option<i32> {
    match k {
        RouteKind::Tramway => Some(0),
        RouteKind::Subway => Some(1),
        RouteKind::Rail => Some(2),
        RouteKind::Bus => Some(3),
        RouteKind::Ferry => Some(4),
        RouteKind::CableCar => Some(5),
        RouteKind::Gondola => Some(6),
        RouteKind::Funicular => Some(7),
        RouteKind::Extended(c) => Some(c as i32),
        RouteKind::Unrecognized => None,
    }
}

/// The canonical code of a trip direction; `None` for an unrecognized value.
pub open spec fn spec_encode_direction(d: Option<TripDirection>) -> Option<i32> {
    match d {
        Some(TripDirection::Outbound) => Some(0),
        Some(TripDirection::Inbound) => Some(1),
        Some(TripDirection::Unrecognized) => None,
        None => None,
    }
}

/// The canonical code of a calendar exception; `None` for an unrecognized value.
pub open spec fn spec_encode_exception(e: CalendarException) -> Option<i32> {
    match e {
        CalendarException::Added => Some(1),
        CalendarException::Deleted => Some(2),
        CalendarException::Unrecognized => None,
    }
}

/// Encodes a route kind to its canonical code; an unrecognized value encodes
/// to absent instead of failing.
pub fn encode_route_kind(k: &RouteKind) -> (r: Option<i32>)
    ensures
        r == spec_encode_route_kind(*k),
{
    match k {
        RouteKind::Tramway => Some(0),
        RouteKind::Subway => Some(1),
        RouteKind::Rail => Some(2),
        RouteKind::Bus => Some(3),
        RouteKind::Ferry => Some(4),
        RouteKind::CableCar => Some(5),
        RouteKind::Gondola => Some(6),
        RouteKind::Funicular => Some(7),
        RouteKind::Extended(c) => Some(*c as i32),
        RouteKind::Unrecognized => None,
    }
}

/// Encodes an optional trip direction; absence and unrecognized values both
/// encode to absent instead of failing.
pub fn encode_direction(d: &Option<TripDirection>) -> (r: Option<i32>)
    ensures
        r == spec_encode_direction(*d),
{
    match d {
        Some(TripDirection::Outbound) => Some(0),
        Some(TripDirection::Inbound) => Some(1),
        Some(TripDirection::Unrecognized) => None,
        None => None,
    }
}

/// Encodes a calendar exception; an unrecognized value encodes to absent
/// instead of failing.
pub fn encode_exception(e: &CalendarException) -> (r: Option<i32>)
    ensures
        r == spec_encode_exception(*e),
{
    match e {
        CalendarException::Added => Some(1),
        CalendarException::Deleted => Some(2),
        CalendarException::Unrecognized => None,
    }
}

} // verus!
