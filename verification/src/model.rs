//! Rows as the serving layer reads them back: a route, a trip and the feed
//! registry row that lets a dataset be discovered.

use vstd::prelude::*;

verus! {

/// A route as served: its interned code, display name and kind code.
#[derive(Clone, Hash, PartialEq, Eq)]
pub struct Route {
    pub route_id: u32,
    pub route_short_name: String,
    pub route_type: i32,
}

/// A trip as served: its interned code, direction code and the names of its
/// terminal stops.
#[derive(Clone, Hash, PartialEq, Eq)]
pub struct Trip {
    pub trip_id: u32,
    pub direction_id: i32,
    pub first_stop_name: String,
    pub last_stop_name: String,
}

/// One row of the global feed registry: the sole key by which the serving
/// layer discovers a dataset.
#[derive(Debug, Clone, PartialEq, Eq)]
pub struct FeedInfo {
    pub feed_uid: String,
    pub feed_title: String,
    pub feed_publisher_name: String,
    pub feed_publisher_url: String,
}

} // verus!
