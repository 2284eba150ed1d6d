use gtfs_import::codec::{CalendarException, RouteKind, TripDirection};
use gtfs_import::color::Color;
use gtfs_import::import::build_import;
use gtfs_import::records::{
    CalendarDateRecord, CalendarRecord, Feed, FeedMetadata, RouteRecord, ShapePointRecord,
    StopRecord, StopTimeRecord, TripRecord, Ymd,
};
use gtfs_import::store::{ImportError, Store, IMPORT_WRITE_STEPS};

fn route(id: &str, kind: RouteKind) -> RouteRecord {
    RouteRecord {
        id: id.to_string(),
        short_name: Some(format!("short {}", id)),
        long_name: None,
        desc: None,
        kind,
        text_color: Some(Color { r: 255, g: 255, b: 255 }),
        color: None,
        sort_order: Some(4),
    }
}

fn trip(id: &str, route_id: &str, service_id: &str, shape_id: Option<&str>) -> TripRecord {
    TripRecord {
        id: id.to_string(),
        route_id: route_id.to_string(),
        service_id: service_id.to_string(),
        shape_id: shape_id.map(|s| s.to_string()),
        headsign: Some("Downtown".to_string()),
        direction: Some(TripDirection::Inbound),
    }
}

fn stop(id: &str, parent: Option<&str>) -> StopRecord {
    StopRecord {
        id: id.to_string(),
        name: Some(format!("stop {}", id)),
        latitude_e7: Some(52_5200000),
        longitude_e7: Some(13_4050000),
        parent_station: parent.map(|p| p.to_string()),
        platform_code: None,
    }
}

fn stop_time(trip_id: &str, stop_id: &str, seq: u32) -> StopTimeRecord {
    StopTimeRecord {
        trip_id: trip_id.to_string(),
        arrival_time: Some(28800),
        departure_time: Some(28860),
        stop_id: stop_id.to_string(),
        stop_sequence: seq,
        shape_dist_traveled_e3: None,
    }
}

fn small_feed() -> Feed {
    Feed {
        metadata: None,
        routes: vec![route("R1", RouteKind::Bus)],
        trips: vec![trip("T1", "R1", "C1", None)],
        stops: vec![stop("S1", None)],
        stop_times: vec![stop_time("T1", "S1", 1)],
        calendars: None,
        calendar_dates: None,
        shapes: None,
    }
}

#[test]
fn one_trip_references_its_route_by_the_same_code() {
    let feed = small_feed();
    let batch = build_import(&feed, "My city", "gtfs_run1");
    // exactly one route row, holding the run's code for "R1"
    assert_eq!(batch.route_rows.len(), 1);
    let route_code = batch.route_rows[0].route_id;
    // the trip's route reference holds that identical code
    assert_eq!(batch.trip_rows.len(), 1);
    assert_eq!(batch.trip_rows[0].route_id, route_code);
    // codes are sequential from 0 in first-seen order: R1, T1, C1, S1
    assert_eq!(route_code, 0);
    assert_eq!(batch.trip_rows[0].trip_id, 1);
    assert_eq!(batch.trip_rows[0].service_id, 2);
    assert_eq!(batch.stop_rows[0].stop_id, 3);
    // the timetable references trip and stop by their very codes
    assert_eq!(batch.stop_time_rows[0].trip_id, batch.trip_rows[0].trip_id);
    assert_eq!(batch.stop_time_rows[0].stop_id, batch.stop_rows[0].stop_id);
}

#[test]
fn absent_metadata_gives_title_and_empty_publisher() {
    let feed = small_feed();
    let batch = build_import(&feed, "My city", "gtfs_run1");
    assert_eq!(batch.feed_row.feed_uid, "gtfs_run1");
    assert_eq!(batch.feed_row.feed_title, "My city");
    assert_eq!(batch.feed_row.feed_publisher_name, "");
    assert_eq!(batch.feed_row.feed_publisher_url, "");
}

#[test]
fn present_metadata_fills_the_publisher() {
    let mut feed = small_feed();
    feed.metadata = Some(FeedMetadata {
        publisher_name: "City transit".to_string(),
        publisher_url: "https://transit.example".to_string(),
    });
    let batch = build_import(&feed, "My city", "gtfs_run1");
    assert_eq!(batch.feed_row.feed_title, "My city");
    assert_eq!(batch.feed_row.feed_publisher_name, "City transit");
    assert_eq!(batch.feed_row.feed_publisher_url, "https://transit.example");
}

#[test]
fn unrecognized_route_kind_is_persisted_as_absent_not_fatal() {
    let mut feed = small_feed();
    feed.routes = vec![route("R1", RouteKind::Unrecognized), route("R2", RouteKind::Tramway)];
    let batch = build_import(&feed, "t", "gtfs_run1");
    assert_eq!(batch.route_rows.len(), 2);
    assert_eq!(batch.route_rows[0].route_type, None);
    assert_eq!(batch.route_rows[1].route_type, Some(0));
    // the whole import still applies
    let mut store = Store::new();
    assert_eq!(store.apply_import(batch, None), Ok(()));
}

#[test]
fn shared_interner_unifies_equal_text_across_kinds() {
    // one identifier text used both as a route id and as a stop id: the
    // shared table assigns it one code
    let mut feed = small_feed();
    feed.stops = vec![stop("R1", None)];
    feed.stop_times = vec![stop_time("T1", "R1", 1)];
    let batch = build_import(&feed, "t", "gtfs_run1");
    assert_eq!(batch.route_rows[0].route_id, batch.stop_rows[0].stop_id);
}

#[test]
fn optional_sections_load_when_present() {
    let mut feed = small_feed();
    feed.calendars = Some(vec![CalendarRecord {
        id: "C1".to_string(),
        monday: true,
        tuesday: true,
        wednesday: true,
        thursday: true,
        friday: true,
        saturday: false,
        sunday: false,
        start_date: Ymd { year: 2024, month: 1, day: 1 },
        end_date: Ymd { year: 2024, month: 12, day: 31 },
    }]);
    feed.calendar_dates = Some(vec![CalendarDateRecord {
        service_id: "C1".to_string(),
        date: Ymd { year: 2024, month: 12, day: 25 },
        exception: CalendarException::Deleted,
    }]);
    feed.shapes = Some(vec![ShapePointRecord {
        id: "SH1".to_string(),
        latitude_e7: 52_5200000,
        longitude_e7: 13_4050000,
        sequence: 1,
        dist_traveled_e3: Some(1500),
    }]);
    feed.trips = vec![trip("T1", "R1", "C1", Some("SH1"))];
    let batch = build_import(&feed, "t", "gtfs_run1");
    let cal = batch.calendar_rows.as_ref().unwrap();
    let cd = batch.calendar_date_rows.as_ref().unwrap();
    let sh = batch.shape_rows.as_ref().unwrap();
    // the calendar row and the trip reference the same service code
    assert_eq!(cal[0].service_id, batch.trip_rows[0].service_id);
    assert_eq!(cd[0].service_id, cal[0].service_id);
    assert_eq!(cd[0].exception_type, Some(2));
    assert!(cal[0].monday && !cal[0].sunday);
    assert_eq!(cal[0].start_date, Ymd { year: 2024, month: 1, day: 1 });
    // the shape point and the trip reference the same shape code
    assert_eq!(sh[0].shape_id, batch.trip_rows[0].shape_id.unwrap());
    assert_eq!(sh[0].shape_dist_traveled_e3, Some(1500));
    let mut store = Store::new();
    assert_eq!(store.apply_import(batch, None), Ok(()));
    let ns = store.namespaces.last().unwrap();
    assert_eq!(ns.calendar_rows.len(), 1);
    assert_eq!(ns.calendar_date_rows.len(), 1);
    assert_eq!(ns.shape_rows.len(), 1);
}

#[test]
fn absent_sections_leave_empty_tables() {
    let feed = small_feed();
    let batch = build_import(&feed, "t", "gtfs_run1");
    assert!(batch.calendar_rows.is_none());
    assert!(batch.calendar_date_rows.is_none());
    assert!(batch.shape_rows.is_none());
    let mut store = Store::new();
    assert_eq!(store.apply_import(batch, None), Ok(()));
    let ns = store.namespaces.last().unwrap();
    assert!(ns.calendar_rows.is_empty());
    assert!(ns.calendar_date_rows.is_empty());
    assert!(ns.shape_rows.is_empty());
    assert!(ns.indices_built && ns.views_built);
}

#[test]
fn a_committed_import_is_visible_through_the_registry() {
    let feed = small_feed();
    let batch = build_import(&feed, "My city", "gtfs_run1");
    let mut store = Store::new();
    assert_eq!(store.apply_import(batch, None), Ok(()));
    assert_eq!(store.namespaces.len(), 1);
    assert_eq!(store.feeds.len(), 1);
    assert_eq!(store.feeds[0].feed_uid, "gtfs_run1");
    assert_eq!(store.feeds[0].feed_title, "My city");
    let ns = &store.namespaces[0];
    assert_eq!(ns.name, "gtfs_run1");
    assert_eq!(ns.route_rows.len(), 1);
    assert_eq!(ns.trip_rows.len(), 1);
    assert_eq!(ns.stop_rows.len(), 1);
    assert_eq!(ns.stop_time_rows.len(), 1);
}

#[test]
fn a_failure_at_any_write_step_leaves_zero_trace() {
    let feed = small_feed();
    for k in 0..IMPORT_WRITE_STEPS {
        let batch = build_import(&feed, "My city", "gtfs_run1");
        let mut store = Store::new();
        let r = store.apply_import(batch, Some(k));
        assert_eq!(r, Err(ImportError::StepFailed(k)));
        // zero rows for every entity table of this run, and the namespace
        // itself does not exist
        assert_eq!(store.namespaces.len(), 0);
        assert_eq!(store.feeds.len(), 0);
    }
}

#[test]
fn a_fault_beyond_the_last_step_does_not_fire() {
    let feed = small_feed();
    let batch = build_import(&feed, "t", "gtfs_run1");
    let mut store = Store::new();
    assert_eq!(store.apply_import(batch, Some(IMPORT_WRITE_STEPS)), Ok(()));
}

#[test]
fn a_taken_namespace_fails_the_import_and_changes_nothing() {
    let feed = small_feed();
    let mut store = Store::new();
    let first = build_import(&feed, "t", "gtfs_run1");
    assert_eq!(store.apply_import(first, None), Ok(()));
    let second = build_import(&feed, "t", "gtfs_run1");
    assert_eq!(store.apply_import(second, None), Err(ImportError::NamespaceExists));
    assert_eq!(store.namespaces.len(), 1);
    assert_eq!(store.feeds.len(), 1);
}

#[test]
fn rerunning_an_import_makes_two_independent_snapshots() {
    let feed = small_feed();
    let mut store = Store::new();
    let b1 = build_import(&feed, "My city", "gtfs_run1");
    let b2 = build_import(&feed, "My city", "gtfs_run2");
    assert_eq!(store.apply_import(b1, None), Ok(()));
    assert_eq!(store.apply_import(b2, None), Ok(()));
    assert_eq!(store.namespaces.len(), 2);
    assert_eq!(store.feeds.len(), 2);
    assert_ne!(store.namespaces[0].name, store.namespaces[1].name);
    assert_ne!(store.feeds[0].feed_uid, store.feeds[1].feed_uid);
    // each run starts from an empty table: the codes agree record for
    // record and neither run reads the other's state
    assert_eq!(
        store.namespaces[0].route_rows[0].route_id,
        store.namespaces[1].route_rows[0].route_id
    );
    assert_eq!(
        store.namespaces[0].trip_rows[0].trip_id,
        store.namespaces[1].trip_rows[0].trip_id
    );
}

#[test]
fn row_fields_carry_the_record_values() {
    let mut feed = small_feed();
    feed.routes = vec![RouteRecord {
        id: "R9".to_string(),
        short_name: Some("9".to_string()),
        long_name: Some("Ring line".to_string()),
        desc: Some("circular".to_string()),
        kind: RouteKind::Subway,
        text_color: Some(Color { r: 0, g: 0, b: 0 }),
        color: Some(Color { r: 18, g: 52, b: 86 }),
        sort_order: Some(12),
    }];
    feed.trips = vec![trip("T1", "R9", "C1", None)];
    let batch = build_import(&feed, "t", "gtfs_run1");
    let row = &batch.route_rows[0];
    assert_eq!(row.route_short_name, Some("9".to_string()));
    assert_eq!(row.route_long_name, Some("Ring line".to_string()));
    assert_eq!(row.route_desc, Some("circular".to_string()));
    assert_eq!(row.route_type, Some(1));
    assert_eq!(row.route_text_color, Some("000000".to_string()));
    assert_eq!(row.route_color, Some("123456".to_string()));
    assert_eq!(row.route_sort_order, Some(12));
    let trow = &batch.trip_rows[0];
    assert_eq!(trow.trip_headsign, Some("Downtown".to_string()));
    assert_eq!(trow.direction_id, Some(1));
    assert_eq!(trow.shape_id, None);
    let strow = &batch.stop_time_rows[0];
    assert_eq!(strow.arrival_time, Some(28800));
    assert_eq!(strow.departure_time, Some(28860));
    assert_eq!(strow.stop_sequence, 1);
}

#[test]
fn stop_parent_station_is_interned_too() {
    let mut feed = small_feed();
    feed.stops = vec![stop("S1", Some("HUB")), stop("HUB", None)];
    let batch = build_import(&feed, "t", "gtfs_run1");
    assert_eq!(batch.stop_rows[0].parent_station, Some(batch.stop_rows[1].stop_id));
    assert_eq!(batch.stop_rows[1].parent_station, None);
}
