//! Building one import: the whole parsed feed is normalized into a single
//! batch of rows, against one fresh symbol table per run.
//!
//! The symbol table of a run is a function of the input alone
//! (`import_table`): identifiers interned in load order starting from an
//! empty table. Every identifier field of every produced row is pinned to a
//! code of that table, which is what makes cross-entity references sound:
//! equal identifier text gives equal integer codes, and nothing else does.

use vstd::prelude::*;
use vstd::string::StringExecFns;

use crate::interner::{distinct_texts, intern_seq, lemma_extends_trans, lemma_intern_seq_concat,
    Interner};
use crate::loader::{calendar_date_ids, calendar_date_row_matches, calendar_ids,
    calendar_row_matches, lemma_calendar_date_row_stable, lemma_calendar_row_stable,
    lemma_route_row_stable, lemma_shape_row_stable, lemma_stop_row_stable,
    lemma_stop_time_row_stable, lemma_trip_row_stable, load_calendar, load_calendar_dates,
    load_routes, load_shapes, load_stop_times, load_stops, load_trips, route_ids,
    route_row_matches, shape_ids, shape_row_matches, stop_ids, stop_row_matches, stop_time_ids,
    stop_time_row_matches, trip_ids, trip_row_matches};
use crate::model::FeedInfo;
use crate::records::{CalendarDateRecord, CalendarRecord, Feed, FeedMetadata, ShapePointRecord};
use crate::rows::{CalendarDateRow, CalendarRow, RouteRow, ShapePointRow, StopRow, StopTimeRow,
    TripRow};

verus! {

/// The identifier stream of an optional calendar section: empty when absent.
pub open spec fn opt_calendar_ids(c: Option<Vec<CalendarRecord>>) -> Seq<Seq<char>> {
    match c {
        Some(v) => calendar_ids(v@),
        None => Seq::empty(),
    }
}

/// The identifier stream of an optional calendar-exception section.
pub open spec fn opt_calendar_date_ids(c: Option<Vec<CalendarDateRecord>>) -> Seq<Seq<char>> {
    match c {
        Some(v) => calendar_date_ids(v@),
        None => Seq::empty(),
    }
}

/// The identifier stream of an optional shape section.
pub open spec fn opt_shape_ids(s: Option<Vec<ShapePointRecord>>) -> Seq<Seq<char>> {
    match s {
        Some(v) => shape_ids(v@),
        None => Seq::empty(),
    }
}

/// Every identifier of the feed, in the order the loaders intern them:
/// routes, trips, stops, timetable, calendars, calendar exceptions, shapes.
pub open spec fn feed_ids(feed: Feed) -> Seq<Seq<char>> {
    route_ids(feed.routes@) + trip_ids(feed.trips@) + stop_ids(feed.stops@) + stop_time_ids(
        feed.stop_times@,
    ) + opt_calendar_ids(feed.calendars) + opt_calendar_date_ids(feed.calendar_dates)
        + opt_shape_ids(feed.shapes)
}

/// The symbol table of one import run of this feed: its identifiers interned
/// in load order into a table that starts empty. A new run of the same input
/// starts from an empty table again; no code is shared between runs.
pub open spec fn import_table(feed: Feed) -> Seq<Seq<char>> {
    intern_seq(Seq::empty(), feed_ids(feed))
}

/// Everything one import writes, gathered before any write happens: the
/// namespace identifier, the feed registry row, and every entity table's
/// rows. An absent optional section stays absent, so its table is left empty.
pub struct ImportBatch {
    pub namespace: String,
    pub feed_row: FeedInfo,
    pub route_rows: Vec<RouteRow>,
    pub trip_rows: Vec<TripRow>,
    pub stop_rows: Vec<StopRow>,
    pub stop_time_rows: Vec<StopTimeRow>,
    pub calendar_rows: Option<Vec<CalendarRow>>,
    pub calendar_date_rows: Option<Vec<CalendarDateRow>>,
    pub shape_rows: Option<Vec<ShapePointRow>>,
}

/// The feed registry row carries the supplied title and the publisher of the
/// metadata section, or empty publisher fields when that section is absent.
pub open spec fn feed_row_matches(
    metadata: Option<FeedMetadata>,
    title: Seq<char>,
    uid: Seq<char>,
    row: FeedInfo,
) -> bool {
    &&& row.feed_uid@ == uid
    &&& row.feed_title@ == title
    &&& match metadata {
        Some(m) => row.feed_publisher_name@ == m.publisher_name@ && row.feed_publisher_url@
            == m.publisher_url@,
        None => row.feed_publisher_name@ == Seq::<char>::empty() && row.feed_publisher_url@
            == Seq::<char>::empty(),
    }
}

/// The batch persists the feed: every record of every kind became exactly one
/// row, in order, with every identifier field holding the run's code of its
/// text, every enumeration field its canonical code or absent, and the
/// registry row carrying title and publisher.
pub open spec fn batch_matches(
    feed: Feed,
    title: Seq<char>,
    uid: Seq<char>,
    batch: ImportBatch,
) -> bool {
    let tbl = import_table(feed);
    &&& batch.namespace@ == uid
    &&& feed_row_matches(feed.metadata, title, uid, batch.feed_row)
    &&& batch.route_rows@.len() == feed.routes@.len()
    &&& forall|i: int|
        0 <= i < feed.routes@.len() ==> route_row_matches(
            tbl,
            feed.routes@[i],
            #[trigger] batch.route_rows@[i],
        )
    &&& batch.trip_rows@.len() == feed.trips@.len()
    &&& forall|i: int|
        0 <= i < feed.trips@.len() ==> trip_row_matches(
            tbl,
            feed.trips@[i],
            #[trigger] batch.trip_rows@[i],
        )
    &&& batch.stop_rows@.len() == feed.stops@.len()
    &&& forall|i: int|
        0 <= i < feed.stops@.len() ==> stop_row_matches(
            tbl,
            feed.stops@[i],
            #[trigger] batch.stop_rows@[i],
        )
    &&& batch.stop_time_rows@.len() == feed.stop_times@.len()
    &&& forall|i: int|
        0 <= i < feed.stop_times@.len() ==> stop_time_row_matches(
            tbl,
            feed.stop_times@[i],
            #[trigger] batch.stop_time_rows@[i],
        )
    &&& (batch.calendar_rows is Some <==> feed.calendars is Some)
    &&& (feed.calendars matches Some(c) ==> batch.calendar_rows.unwrap()@.len() == c@.len()
        && forall|i: int|
        0 <= i < c@.len() ==> calendar_row_matches(
            tbl,
            c@[i],
            #[trigger] batch.calendar_rows.unwrap()@[i],
        ))
    &&& (batch.calendar_date_rows is Some <==> feed.calendar_dates is Some)
    &&& (feed.calendar_dates matches Some(c) ==> batch.calendar_date_rows.unwrap()@.len()
        == c@.len() && forall|i: int|
        0 <= i < c@.len() ==> calendar_date_row_matches(
            tbl,
            c@[i],
            #[trigger] batch.calendar_date_rows.unwrap()@[i],
        ))
    &&& (batch.shape_rows is Some <==> feed.shapes is Some)
    &&& (feed.shapes matches Some(s) ==> batch.shape_rows.unwrap()@.len() == s@.len()
        && forall|i: int|
        0 <= i < s@.len() ==> shape_row_matches(tbl, s@[i], #[trigger] batch.shape_rows.unwrap()@[i]))
}

/// Builds the feed registry row: the supplied title always, the publisher of
/// the metadata section when it is present, empty publisher fields when it
/// is absent.
pub fn feed_registry_row(metadata: &Option<FeedMetadata>, title: &str, uid: &str) -> (row:
    FeedInfo)
    ensures
        feed_row_matches(*metadata, title@, uid@, row),
{
    match metadata {
        Some(m) => FeedInfo {
            feed_uid: uid.to_owned(),
            feed_title: title.to_owned(),
            feed_publisher_name: m.publisher_name.clone(),
            feed_publisher_url: m.publisher_url.clone(),
        },
        None => FeedInfo {
            feed_uid: uid.to_owned(),
            feed_title: title.to_owned(),
            feed_publisher_name: String::new(),
            feed_publisher_url: String::new(),
        },
    }
}

/// Normalizes one whole parsed feed into the batch that a store applies as a
/// single unit of work. A fresh interner is created for this run alone, so
/// two runs share no codes; the loaders run in the fixed load order and every
/// row of the batch is pinned to the run's symbol table.
pub fn build_import(feed: &Feed, title: &str, uid: &str) -> (batch: ImportBatch)
    requires
        feed.routes@.len() + 4 * feed.trips@.len() + 2 * feed.stops@.len() + 2
            * feed.stop_times@.len() + (match feed.calendars {
            Some(c) => c@.len() as int,
            None => 0int,
        }) + (match feed.calendar_dates {
            Some(c) => c@.len() as int,
            None => 0int,
        }) + (match feed.shapes {
            Some(s) => s@.len() as int,
            None => 0int,
        }) <= 0xFFFF_FFFF,
    ensures
        distinct_texts(import_table(*feed)),
        batch_matches(*feed, title@, uid@, batch),
{
    let mut interner = Interner::new();
    let ghost t0 = interner@;

    let route_rows = load_routes(&mut interner, &feed.routes);
    let ghost t_r = interner@;
    proof {
        lemma_intern_seq_concat(t0, route_ids(feed.routes@), trip_ids(feed.trips@));
    }
    let trip_rows = load_trips(&mut interner, &feed.trips);
    let ghost t_t = interner@;
    proof {
        assert(t_t == intern_seq(t0, route_ids(feed.routes@) + trip_ids(feed.trips@)));
        lemma_intern_seq_concat(
            t0,
            route_ids(feed.routes@) + trip_ids(feed.trips@),
            stop_ids(feed.stops@),
        );
    }
    let stop_rows = load_stops(&mut interner, &feed.stops);
    let ghost t_s = interner@;
    let ghost ids3 = route_ids(feed.routes@) + trip_ids(feed.trips@) + stop_ids(feed.stops@);
    proof {
        assert(t_s == intern_seq(t0, ids3));
        lemma_intern_seq_concat(t0, ids3, stop_time_ids(feed.stop_times@));
    }
    let stop_time_rows = load_stop_times(&mut interner, &feed.stop_times);
    let ghost t_st = interner@;
    let ghost ids4 = ids3 + stop_time_ids(feed.stop_times@);
    proof {
        assert(t_st == intern_seq(t0, ids4));
        lemma_intern_seq_concat(t0, ids4, opt_calendar_ids(feed.calendars));
    }
    let calendar_rows: Option<Vec<CalendarRow>> = match &feed.calendars {
        Some(c) => Some(load_calendar(&mut interner, c)),
        None => None,
    };
    let ghost t_c = interner@;
    let ghost ids5 = ids4 + opt_calendar_ids(feed.calendars);
    proof {
        if feed.calendars is None {
            assert(ids5 =~= ids4);
        }
        assert(t_c == intern_seq(t0, ids5));
        lemma_intern_seq_concat(t0, ids5, opt_calendar_date_ids(feed.calendar_dates));
    }
    let calendar_date_rows: Option<Vec<CalendarDateRow>> = match &feed.calendar_dates {
        Some(c) => Some(load_calendar_dates(&mut interner, c)),
        None => None,
    };
    let ghost t_cd = interner@;
    let ghost ids6 = ids5 + opt_calendar_date_ids(feed.calendar_dates);
    proof {
        if feed.calendar_dates is None {
            assert(ids6 =~= ids5);
        }
        assert(t_cd == intern_seq(t0, ids6));
        lemma_intern_seq_concat(t0, ids6, opt_shape_ids(feed.shapes));
    }
    let shape_rows: Option<Vec<ShapePointRow>> = match &feed.shapes {
        Some(s) => Some(load_shapes(&mut interner, s)),
        None => None,
    };
    let ghost t_sh = interner@;
    let ghost ids7 = ids6 + opt_shape_ids(feed.shapes);
    proof {
        if feed.shapes is None {
            assert(ids7 =~= ids6);
        }
        assert(t_sh == intern_seq(t0, ids7));
        assert(ids7 == feed_ids(*feed));
        assert(t0 =~= Seq::<Seq<char>>::empty());
        assert(t_sh == import_table(*feed));
        // the final table extends every intermediate table, so every row
        // stays pinned to its code
        lemma_extends_trans(t_st, t_s, t_r);
        lemma_extends_trans(t_c, t_st, t_r);
        lemma_extends_trans(t_cd, t_c, t_st);
        lemma_extends_trans(t_sh, t_cd, t_c);
        lemma_extends_trans(t_sh, t_c, t_st);
        lemma_extends_trans(t_sh, t_st, t_s);
        lemma_extends_trans(t_sh, t_s, t_r);
        lemma_extends_trans(t_t, t_r, t0);
        assert forall|i: int|
            0 <= i < feed.routes@.len() implies route_row_matches(
            t_sh,
            feed.routes@[i],
            #[trigger] route_rows@[i],
        ) by {
            lemma_route_row_stable(t_r, t_sh, feed.routes@[i], route_rows@[i]);
        }
        assert forall|i: int|
            0 <= i < feed.trips@.len() implies trip_row_matches(
            t_sh,
            feed.trips@[i],
            #[trigger] trip_rows@[i],
        ) by {
            lemma_trip_row_stable(t_t, t_sh, feed.trips@[i], trip_rows@[i]);
        }
        assert forall|i: int|
            0 <= i < feed.stops@.len() implies stop_row_matches(
            t_sh,
            feed.stops@[i],
            #[trigger] stop_rows@[i],
        ) by {
            lemma_stop_row_stable(t_s, t_sh, feed.stops@[i], stop_rows@[i]);
        }
        assert forall|i: int|
            0 <= i < feed.stop_times@.len() implies stop_time_row_matches(
            t_sh,
            feed.stop_times@[i],
            #[trigger] stop_time_rows@[i],
        ) by {
            lemma_stop_time_row_stable(t_st, t_sh, feed.stop_times@[i], stop_time_rows@[i]);
        }
        if let Some(c) = &feed.calendars {
            assert forall|i: int|
                0 <= i < c@.len() implies calendar_row_matches(
                t_sh,
                c@[i],
                #[trigger] calendar_rows.unwrap()@[i],
            ) by {
                lemma_calendar_row_stable(t_c, t_sh, c@[i], calendar_rows.unwrap()@[i]);
            }
        }
        if let Some(c) = &feed.calendar_dates {
            assert forall|i: int|
                0 <= i < c@.len() implies calendar_date_row_matches(
                t_sh,
                c@[i],
                #[trigger] calendar_date_rows.unwrap()@[i],
            ) by {
                lemma_calendar_date_row_stable(t_cd, t_sh, c@[i], calendar_date_rows.unwrap()@[i]);
            }
        }
        if let Some(s) = &feed.shapes {
            assert forall|i: int|
                0 <= i < s@.len() implies shape_row_matches(
                t_sh,
                s@[i],
                #[trigger] shape_rows.unwrap()@[i],
            ) by {
                lemma_shape_row_stable(t_sh, t_sh, s@[i], shape_rows.unwrap()@[i]);
            }
        }
    }
    let feed_row = feed_registry_row(&feed.metadata, title, uid);
    ImportBatch {
        namespace: uid.to_owned(),
        feed_row,
        route_rows,
        trip_rows,
        stop_rows,
        stop_time_rows,
        calendar_rows,
        calendar_date_rows,
        shape_rows,
    }
}

/// Cross-entity referential consistency: when a trip references a route by
/// identifier text, the persisted trip row's route reference holds the very
/// code stored on the persisted route row — references are expressed purely
/// as equal integer codes.
pub proof fn lemma_trip_references_route(
    feed: Feed,
    title: Seq<char>,
    uid: Seq<char>,
    batch: ImportBatch,
    i: int,
    j: int,
)
    requires
        batch_matches(feed, title, uid, batch),
        0 <= i < feed.routes@.len(),
        0 <= j < feed.trips@.len(),
        feed.trips@[j].route_id@ == feed.routes@[i].id@,
    ensures
        batch.trip_rows@[j].route_id == batch.route_rows@[i].route_id,
{
    assert(route_row_matches(import_table(feed), feed.routes@[i], batch.route_rows@[i]));
    assert(trip_row_matches(import_table(feed), feed.trips@[j], batch.trip_rows@[j]));
}

/// Cross-entity referential consistency between a trip and its service: a
/// calendar row for the same service text carries the trip row's service code.
pub proof fn lemma_trip_references_service(
    feed: Feed,
    title: Seq<char>,
    uid: Seq<char>,
    batch: ImportBatch,
    i: int,
    j: int,
)
    requires
        batch_matches(feed, title, uid, batch),
        feed.calendars matches Some(c) && 0 <= i < c@.len(),
        0 <= j < feed.trips@.len(),
        feed.calendars matches Some(c) && feed.trips@[j].service_id@ == c@[i].id@,
    ensures
        batch.trip_rows@[j].service_id == batch.calendar_rows.unwrap()@[i].service_id,
{
    let c = feed.calendars.unwrap();
    assert(calendar_row_matches(import_table(feed), c@[i], batch.calendar_rows.unwrap()@[i]));
    assert(trip_row_matches(import_table(feed), feed.trips@[j], batch.trip_rows@[j]));
}


/// Re-running the import on the same input produces an independent snapshot:
/// the runs are keyed by their own distinct identifiers, while every code in
/// either run is a function of the input alone — both runs assign the same
/// codes to the same records, and neither reads the other's table.
pub proof fn lemma_reimport_independent(
    feed: Feed,
    title: Seq<char>,
    uid1: Seq<char>,
    uid2: Seq<char>,
    b1: ImportBatch,
    b2: ImportBatch,
)
    requires
        batch_matches(feed, title, uid1, b1),
        batch_matches(feed, title, uid2, b2),
        uid1 != uid2,
    ensures
        b1.namespace@ != b2.namespace@,
        b1.feed_row.feed_uid@ != b2.feed_row.feed_uid@,
        forall|i: int|
            0 <= i < feed.routes@.len() ==> #[trigger] b1.route_rows@[i].route_id
                == b2.route_rows@[i].route_id,
        forall|j: int|
            0 <= j < feed.trips@.len() ==> #[trigger] b1.trip_rows@[j].trip_id
                == b2.trip_rows@[j].trip_id && b1.trip_rows@[j].route_id == b2.trip_rows@[j].route_id
                && b1.trip_rows@[j].service_id == b2.trip_rows@[j].service_id,
{
    assert forall|i: int|
        0 <= i < feed.routes@.len() implies #[trigger] b1.route_rows@[i].route_id
        == b2.route_rows@[i].route_id by {
        assert(route_row_matches(import_table(feed), feed.routes@[i], b1.route_rows@[i]));
        assert(route_row_matches(import_table(feed), feed.routes@[i], b2.route_rows@[i]));
    }
    assert forall|j: int|
        0 <= j < feed.trips@.len() implies #[trigger] b1.trip_rows@[j].trip_id
        == b2.trip_rows@[j].trip_id && b1.trip_rows@[j].route_id == b2.trip_rows@[j].route_id
        && b1.trip_rows@[j].service_id == b2.trip_rows@[j].service_id by {
        assert(trip_row_matches(import_table(feed), feed.trips@[j], b1.trip_rows@[j]));
        assert(trip_row_matches(import_table(feed), feed.trips@[j], b2.trip_rows@[j]));
    }
}

} // verus!
