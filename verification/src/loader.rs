//! The bulk loaders: one procedure per entity kind. Each streams the parsed
//! records of its kind through the shared interner (and enumeration fields
//! through the codec) and produces the rows to persist, in record order.
//!
//! Every loader's contract pins the produced rows to the symbol table it
//! leaves behind: the table is exactly the old table with the kind's
//! identifier stream interned in order, and every identifier field of row
//! `i` holds the code of the matching text of record `i`.

use vstd::prelude::*;

use crate::codec::{encode_direction, encode_exception, encode_route_kind, spec_encode_direction,
    spec_encode_exception, spec_encode_route_kind};
use crate::color::{color_hex, optional_color_to_string};
use crate::interner::{code_of, contains_text, distinct_texts, extends, intern_one, intern_seq,
    lemma_code_stable, lemma_extends_trans, lemma_intern_seq_concat, lemma_intern_seq_four,
    lemma_intern_seq_push, Interner};
use crate::records::{CalendarDateRecord, CalendarRecord, RouteRecord, ShapePointRecord,
    StopRecord, StopTimeRecord, TripRecord};
use crate::rows::{CalendarDateRow, CalendarRow, RouteRow, ShapePointRow, StopRow, StopTimeRow,
    TripRow};

verus! {

/// Clones optional text unchanged.
fn clone_opt_string(s: &Option<String>) -> (r: Option<String>)
    ensures
        r == *s,
{
    match s {
        None => None,
        Some(x) => Some(x.clone()),
    }
}

/// An optional count persisted as a signed column, as the store's integer
/// type has it.
pub open spec fn spec_opt_u32_to_i32(o: Option<u32>) -> Option<i32> {
    match o {
        Some(x) => Some(x as i32),
        None => None,
    }
}

fn opt_u32_to_i32(o: &Option<u32>) -> (r: Option<i32>)
    ensures
        r == spec_opt_u32_to_i32(*o),
{
    match o {
        Some(x) => Some(#[verifier::truncate] (*x as i32)),
        None => None,
    }
}

/// The identifier stream of a route stream: one identifier per record.
pub open spec fn route_ids(recs: Seq<RouteRecord>) -> Seq<Seq<char>>
    decreases recs.len(),
{
    if recs.len() == 0 {
        Seq::empty()
    } else {
        route_ids(recs.drop_last()).push(recs.last().id@)
    }
}

/// Row `row` persists record `rec` against symbol table `tbl`.
pub open spec fn route_row_matches(tbl: Seq<Seq<char>>, rec: RouteRecord, row: RouteRow) -> bool {
    &&& contains_text(tbl, rec.id@)
    &&& row.route_id == code_of(tbl, rec.id@)
    &&& row.route_short_name == rec.short_name
    &&& row.route_long_name == rec.long_name
    &&& row.route_desc == rec.desc
    &&& row.route_type == spec_encode_route_kind(rec.kind)
    &&& (row.route_text_color is Some <==> rec.text_color is Some)
    &&& (rec.text_color is Some ==> row.route_text_color.unwrap()@ == color_hex(
        rec.text_color.unwrap(),
    ))
    &&& (row.route_color is Some <==> rec.color is Some)
    &&& (rec.color is Some ==> row.route_color.unwrap()@ == color_hex(rec.color.unwrap()))
    &&& row.route_sort_order == spec_opt_u32_to_i32(rec.sort_order)
}

/// A route row stays valid as the shared table grows: codes never change.
pub proof fn lemma_route_row_stable(
    t1: Seq<Seq<char>>,
    t2: Seq<Seq<char>>,
    rec: RouteRecord,
    row: RouteRow,
)
    requires
        distinct_texts(t2),
        extends(t2, t1),
        route_row_matches(t1, rec, row),
    ensures
        route_row_matches(t2, rec, row),
{
    lemma_code_stable(t1, t2, rec.id@);
}

/// Loads the routes: every record becomes one row, in order, with its
/// identifier interned through the shared table.
pub fn load_routes(interner: &mut Interner, records: &Vec<RouteRecord>) -> (rows: Vec<RouteRow>)
    requires
        old(interner).wf(),
        old(interner)@.len() + records@.len() <= 0xFFFF_FFFF,
    ensures
        final(interner).wf(),
        extends(final(interner)@, old(interner)@),
        final(interner)@ == intern_seq(old(interner)@, route_ids(records@)),
        final(interner)@.len() <= old(interner)@.len() + records@.len(),
        rows@.len() == records@.len(),
        forall|i: int|
            0 <= i < records@.len() ==> route_row_matches(
                final(interner)@,
                records@[i],
                #[trigger] rows@[i],
            ),
{
    let ghost tbl0 = interner@;
    let mut rows: Vec<RouteRow> = Vec::new();
    let n = records.len();
    proof {
        assert(records@.take(0) =~= Seq::<RouteRecord>::empty());
    }
    let mut idx: usize = 0;
    while idx < n
        invariant
            interner.wf(),
            distinct_texts(tbl0),
            n == records@.len(),
            idx <= n,
            tbl0.len() + n <= 0xFFFF_FFFF,
            extends(interner@, tbl0),
            interner@ == intern_seq(tbl0, route_ids(records@.take(idx as int))),
            interner@.len() <= tbl0.len() + idx,
            rows@.len() == idx,
            forall|j: int|
                0 <= j < idx ==> route_row_matches(interner@, records@[j], #[trigger] rows@[j]),
        decreases n - idx,
    {
        let rec = &records[idx];
        let ghost t_pre = interner@;
        let code = interner.intern(rec.id.as_str());
        let row = RouteRow {
            route_id: code,
            route_short_name: clone_opt_string(&rec.short_name),
            route_long_name: clone_opt_string(&rec.long_name),
            route_desc: clone_opt_string(&rec.desc),
            route_type: encode_route_kind(&rec.kind),
            route_text_color: optional_color_to_string(&rec.text_color),
            route_color: optional_color_to_string(&rec.color),
            route_sort_order: opt_u32_to_i32(&rec.sort_order),
        };
        rows.push(row);
        proof {
            let pre = records@.take(idx as int);
            let cur = records@.take(idx as int + 1);
            assert(cur.drop_last() =~= pre);
            assert(cur.last() == records@[idx as int]);
            assert(route_ids(cur) == route_ids(pre).push(records@[idx as int].id@));
            lemma_intern_seq_push(tbl0, route_ids(pre), records@[idx as int].id@);
            assert(route_row_matches(interner@, records@[idx as int], rows@[idx as int]));
            assert forall|j: int|
                0 <= j < idx + 1 implies route_row_matches(
                interner@,
                records@[j],
                #[trigger] rows@[j],
            ) by {
                if j < idx {
                    lemma_route_row_stable(t_pre, interner@, records@[j], rows@[j]);
                }
            }
            lemma_extends_trans(interner@, t_pre, tbl0);
        }
        idx += 1;
    }
    proof {
        assert(records@.take(n as int) =~= records@);
    }
    rows
}

/// The identifiers one trip record sends through the interner, in order:
/// trip, route, service, then the optional shape.
pub open spec fn trip_ids_one(r: TripRecord) -> Seq<Seq<char>> {
    match r.shape_id {
        Some(s) => seq![r.id@, r.route_id@, r.service_id@, s@],
        None => seq![r.id@, r.route_id@, r.service_id@],
    }
}

/// The identifier stream of a trip stream.
pub open spec fn trip_ids(recs: Seq<TripRecord>) -> Seq<Seq<char>>
    decreases recs.len(),
{
    if recs.len() == 0 {
        Seq::empty()
    } else {
        trip_ids(recs.drop_last()) + trip_ids_one(recs.last())
    }
}

/// Row `row` persists record `rec` against symbol table `tbl`: every
/// cross-entity reference is an interned code of the referenced text.
pub open spec fn trip_row_matches(tbl: Seq<Seq<char>>, rec: TripRecord, row: TripRow) -> bool {
    &&& contains_text(tbl, rec.id@)
    &&& row.trip_id == code_of(tbl, rec.id@)
    &&& contains_text(tbl, rec.route_id@)
    &&& row.route_id == code_of(tbl, rec.route_id@)
    &&& contains_text(tbl, rec.service_id@)
    &&& row.service_id == code_of(tbl, rec.service_id@)
    &&& (row.shape_id is Some <==> rec.shape_id is Some)
    &&& (rec.shape_id matches Some(s) ==> contains_text(tbl, s@) && row.shape_id.unwrap()
        == code_of(tbl, s@))
    &&& row.trip_headsign == rec.headsign
    &&& row.direction_id == spec_encode_direction(rec.direction)
}

/// A trip row stays valid as the shared table grows: codes never change.
pub proof fn lemma_trip_row_stable(
    t1: Seq<Seq<char>>,
    t2: Seq<Seq<char>>,
    rec: TripRecord,
    row: TripRow,
)
    requires
        distinct_texts(t2),
        extends(t2, t1),
        trip_row_matches(t1, rec, row),
    ensures
        trip_row_matches(t2, rec, row),
{
    lemma_code_stable(t1, t2, rec.id@);
    lemma_code_stable(t1, t2, rec.route_id@);
    lemma_code_stable(t1, t2, rec.service_id@);
    if let Some(s) = rec.shape_id {
        lemma_code_stable(t1, t2, s@);
    }
}

/// Loads the trips: every record becomes one row, in order; trip, route,
/// service and optional shape identifiers are interned through the shared
/// table, so every reference is expressed purely as an equal integer code.
pub fn load_trips(interner: &mut Interner, records: &Vec<TripRecord>) -> (rows: Vec<TripRow>)
    requires
        old(interner).wf(),
        old(interner)@.len() + 4 * records@.len() <= 0xFFFF_FFFF,
    ensures
        final(interner).wf(),
        extends(final(interner)@, old(interner)@),
        final(interner)@ == intern_seq(old(interner)@, trip_ids(records@)),
        final(interner)@.len() <= old(interner)@.len() + 4 * records@.len(),
        rows@.len() == records@.len(),
        forall|i: int|
            0 <= i < records@.len() ==> trip_row_matches(
                final(interner)@,
                records@[i],
                #[trigger] rows@[i],
            ),
{
    let ghost tbl0 = interner@;
    let mut rows: Vec<TripRow> = Vec::new();
    let n = records.len();
    proof {
        assert(records@.take(0) =~= Seq::<TripRecord>::empty());
    }
    let mut idx: usize = 0;
    while idx < n
        invariant
            interner.wf(),
            distinct_texts(tbl0),
            n == records@.len(),
            idx <= n,
            tbl0.len() + 4 * n <= 0xFFFF_FFFF,
            extends(interner@, tbl0),
            interner@ == intern_seq(tbl0, trip_ids(records@.take(idx as int))),
            interner@.len() <= tbl0.len() + 4 * idx,
            rows@.len() == idx,
            forall|j: int|
                0 <= j < idx ==> trip_row_matches(interner@, records@[j], #[trigger] rows@[j]),
        decreases n - idx,
    {
        let rec = &records[idx];
        let ghost t_pre = interner@;
        let trip_code = interner.intern(rec.id.as_str());
        let ghost t1 = interner@;
        let route_code = interner.intern(rec.route_id.as_str());
        let ghost t2 = interner@;
        let service_code = interner.intern(rec.service_id.as_str());
        let ghost t3 = interner@;
        let shape_code: Option<u32> = match &rec.shape_id {
            None => None,
            Some(sid) => Some(interner.intern(sid.as_str())),
        };
        let ghost t4 = interner@;
        proof {
            lemma_extends_trans(t3, t2, t1);
            lemma_extends_trans(t4, t3, t1);
            lemma_extends_trans(t4, t3, t2);
            lemma_code_stable(t1, t4, rec.id@);
            lemma_code_stable(t2, t4, rec.route_id@);
            lemma_code_stable(t3, t4, rec.service_id@);
        }
        let row = TripRow {
            trip_id: trip_code,
            route_id: route_code,
            service_id: service_code,
            shape_id: shape_code,
            trip_headsign: clone_opt_string(&rec.headsign),
            direction_id: encode_direction(&rec.direction),
        };
        rows.push(row);
        proof {
            let r = records@[idx as int];
            let ids = trip_ids_one(r);
            // the table after this record is the table before it with the
            // record's identifier stream interned in order
            match r.shape_id {
                Some(s) => {
                    lemma_intern_seq_four(t_pre, r.id@, r.route_id@, r.service_id@, s@);
                    assert(t1 == intern_one(t_pre, r.id@));
                    assert(t2 == intern_one(t1, r.route_id@));
                    assert(t3 == intern_one(t2, r.service_id@));
                    assert(t4 == intern_one(t3, s@));
                    assert(ids == seq![r.id@, r.route_id@, r.service_id@, s@]);
                    assert(t4 == intern_seq(t_pre, ids));
                },
                None => {
                    lemma_intern_seq_four(t_pre, r.id@, r.route_id@, r.service_id@, r.service_id@);
                    assert(t4 == t3);
                    assert(ids == seq![r.id@, r.route_id@, r.service_id@]);
                    assert(t4 == intern_seq(t_pre, ids));
                },
            }
            let pre = records@.take(idx as int);
            let cur = records@.take(idx as int + 1);
            assert(cur.drop_last() =~= pre);
            assert(cur.last() == r);
            assert(trip_ids(cur) == trip_ids(pre) + trip_ids_one(r));
            lemma_intern_seq_concat(tbl0, trip_ids(pre), trip_ids_one(r));
            assert(interner@ == intern_seq(tbl0, trip_ids(cur)));
            assert(trip_row_matches(interner@, r, rows@[idx as int]));
            assert forall|j: int|
                0 <= j < idx + 1 implies trip_row_matches(
                interner@,
                records@[j],
                #[trigger] rows@[j],
            ) by {
                if j < idx {
                    lemma_extends_trans(t4, t1, t_pre);
                    lemma_trip_row_stable(t_pre, t4, records@[j], rows@[j]);
                }
            }
            lemma_extends_trans(t4, t1, t_pre);
            lemma_extends_trans(t4, t_pre, tbl0);
        }
        idx += 1;
    }
    proof {
        assert(records@.take(n as int) =~= records@);
    }
    rows
}


/// The identifiers one stop record sends through the interner, in order:
/// the stop, then the optional parent station.
pub open spec fn stop_ids_one(r: StopRecord) -> Seq<Seq<char>> {
    match r.parent_station {
        Some(p) => seq![r.id@, p@],
        None => seq![r.id@],
    }
}

/// The identifier stream of a stop stream.
pub open spec fn stop_ids(recs: Seq<StopRecord>) -> Seq<Seq<char>>
    decreases recs.len(),
{
    if recs.len() == 0 {
        Seq::empty()
    } else {
        stop_ids(recs.drop_last()) + stop_ids_one(recs.last())
    }
}

/// Row `row` persists record `rec` against symbol table `tbl`.
pub open spec fn stop_row_matches(tbl: Seq<Seq<char>>, rec: StopRecord, row: StopRow) -> bool {
    &&& contains_text(tbl, rec.id@)
    &&& row.stop_id == code_of(tbl, rec.id@)
    &&& row.stop_name == rec.name
    &&& row.stop_lat_e7 == rec.latitude_e7
    &&& row.stop_lon_e7 == rec.longitude_e7
    &&& (row.parent_station is Some <==> rec.parent_station is Some)
    &&& (rec.parent_station matches Some(p) ==> contains_text(tbl, p@) && row.parent_station.unwrap()
        == code_of(tbl, p@))
    &&& row.platform_code == rec.platform_code
}

/// A stop row stays valid as the shared table grows: codes never change.
pub proof fn lemma_stop_row_stable(
    t1: Seq<Seq<char>>,
    t2: Seq<Seq<char>>,
    rec: StopRecord,
    row: StopRow,
)
    requires
        distinct_texts(t2),
        extends(t2, t1),
        stop_row_matches(t1, rec, row),
    ensures
        stop_row_matches(t2, rec, row),
{
    lemma_code_stable(t1, t2, rec.id@);
    if let Some(p) = rec.parent_station {
        lemma_code_stable(t1, t2, p@);
    }
}

/// Loads the stops: every record becomes one row, in order; the stop and its
/// optional parent station are interned through the shared table.
pub fn load_stops(interner: &mut Interner, records: &Vec<StopRecord>) -> (rows: Vec<StopRow>)
    requires
        old(interner).wf(),
        old(interner)@.len() + 2 * records@.len() <= 0xFFFF_FFFF,
    ensures
        final(interner).wf(),
        extends(final(interner)@, old(interner)@),
        final(interner)@ == intern_seq(old(interner)@, stop_ids(records@)),
        final(interner)@.len() <= old(interner)@.len() + 2 * records@.len(),
        rows@.len() == records@.len(),
        forall|i: int|
            0 <= i < records@.len() ==> stop_row_matches(
                final(interner)@,
                records@[i],
                #[trigger] rows@[i],
            ),
{
    let ghost tbl0 = interner@;
    let mut rows: Vec<StopRow> = Vec::new();
    let n = records.len();
    proof {
        assert(records@.take(0) =~= Seq::<StopRecord>::empty());
    }
    let mut idx: usize = 0;
    while idx < n
        invariant
            interner.wf(),
            distinct_texts(tbl0),
            n == records@.len(),
            idx <= n,
            tbl0.len() + 2 * n <= 0xFFFF_FFFF,
            extends(interner@, tbl0),
            interner@ == intern_seq(tbl0, stop_ids(records@.take(idx as int))),
            interner@.len() <= tbl0.len() + 2 * idx,
            rows@.len() == idx,
            forall|j: int|
                0 <= j < idx ==> stop_row_matches(interner@, records@[j], #[trigger] rows@[j]),
        decreases n - idx,
    {
        let rec = &records[idx];
        let ghost t_pre = interner@;
        let stop_code = interner.intern(rec.id.as_str());
        let ghost t1 = interner@;
        let parent_code: Option<u32> = match &rec.parent_station {
            None => None,
            Some(p) => Some(interner.intern(p.as_str())),
        };
        let ghost t2 = interner@;
        proof {
            lemma_code_stable(t1, t2, rec.id@);
        }
        let row = StopRow {
            stop_id: stop_code,
            stop_name: clone_opt_string(&rec.name),
            stop_lat_e7: rec.latitude_e7,
            stop_lon_e7: rec.longitude_e7,
            parent_station: parent_code,
            platform_code: clone_opt_string(&rec.platform_code),
        };
        rows.push(row);
        proof {
            let r = records@[idx as int];
            let ids = stop_ids_one(r);
            match r.parent_station {
                Some(p) => {
                    lemma_intern_seq_four(t_pre, r.id@, p@, p@, p@);
                    assert(t1 == intern_one(t_pre, r.id@));
                    assert(t2 == intern_one(t1, p@));
                    assert(ids == seq![r.id@, p@]);
                    assert(t2 == intern_seq(t_pre, ids));
                },
                None => {
                    lemma_intern_seq_four(t_pre, r.id@, r.id@, r.id@, r.id@);
                    assert(t2 == t1);
                    assert(ids == seq![r.id@]);
                    assert(t2 == intern_seq(t_pre, ids));
                },
            }
            let pre = records@.take(idx as int);
            let cur = records@.take(idx as int + 1);
            assert(cur.drop_last() =~= pre);
            assert(cur.last() == r);
            assert(stop_ids(cur) == stop_ids(pre) + stop_ids_one(r));
            lemma_intern_seq_concat(tbl0, stop_ids(pre), stop_ids_one(r));
            assert(interner@ == intern_seq(tbl0, stop_ids(cur)));
            assert(stop_row_matches(interner@, r, rows@[idx as int]));
            assert forall|j: int|
                0 <= j < idx + 1 implies stop_row_matches(
                interner@,
                records@[j],
                #[trigger] rows@[j],
            ) by {
                if j < idx {
                    lemma_extends_trans(t2, t1, t_pre);
                    lemma_stop_row_stable(t_pre, t2, records@[j], rows@[j]);
                }
            }
            lemma_extends_trans(t2, t1, t_pre);
            lemma_extends_trans(t2, t_pre, tbl0);
        }
        idx += 1;
    }
    proof {
        assert(records@.take(n as int) =~= records@);
    }
    rows
}

/// The identifiers one timetable record sends through the interner, in
/// order: the trip, then the stop.
pub open spec fn stop_time_ids_one(r: StopTimeRecord) -> Seq<Seq<char>> {
    seq![r.trip_id@, r.stop_id@]
}

/// The identifier stream of a timetable stream.
pub open spec fn stop_time_ids(recs: Seq<StopTimeRecord>) -> Seq<Seq<char>>
    decreases recs.len(),
{
    if recs.len() == 0 {
        Seq::empty()
    } else {
        stop_time_ids(recs.drop_last()) + stop_time_ids_one(recs.last())
    }
}

/// Row `row` persists record `rec` against symbol table `tbl`.
pub open spec fn stop_time_row_matches(
    tbl: Seq<Seq<char>>,
    rec: StopTimeRecord,
    row: StopTimeRow,
) -> bool {
    &&& contains_text(tbl, rec.trip_id@)
    &&& row.trip_id == code_of(tbl, rec.trip_id@)
    &&& row.arrival_time == spec_opt_u32_to_i32(rec.arrival_time)
    &&& row.departure_time == spec_opt_u32_to_i32(rec.departure_time)
    &&& contains_text(tbl, rec.stop_id@)
    &&& row.stop_id == code_of(tbl, rec.stop_id@)
    &&& row.stop_sequence == rec.stop_sequence as i32
    &&& row.shape_dist_traveled_e3 == rec.shape_dist_traveled_e3
}

/// A timetable row stays valid as the shared table grows: codes never change.
pub proof fn lemma_stop_time_row_stable(
    t1: Seq<Seq<char>>,
    t2: Seq<Seq<char>>,
    rec: StopTimeRecord,
    row: StopTimeRow,
)
    requires
        distinct_texts(t2),
        extends(t2, t1),
        stop_time_row_matches(t1, rec, row),
    ensures
        stop_time_row_matches(t2, rec, row),
{
    lemma_code_stable(t1, t2, rec.trip_id@);
    lemma_code_stable(t1, t2, rec.stop_id@);
}

/// Loads the timetable: every record becomes one row, in order; the trip and
/// stop references are interned through the shared table.
pub fn load_stop_times(interner: &mut Interner, records: &Vec<StopTimeRecord>) -> (rows: Vec<
    StopTimeRow,
>)
    requires
        old(interner).wf(),
        old(interner)@.len() + 2 * records@.len() <= 0xFFFF_FFFF,
    ensures
        final(interner).wf(),
        extends(final(interner)@, old(interner)@),
        final(interner)@ == intern_seq(old(interner)@, stop_time_ids(records@)),
        final(interner)@.len() <= old(interner)@.len() + 2 * records@.len(),
        rows@.len() == records@.len(),
        forall|i: int|
            0 <= i < records@.len() ==> stop_time_row_matches(
                final(interner)@,
                records@[i],
                #[trigger] rows@[i],
            ),
{
    let ghost tbl0 = interner@;
    let mut rows: Vec<StopTimeRow> = Vec::new();
    let n = records.len();
    proof {
        assert(records@.take(0) =~= Seq::<StopTimeRecord>::empty());
    }
    let mut idx: usize = 0;
    while idx < n
        invariant
            interner.wf(),
            distinct_texts(tbl0),
            n == records@.len(),
            idx <= n,
            tbl0.len() + 2 * n <= 0xFFFF_FFFF,
            extends(interner@, tbl0),
            interner@ == intern_seq(tbl0, stop_time_ids(records@.take(idx as int))),
            interner@.len() <= tbl0.len() + 2 * idx,
            rows@.len() == idx,
            forall|j: int|
                0 <= j < idx ==> stop_time_row_matches(interner@, records@[j], #[trigger] rows@[j]),
        decreases n - idx,
    {
        let rec = &records[idx];
        let ghost t_pre = interner@;
        let trip_code = interner.intern(rec.trip_id.as_str());
        let ghost t1 = interner@;
        let stop_code = interner.intern(rec.stop_id.as_str());
        let ghost t2 = interner@;
        proof {
            lemma_code_stable(t1, t2, rec.trip_id@);
        }
        let row = StopTimeRow {
            trip_id: trip_code,
            arrival_time: opt_u32_to_i32(&rec.arrival_time),
            departure_time: opt_u32_to_i32(&rec.departure_time),
            stop_id: stop_code,
            stop_sequence: #[verifier::truncate] (rec.stop_sequence as i32),
            shape_dist_traveled_e3: rec.shape_dist_traveled_e3,
        };
        rows.push(row);
        proof {
            let r = records@[idx as int];
            let ids = stop_time_ids_one(r);
            lemma_intern_seq_four(t_pre, r.trip_id@, r.stop_id@, r.stop_id@, r.stop_id@);
            assert(t1 == intern_one(t_pre, r.trip_id@));
            assert(t2 == intern_one(t1, r.stop_id@));
            assert(ids == seq![r.trip_id@, r.stop_id@]);
            assert(t2 == intern_seq(t_pre, ids));
            let pre = records@.take(idx as int);
            let cur = records@.take(idx as int + 1);
            assert(cur.drop_last() =~= pre);
            assert(cur.last() == r);
            assert(stop_time_ids(cur) == stop_time_ids(pre) + stop_time_ids_one(r));
            lemma_intern_seq_concat(tbl0, stop_time_ids(pre), stop_time_ids_one(r));
            assert(interner@ == intern_seq(tbl0, stop_time_ids(cur)));
            assert(stop_time_row_matches(interner@, r, rows@[idx as int]));
            assert forall|j: int|
                0 <= j < idx + 1 implies stop_time_row_matches(
                interner@,
                records@[j],
                #[trigger] rows@[j],
            ) by {
                if j < idx {
                    lemma_extends_trans(t2, t1, t_pre);
                    lemma_stop_time_row_stable(t_pre, t2, records@[j], rows@[j]);
                }
            }
            lemma_extends_trans(t2, t1, t_pre);
            lemma_extends_trans(t2, t_pre, tbl0);
        }
        idx += 1;
    }
    proof {
        assert(records@.take(n as int) =~= records@);
    }
    rows
}

/// The identifier stream of a calendar stream: one service identifier per
/// record.
pub open spec fn calendar_ids(recs: Seq<CalendarRecord>) -> Seq<Seq<char>>
    decreases recs.len(),
{
    if recs.len() == 0 {
        Seq::empty()
    } else {
        calendar_ids(recs.drop_last()).push(recs.last().id@)
    }
}

/// Row `row` persists record `rec` against symbol table `tbl`.
pub open spec fn calendar_row_matches(
    tbl: Seq<Seq<char>>,
    rec: CalendarRecord,
    row: CalendarRow,
) -> bool {
    &&& contains_text(tbl, rec.id@)
    &&& row.service_id == code_of(tbl, rec.id@)
    &&& row.monday == rec.monday
    &&& row.tuesday == rec.tuesday
    &&& row.wednesday == rec.wednesday
    &&& row.thursday == rec.thursday
    &&& row.friday == rec.friday
    &&& row.saturday == rec.saturday
    &&& row.sunday == rec.sunday
    &&& row.start_date == rec.start_date
    &&& row.end_date == rec.end_date
}

/// A calendar row stays valid as the shared table grows: codes never change.
pub proof fn lemma_calendar_row_stable(
    t1: Seq<Seq<char>>,
    t2: Seq<Seq<char>>,
    rec: CalendarRecord,
    row: CalendarRow,
)
    requires
        distinct_texts(t2),
        extends(t2, t1),
        calendar_row_matches(t1, rec, row),
    ensures
        calendar_row_matches(t2, rec, row),
{
    lemma_code_stable(t1, t2, rec.id@);
}

/// Loads the calendars: every record becomes one row, in order, with its
/// service identifier interned through the shared table.
pub fn load_calendar(interner: &mut Interner, records: &Vec<CalendarRecord>) -> (rows: Vec<
    CalendarRow,
>)
    requires
        old(interner).wf(),
        old(interner)@.len() + records@.len() <= 0xFFFF_FFFF,
    ensures
        final(interner).wf(),
        extends(final(interner)@, old(interner)@),
        final(interner)@ == intern_seq(old(interner)@, calendar_ids(records@)),
        final(interner)@.len() <= old(interner)@.len() + records@.len(),
        rows@.len() == records@.len(),
        forall|i: int|
            0 <= i < records@.len() ==> calendar_row_matches(
                final(interner)@,
                records@[i],
                #[trigger] rows@[i],
            ),
{
    let ghost tbl0 = interner@;
    let mut rows: Vec<CalendarRow> = Vec::new();
    let n = records.len();
    proof {
        assert(records@.take(0) =~= Seq::<CalendarRecord>::empty());
    }
    let mut idx: usize = 0;
    while idx < n
        invariant
            interner.wf(),
            distinct_texts(tbl0),
            n == records@.len(),
            idx <= n,
            tbl0.len() + n <= 0xFFFF_FFFF,
            extends(interner@, tbl0),
            interner@ == intern_seq(tbl0, calendar_ids(records@.take(idx as int))),
            interner@.len() <= tbl0.len() + idx,
            rows@.len() == idx,
            forall|j: int|
                0 <= j < idx ==> calendar_row_matches(interner@, records@[j], #[trigger] rows@[j]),
        decreases n - idx,
    {
        let rec = &records[idx];
        let ghost t_pre = interner@;
        let code = interner.intern(rec.id.as_str());
        let row = CalendarRow {
            service_id: code,
            monday: rec.monday,
            tuesday: rec.tuesday,
            wednesday: rec.wednesday,
            thursday: rec.thursday,
            friday: rec.friday,
            saturday: rec.saturday,
            sunday: rec.sunday,
            start_date: rec.start_date,
            end_date: rec.end_date,
        };
        rows.push(row);
        proof {
            let pre = records@.take(idx as int);
            let cur = records@.take(idx as int + 1);
            assert(cur.drop_last() =~= pre);
            assert(cur.last() == records@[idx as int]);
            assert(calendar_ids(cur) == calendar_ids(pre).push(records@[idx as int].id@));
            lemma_intern_seq_push(tbl0, calendar_ids(pre), records@[idx as int].id@);
            assert(calendar_row_matches(interner@, records@[idx as int], rows@[idx as int]));
            assert forall|j: int|
                0 <= j < idx + 1 implies calendar_row_matches(
                interner@,
                records@[j],
                #[trigger] rows@[j],
            ) by {
                if j < idx {
                    lemma_calendar_row_stable(t_pre, interner@, records@[j], rows@[j]);
                }
            }
            lemma_extends_trans(interner@, t_pre, tbl0);
        }
        idx += 1;
    }
    proof {
        assert(records@.take(n as int) =~= records@);
    }
    rows
}

/// The identifier stream of a calendar-exception stream: one service
/// identifier per record.
pub open spec fn calendar_date_ids(recs: Seq<CalendarDateRecord>) -> Seq<Seq<char>>
    decreases recs.len(),
{
    if recs.len() == 0 {
        Seq::empty()
    } else {
        calendar_date_ids(recs.drop_last()).push(recs.last().service_id@)
    }
}

/// Row `row` persists record `rec` against symbol table `tbl`.
pub open spec fn calendar_date_row_matches(
    tbl: Seq<Seq<char>>,
    rec: CalendarDateRecord,
    row: CalendarDateRow,
) -> bool {
    &&& contains_text(tbl, rec.service_id@)
    &&& row.service_id == code_of(tbl, rec.service_id@)
    &&& row.date == rec.date
    &&& row.exception_type == spec_encode_exception(rec.exception)
}

/// A calendar-exception row stays valid as the shared table grows.
pub proof fn lemma_calendar_date_row_stable(
    t1: Seq<Seq<char>>,
    t2: Seq<Seq<char>>,
    rec: CalendarDateRecord,
    row: CalendarDateRow,
)
    requires
        distinct_texts(t2),
        extends(t2, t1),
        calendar_date_row_matches(t1, rec, row),
    ensures
        calendar_date_row_matches(t2, rec, row),
{
    lemma_code_stable(t1, t2, rec.service_id@);
}

/// Loads the calendar exceptions: every record becomes one row, in order,
/// with its service identifier interned through the shared table. An
/// unrecognized exception value is persisted as absent, not an error.
pub fn load_calendar_dates(interner: &mut Interner, records: &Vec<CalendarDateRecord>) -> (rows:
    Vec<CalendarDateRow>)
    requires
        old(interner).wf(),
        old(interner)@.len() + records@.len() <= 0xFFFF_FFFF,
    ensures
        final(interner).wf(),
        extends(final(interner)@, old(interner)@),
        final(interner)@ == intern_seq(old(interner)@, calendar_date_ids(records@)),
        final(interner)@.len() <= old(interner)@.len() + records@.len(),
        rows@.len() == records@.len(),
        forall|i: int|
            0 <= i < records@.len() ==> calendar_date_row_matches(
                final(interner)@,
                records@[i],
                #[trigger] rows@[i],
            ),
{
    let ghost tbl0 = interner@;
    let mut rows: Vec<CalendarDateRow> = Vec::new();
    let n = records.len();
    proof {
        assert(records@.take(0) =~= Seq::<CalendarDateRecord>::empty());
    }
    let mut idx: usize = 0;
    while idx < n
        invariant
            interner.wf(),
            distinct_texts(tbl0),
            n == records@.len(),
            idx <= n,
            tbl0.len() + n <= 0xFFFF_FFFF,
            extends(interner@, tbl0),
            interner@ == intern_seq(tbl0, calendar_date_ids(records@.take(idx as int))),
            interner@.len() <= tbl0.len() + idx,
            rows@.len() == idx,
            forall|j: int|
                0 <= j < idx ==> calendar_date_row_matches(
                    interner@,
                    records@[j],
                    #[trigger] rows@[j],
                ),
        decreases n - idx,
    {
        let rec = &records[idx];
        let ghost t_pre = interner@;
        let code = interner.intern(rec.service_id.as_str());
        let row = CalendarDateRow {
            service_id: code,
            date: rec.date,
            exception_type: encode_exception(&rec.exception),
        };
        rows.push(row);
        proof {
            let pre = records@.take(idx as int);
            let cur = records@.take(idx as int + 1);
            assert(cur.drop_last() =~= pre);
            assert(cur.last() == records@[idx as int]);
            assert(calendar_date_ids(cur) == calendar_date_ids(pre).push(
                records@[idx as int].service_id@,
            ));
            lemma_intern_seq_push(tbl0, calendar_date_ids(pre), records@[idx as int].service_id@);
            assert(calendar_date_row_matches(interner@, records@[idx as int], rows@[idx as int]));
            assert forall|j: int|
                0 <= j < idx + 1 implies calendar_date_row_matches(
                interner@,
                records@[j],
                #[trigger] rows@[j],
            ) by {
                if j < idx {
                    lemma_calendar_date_row_stable(t_pre, interner@, records@[j], rows@[j]);
                }
            }
            lemma_extends_trans(interner@, t_pre, tbl0);
        }
        idx += 1;
    }
    proof {
        assert(records@.take(n as int) =~= records@);
    }
    rows
}

/// The identifier stream of a shape-point stream: one shape identifier per
/// record.
pub open spec fn shape_ids(recs: Seq<ShapePointRecord>) -> Seq<Seq<char>>
    decreases recs.len(),
{
    if recs.len() == 0 {
        Seq::empty()
    } else {
        shape_ids(recs.drop_last()).push(recs.last().id@)
    }
}

/// Row `row` persists record `rec` against symbol table `tbl`.
pub open spec fn shape_row_matches(
    tbl: Seq<Seq<char>>,
    rec: ShapePointRecord,
    row: ShapePointRow,
) -> bool {
    &&& contains_text(tbl, rec.id@)
    &&& row.shape_id == code_of(tbl, rec.id@)
    &&& row.shape_pt_lat_e7 == rec.latitude_e7
    &&& row.shape_pt_lon_e7 == rec.longitude_e7
    &&& row.shape_pt_sequence == rec.sequence as i32
    &&& row.shape_dist_traveled_e3 == rec.dist_traveled_e3
}

/// A shape-point row stays valid as the shared table grows.
pub proof fn lemma_shape_row_stable(
    t1: Seq<Seq<char>>,
    t2: Seq<Seq<char>>,
    rec: ShapePointRecord,
    row: ShapePointRow,
)
    requires
        distinct_texts(t2),
        extends(t2, t1),
        shape_row_matches(t1, rec, row),
    ensures
        shape_row_matches(t2, rec, row),
{
    lemma_code_stable(t1, t2, rec.id@);
}

/// Loads the shape points: every record becomes one row, in order, with its
/// shape identifier interned through the shared table.
pub fn load_shapes(interner: &mut Interner, records: &Vec<ShapePointRecord>) -> (rows: Vec<
    ShapePointRow,
>)
    requires
        old(interner).wf(),
        old(interner)@.len() + records@.len() <= 0xFFFF_FFFF,
    ensures
        final(interner).wf(),
        extends(final(interner)@, old(interner)@),
        final(interner)@ == intern_seq(old(interner)@, shape_ids(records@)),
        final(interner)@.len() <= old(interner)@.len() + records@.len(),
        rows@.len() == records@.len(),
        forall|i: int|
            0 <= i < records@.len() ==> shape_row_matches(
                final(interner)@,
                records@[i],
                #[trigger] rows@[i],
            ),
{
    let ghost tbl0 = interner@;
    let mut rows: Vec<ShapePointRow> = Vec::new();
    let n = records.len();
    proof {
        assert(records@.take(0) =~= Seq::<ShapePointRecord>::empty());
    }
    let mut idx: usize = 0;
    while idx < n
        invariant
            interner.wf(),
            distinct_texts(tbl0),
            n == records@.len(),
            idx <= n,
            tbl0.len() + n <= 0xFFFF_FFFF,
            extends(interner@, tbl0),
            interner@ == intern_seq(tbl0, shape_ids(records@.take(idx as int))),
            interner@.len() <= tbl0.len() + idx,
            rows@.len() == idx,
            forall|j: int|
                0 <= j < idx ==> shape_row_matches(interner@, records@[j], #[trigger] rows@[j]),
        decreases n - idx,
    {
        let rec = &records[idx];
        let ghost t_pre = interner@;
        let code = interner.intern(rec.id.as_str());
        let row = ShapePointRow {
            shape_id: code,
            shape_pt_lat_e7: rec.latitude_e7,
            shape_pt_lon_e7: rec.longitude_e7,
            shape_pt_sequence: #[verifier::truncate] (rec.sequence as i32),
            shape_dist_traveled_e3: rec.dist_traveled_e3,
        };
        rows.push(row);
        proof {
            let pre = records@.take(idx as int);
            let cur = records@.take(idx as int + 1);
            assert(cur.drop_last() =~= pre);
            assert(cur.last() == records@[idx as int]);
            assert(shape_ids(cur) == shape_ids(pre).push(records@[idx as int].id@));
            lemma_intern_seq_push(tbl0, shape_ids(pre), records@[idx as int].id@);
            assert(shape_row_matches(interner@, records@[idx as int], rows@[idx as int]));
            assert forall|j: int|
                0 <= j < idx + 1 implies shape_row_matches(
                interner@,
                records@[j],
                #[trigger] rows@[j],
            ) by {
                if j < idx {
                    lemma_shape_row_stable(t_pre, interner@, records@[j], rows@[j]);
                }
            }
            lemma_extends_trans(interner@, t_pre, tbl0);
        }
        idx += 1;
    }
    proof {
        assert(records@.take(n as int) =~= records@);
    }
    rows
}

} // verus!
