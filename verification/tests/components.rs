use gtfs_import::codec::{
    encode_direction, encode_exception, encode_route_kind, CalendarException, RouteKind,
    TripDirection,
};
use gtfs_import::color::{optional_color_to_string, Color};
use gtfs_import::interner::Interner;
use gtfs_import::model::Route;
use gtfs_import::provision::{
    fresh_feed_uid, schema_create_statement, search_path_public_statement, search_path_statement,
};
use gtfs_import::serve::{alphanumeric_string, route_sorting_key, route_type_css, CachedResponder};

#[test]
fn intern_distinct_texts_distinct_codes() {
    let mut interner = Interner::new();
    let a = interner.intern("route_1");
    let b = interner.intern("route_2");
    let c = interner.intern("stop_1");
    assert_ne!(a, b);
    assert_ne!(a, c);
    assert_ne!(b, c);
}

#[test]
fn intern_same_text_same_code() {
    let mut interner = Interner::new();
    let a = interner.intern("shared");
    let b = interner.intern("other");
    // the same text keeps its code, whichever entity kind asks
    let c = interner.intern("shared");
    let d = interner.intern("shared");
    assert_eq!(a, c);
    assert_eq!(c, d);
    assert_ne!(a, b);
}

#[test]
fn intern_codes_sequential_in_first_seen_order() {
    let mut interner = Interner::new();
    assert_eq!(interner.intern("first"), 0);
    assert_eq!(interner.intern("second"), 1);
    assert_eq!(interner.intern("first"), 0);
    assert_eq!(interner.intern("third"), 2);
    assert_eq!(interner.intern("second"), 1);
    assert_eq!(interner.len(), 3);
}

#[test]
fn intern_empty_text_is_a_text() {
    let mut interner = Interner::new();
    assert_eq!(interner.intern(""), 0);
    assert_eq!(interner.intern("x"), 1);
    assert_eq!(interner.intern(""), 0);
}

#[test]
fn route_kind_codes() {
    assert_eq!(encode_route_kind(&RouteKind::Tramway), Some(0));
    assert_eq!(encode_route_kind(&RouteKind::Subway), Some(1));
    assert_eq!(encode_route_kind(&RouteKind::Rail), Some(2));
    assert_eq!(encode_route_kind(&RouteKind::Bus), Some(3));
    assert_eq!(encode_route_kind(&RouteKind::Ferry), Some(4));
    assert_eq!(encode_route_kind(&RouteKind::CableCar), Some(5));
    assert_eq!(encode_route_kind(&RouteKind::Gondola), Some(6));
    assert_eq!(encode_route_kind(&RouteKind::Funicular), Some(7));
    assert_eq!(encode_route_kind(&RouteKind::Extended(109)), Some(109));
}

#[test]
fn unrecognized_enumerations_encode_to_absent() {
    assert_eq!(encode_route_kind(&RouteKind::Unrecognized), None);
    assert_eq!(encode_direction(&Some(TripDirection::Unrecognized)), None);
    assert_eq!(encode_exception(&CalendarException::Unrecognized), None);
}

#[test]
fn direction_and_exception_codes() {
    assert_eq!(encode_direction(&Some(TripDirection::Outbound)), Some(0));
    assert_eq!(encode_direction(&Some(TripDirection::Inbound)), Some(1));
    assert_eq!(encode_direction(&None), None);
    assert_eq!(encode_exception(&CalendarException::Added), Some(1));
    assert_eq!(encode_exception(&CalendarException::Deleted), Some(2));
}

#[test]
fn color_renders_as_six_uppercase_hex_digits() {
    let c = Color { r: 255, g: 0, b: 16 };
    assert_eq!(optional_color_to_string(&Some(c)), Some("FF0010".to_string()));
    let d = Color { r: 0x0A, g: 0xBC, b: 0xDE };
    assert_eq!(optional_color_to_string(&Some(d)), Some("0ABCDE".to_string()));
    assert_eq!(optional_color_to_string(&Some(Color { r: 0, g: 0, b: 0 })), Some("000000".to_string()));
    assert_eq!(optional_color_to_string(&None), None);
}

#[test]
fn route_type_css_classes() {
    assert_eq!(route_type_css(0), "tram");
    assert_eq!(route_type_css(902), "tram");
    assert_eq!(route_type_css(1), "subway");
    assert_eq!(route_type_css(404), "subway");
    assert_eq!(route_type_css(2), "generic");
    assert_eq!(route_type_css(3), "bus");
    assert_eq!(route_type_css(716), "bus");
    assert_eq!(route_type_css(800), "bus");
    assert_eq!(route_type_css(102), "intercity");
    assert_eq!(route_type_css(106), "regional");
    assert_eq!(route_type_css(109), "suburban");
    assert_eq!(route_type_css(55), "generic");
}

#[test]
fn route_sorting_key_ranks_and_pads() {
    let r = Route { route_id: 7, route_short_name: "42".to_string(), route_type: 1 };
    let (class, key) = route_sorting_key(&r);
    assert_eq!(class, 1);
    assert_eq!(key, "0000000042");
    let r2 = Route { route_id: 8, route_short_name: "S1".to_string(), route_type: 109 };
    let (class2, key2) = route_sorting_key(&r2);
    assert_eq!(class2, 2);
    assert_eq!(key2, "00000000S1");
    let r3 = Route { route_id: 9, route_short_name: "longername99".to_string(), route_type: 3 };
    let (class3, key3) = route_sorting_key(&r3);
    assert_eq!(class3, 4);
    assert_eq!(key3, "longername99");
    let r4 = Route { route_id: 10, route_short_name: "901".to_string(), route_type: 920 };
    assert_eq!(route_sorting_key(&r4).0, 3);
    let r5 = Route { route_id: 11, route_short_name: "x".to_string(), route_type: 5000 };
    assert_eq!(route_sorting_key(&r5).0, 5);
}

#[test]
fn cached_responder_carries_cache_header() {
    let r = CachedResponder::new(vec![1u8, 2, 3]);
    assert_eq!(r.inner, vec![1u8, 2, 3]);
    assert_eq!(r.cached_header.name, "Cache-Control");
    assert_eq!(r.cached_header.value, "public, max-age=2592000");
}

#[test]
fn alphanumeric_string_accepts_safe_identifiers() {
    assert_eq!(alphanumeric_string("gtfs_0abc9XYZ"), Ok("gtfs_0abc9XYZ".to_string()));
    assert_eq!(alphanumeric_string(""), Ok("".to_string()));
}

#[test]
fn alphanumeric_string_rejects_bad_identifiers() {
    assert_eq!(alphanumeric_string("bad-name"), Err("Feed name must be alphanumeric"));
    assert_eq!(alphanumeric_string("a b"), Err("Feed name must be alphanumeric"));
    assert_eq!(alphanumeric_string("x\"; DROP SCHEMA"), Err("Feed name must be alphanumeric"));
    assert_eq!(alphanumeric_string("caf\u{e9}"), Err("Feed name must be alphanumeric"));
}

#[test]
fn fresh_feed_uid_is_a_valid_namespace_id() {
    let uid = fresh_feed_uid();
    assert_eq!(uid.chars().count(), 37);
    assert!(uid.starts_with("gtfs_"));
    // the uid must pass the same validation the serving layer applies
    assert_eq!(alphanumeric_string(&uid), Ok(uid.clone()));
    for c in uid[5..].chars() {
        assert!(c.is_ascii_digit() || ('a'..='f').contains(&c), "not lower hex: {}", c);
    }
}

#[test]
fn fresh_feed_uids_differ_between_runs() {
    let a = fresh_feed_uid();
    let b = fresh_feed_uid();
    assert_ne!(a, b);
}

#[test]
fn statements_embed_the_identifier() {
    assert_eq!(schema_create_statement("gtfs_ab12"), "CREATE SCHEMA \"gtfs_ab12\"");
    assert_eq!(search_path_statement("gtfs_ab12"), "SET search_path=\"gtfs_ab12\"");
    assert_eq!(
        search_path_public_statement("gtfs_ab12"),
        "SET search_path=\"gtfs_ab12\", public"
    );
}
