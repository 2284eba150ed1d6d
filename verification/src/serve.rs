//! Pure helpers of the serving layer: the style class and sorting key of a
//! route, the cache-control wrapper around a response, and the validation of
//! a feed identifier received from a request.

use vstd::prelude::*;
use vstd::string::{StrSliceExecFns, StringExecFns};

use crate::model::Route;
use crate::text::{all_safe_chars, is_safe_char};

verus! {

/// The style class shown for a route kind code.
pub open spec fn spec_route_type_css(route_type: i32) -> Seq<char> {
    if route_type == 0 || (900 <= route_type && route_type <= 906) {
        "tram"@
    } else if route_type == 1 || (400 <= route_type && route_type <= 404) {
        "subway"@
    } else if route_type == 2 {
        "generic"@
    } else if route_type == 3 || (700 <= route_type && route_type <= 716) || route_type == 800 {
        "bus"@
    } else if 101 <= route_type && route_type <= 103 {
        "intercity"@
    } else if route_type == 106 {
        "regional"@
    } else if route_type == 109 {
        "suburban"@
    } else {
        "generic"@
    }
}

/// Maps a route kind code to the style class it is rendered with.
pub fn route_type_css(route_type: i32) -> (r: &'static str)
    ensures
        r@ == spec_route_type_css(route_type),
{
    if route_type == 0 || (900 <= route_type && route_type <= 906) {
        "tram"
    } else if route_type == 1 || (400 <= route_type && route_type <= 404) {
        "subway"
    } else if route_type == 2 {
        "generic"
    } else if route_type == 3 || (700 <= route_type && route_type <= 716) || route_type == 800 {
        "bus"
    } else if 101 <= route_type && route_type <= 103 {
        "intercity"
    } else if route_type == 106 {
        "regional"
    } else if route_type == 109 {
        "suburban"
    } else {
        "generic"
    }
}

/// The presentation rank of a route kind code: subways first, then rail,
/// trams, buses, everything else last.
pub open spec fn spec_route_class(route_type: i32) -> i32 {
    if route_type == 0 || (900 <= route_type && route_type <= 999) {
        3
    } else if route_type == 1 || (400 <= route_type && route_type <= 499) {
        1
    } else if route_type == 2 || (100 <= route_type && route_type <= 199) {
        2
    } else if route_type == 3 || (700 <= route_type && route_type <= 899) {
        4
    } else {
        5
    }
}

/// A short name padded on the left with `'0'` to at least ten characters, so
/// that lexicographic order of the keys sorts numeric names numerically.
pub open spec fn zero_padded(s: Seq<char>) -> Seq<char> {
    if s.len() >= 10 {
        s
    } else {
        Seq::new((10 - s.len()) as nat, |k: int| '0') + s
    }
}

/// The key routes are presented in order of: the rank of their kind, then
/// their padded short name.
pub fn route_sorting_key(route: &Route) -> (r: (i32, String))
    ensures
        r.0 == spec_route_class(route.route_type),
        r.1@ == zero_padded(route.route_short_name@),
{
    let route_type = route.route_type;
    let class: i32 = if route_type == 0 || (900 <= route_type && route_type <= 999) {
        3
    } else if route_type == 1 || (400 <= route_type && route_type <= 499) {
        1
    } else if route_type == 2 || (100 <= route_type && route_type <= 199) {
        2
    } else if route_type == 3 || (700 <= route_type && route_type <= 899) {
        4
    } else {
        5
    };
    let n = route.route_short_name.as_str().unicode_len();
    let mut padded = String::new();
    proof {
        assert(padded@ =~= Seq::new(0, |k: int| '0'));
    }
    if n < 10 {
        let mut i: usize = n;
        while i < 10
            invariant
                n < 10,
                n <= i <= 10,
                padded@ == Seq::new((i - n) as nat, |k: int| '0'),
            decreases 10 - i,
        {
            padded.append("0");
            proof {
                reveal_strlit("0");
                assert(padded@ =~= Seq::new((i + 1 - n) as nat, |k: int| '0'));
            }
            i += 1;
        }
    }
    padded.append(route.route_short_name.as_str());
    proof {
        assert(padded@ =~= zero_padded(route.route_short_name@));
    }
    (class, padded)
}

/// An HTTP header as plain name/value text.
pub struct HeaderPair {
    pub name: String,
    pub value: String,
}

/// A response together with a long-lived public cache-control header.
pub struct CachedResponder<T> {
    pub inner: T,
    pub cached_header: HeaderPair,
}

impl<T> CachedResponder<T> {
    /// Wraps a response so that it is served with a thirty-day public
    /// cache-control header.
    pub fn new(inner: T) -> (r: Self)
        ensures
            r.inner == inner,
            r.cached_header.name@ == "Cache-Control"@,
            r.cached_header.value@ == "public, max-age=2592000"@,
    {
        CachedResponder {
            inner,
            cached_header: HeaderPair {
                name: String::from_str("Cache-Control"),
                value: String::from_str("public, max-age=2592000"),
            },
        }
    }
}

/// Accepts a feed identifier exactly when every character is safe to embed
/// unescaped into a statement: ASCII alphanumeric or underscore.
pub fn alphanumeric_string(input: &str) -> (r: Result<String, &str>)
    ensures
        r is Ok <==> all_safe_chars(input@),
        r matches Ok(s) ==> s@ == input@,
        r matches Err(e) ==> e@ == "Feed name must be alphanumeric"@,
{
    let n = input.unicode_len();
    let mut i: usize = 0;
    while i < n
        invariant
            n == input@.len(),
            i <= n,
            forall|j: int| 0 <= j < i ==> is_safe_char(#[trigger] input@[j]),
        decreases n - i,
    {
        let c = input.get_char(i);
        let u = c as u32;
        if !((48 <= u && u <= 57) || (65 <= u && u <= 90) || (97 <= u && u <= 122) || u == 95) {
            proof {
                assert(!is_safe_char(c));
            }
            return Err("Feed name must be alphanumeric");
        }
        proof {
            assert(is_safe_char(c));
        }
        i += 1;
    }
    Ok(input.to_owned())
}

} // verus!
