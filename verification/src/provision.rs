//! The schema provisioner: a freshly generated unique identifier names an
//! isolated namespace for one import. The identifier is embedded unescaped
//! into the namespace-creation statement, so its restriction to safe
//! characters is a hard contract, not a convention.

use vstd::prelude::*;
use vstd::string::{StrSliceExecFns, StringExecFns};

use crate::text::{all_safe_chars, is_safe_char};

verus! {

/// A text fit to name a namespace and to stand unescaped inside a
/// namespace-creation statement: nonempty, alphanumeric/underscore only.
pub open spec fn is_valid_namespace_id(s: Seq<char>) -> bool {
    s.len() > 0 && all_safe_chars(s)
}

/// A lowercase hexadecimal digit.
pub open spec fn is_hex_lower_char(c: char) -> bool {
    ('0' <= c && c <= '9') || ('a' <= c && c <= 'f')
}

/// Relies on uuid::Uuid::new_v4 and uuid's simple formatter: a fresh
/// version-4 identifier rendered as exactly 32 hexadecimal digits in
/// lowercase. The digits themselves are random; nothing is assumed of them.
#[verifier::external_body]
fn random_uid_hex() -> (r: String)
    ensures
        r@.len() == 32,
        forall|i: int| 0 <= i < r@.len() ==> is_hex_lower_char(#[trigger] r@[i]),
{
    uuid::Uuid::new_v4().simple().to_string()
}

/// A fresh unique identifier for one import run: `gtfs_` followed by 32
/// hexadecimal digits. Always a valid namespace identifier.
pub fn fresh_feed_uid() -> (r: String)
    ensures
        r@.len() == 37,
        is_valid_namespace_id(r@),
        r@.subrange(0, 5) == "gtfs_"@,
{
    let mut s = String::from_str("gtfs_");
    let hex = random_uid_hex();
    s.append(hex.as_str());
    proof {
        reveal_strlit("gtfs_");
        assert(s@.subrange(0, 5) =~= "gtfs_"@);
        assert(all_safe_chars(s@)) by {
            assert(forall|i: int| 0 <= i < 5 ==> is_safe_char(#[trigger] s@[i]));
            assert(forall|i: int|
                5 <= i < s@.len() ==> is_hex_lower_char(#[trigger] hex@[i - 5]) ==> is_safe_char(
                    s@[i],
                ));
        }
    }
    s
}

/// The statement that creates the namespace of one import. The identifier is
/// embedded unescaped, which is why its validity is required rather than
/// checked here.
pub fn schema_create_statement(uid: &str) -> (r: String)
    requires
        is_valid_namespace_id(uid@),
    ensures
        r@ == "CREATE SCHEMA \""@ + uid@ + "\""@,
{
    let mut s = String::from_str("CREATE SCHEMA \"");
    s.append(uid);
    s.append("\"");
    proof {
        assert(s@ =~= "CREATE SCHEMA \""@ + uid@ + "\""@);
    }
    s
}

/// The statement that makes the namespace the active write target for the
/// rest of the unit of work. The identifier is embedded unescaped.
pub fn search_path_statement(uid: &str) -> (r: String)
    requires
        is_valid_namespace_id(uid@),
    ensures
        r@ == "SET search_path=\""@ + uid@ + "\""@,
{
    let mut s = String::from_str("SET search_path=\"");
    s.append(uid);
    s.append("\"");
    proof {
        assert(s@ =~= "SET search_path=\""@ + uid@ + "\""@);
    }
    s
}

/// The serving-side variant that keeps the shared tables visible next to the
/// selected namespace. The identifier is embedded unescaped.
pub fn search_path_public_statement(uid: &str) -> (r: String)
    requires
        is_valid_namespace_id(uid@),
    ensures
        r@ == "SET search_path=\""@ + uid@ + "\", public"@,
{
    let mut s = String::from_str("SET search_path=\"");
    s.append(uid);
    s.append("\", public");
    proof {
        assert(s@ =~= "SET search_path=\""@ + uid@ + "\", public"@);
    }
    s
}

} // verus!
