//! Character-level helpers shared by the interner and the namespace
//! provisioner: string equality over views and the character-set predicate
//! for identifiers that are embedded unescaped into statements.

use vstd::prelude::*;
use vstd::string::StrSliceExecFns;

verus! {

/// A character that is safe to embed unescaped into a namespace-creation
/// statement: ASCII alphanumeric or underscore.
pub open spec fn is_safe_char(c: char) -> bool {
    ('0' <= c && c <= '9') || ('A' <= c && c <= 'Z') || ('a' <= c && c <= 'z') || c == '_'
}

/// Every character of the text is safe to embed unescaped.
pub open spec fn all_safe_chars(s: Seq<char>) -> bool {
    forall|i: int| 0 <= i < s.len() ==> is_safe_char(s[i])
}

/// True exactly when the two slices hold the same characters.
pub fn str_eq(a: &str, b: &str) -> (r: bool)
    ensures
        r == (a@ == b@),
{
    let alen = a.unicode_len();
    let blen = b.unicode_len();
    if alen != blen {
        return false;
    }
    let mut i: usize = 0;
    while i < alen
        invariant
            alen == a@.len(),
            blen == b@.len(),
            alen == blen,
            i <= alen,
            forall|j: int| 0 <= j < i ==> a@[j] == b@[j],
        decreases alen - i,
    {
        if a.get_char(i) != b.get_char(i) {
            return false;
        }
        i += 1;
    }
    proof {
        assert(a@ =~= b@);
    }
    true
}

} // verus!
