//! The shared interner: a get-or-create mapping from identifier text to a
//! dense integer code, scoped to one import run.
//!
//! The symbol table is modelled as a sequence of texts; the code of a text is
//! its index in that sequence. Codes are therefore assigned sequentially
//! starting at 0 in first-seen order, identical text always yields the
//! identical code, and distinct texts yield distinct codes.

use vstd::prelude::*;

use crate::text::str_eq;

verus! {

/// The table holds the text somewhere.
pub open spec fn contains_text(tbl: Seq<Seq<char>>, s: Seq<char>) -> bool {
    exists|i: int| 0 <= i < tbl.len() && tbl[i] == s
}

/// The code assigned to a text: its index in the table. Meaningful only when
/// `contains_text(tbl, s)` holds; unique when the table is distinct.
pub open spec fn code_of(tbl: Seq<Seq<char>>, s: Seq<char>) -> int {
    choose|i: int| 0 <= i < tbl.len() && tbl[i] == s
}

/// No text occurs twice in the table.
pub open spec fn distinct_texts(tbl: Seq<Seq<char>>) -> bool {
    forall|i: int, j: int| 0 <= i < j < tbl.len() ==> tbl[i] != tbl[j]
}

/// The table `t2` extends the table `t1`: the interner only ever appends.
pub open spec fn extends(t2: Seq<Seq<char>>, t1: Seq<Seq<char>>) -> bool {
    t1.len() <= t2.len() && forall|i: int| 0 <= i < t1.len() ==> t2[i] == t1[i]
}

/// `extends` is transitive.
pub proof fn lemma_extends_trans(t3: Seq<Seq<char>>, t2: Seq<Seq<char>>, t1: Seq<Seq<char>>)
    requires
        extends(t3, t2),
        extends(t2, t1),
    ensures
        extends(t3, t1),
{
}

/// One get-or-create step: a known text leaves the table unchanged, a new
/// text is appended and receives the next sequential code.
pub open spec fn intern_one(tbl: Seq<Seq<char>>, s: Seq<char>) -> Seq<Seq<char>> {
    if contains_text(tbl, s) {
        tbl
    } else {
        tbl.push(s)
    }
}

/// The table after a stream of texts has been interned in order.
pub open spec fn intern_seq(tbl: Seq<Seq<char>>, texts: Seq<Seq<char>>) -> Seq<Seq<char>>
    decreases texts.len(),
{
    if texts.len() == 0 {
        tbl
    } else {
        intern_one(intern_seq(tbl, texts.drop_last()), texts.last())
    }
}

/// In a distinct table, the code of the text stored at index `i` is `i`.
pub proof fn lemma_code_of_at(tbl: Seq<Seq<char>>, s: Seq<char>, i: int)
    requires
        distinct_texts(tbl),
        0 <= i < tbl.len(),
        tbl[i] == s,
    ensures
        contains_text(tbl, s),
        code_of(tbl, s) == i,
{
    assert(contains_text(tbl, s));
    let j = code_of(tbl, s);
    assert(0 <= j < tbl.len() && tbl[j] == s);
    if i < j {
        assert(tbl[i] != tbl[j]);
    } else if j < i {
        assert(tbl[j] != tbl[i]);
    }
}

/// Distinct texts interned within one run carry distinct codes.
pub proof fn lemma_distinct_codes(tbl: Seq<Seq<char>>, s1: Seq<char>, s2: Seq<char>)
    requires
        distinct_texts(tbl),
        contains_text(tbl, s1),
        contains_text(tbl, s2),
        s1 != s2,
    ensures
        code_of(tbl, s1) != code_of(tbl, s2),
{
    let i1 = code_of(tbl, s1);
    let i2 = code_of(tbl, s2);
    assert(0 <= i1 < tbl.len() && tbl[i1] == s1);
    assert(0 <= i2 < tbl.len() && tbl[i2] == s2);
}

/// A code never changes once assigned: growing the table (append-only, as the
/// interner does) preserves the code of every text already present. Repeated
/// interning of the same text therefore returns the same code every time,
/// whichever entity kind it came from.
pub proof fn lemma_code_stable(tbl1: Seq<Seq<char>>, tbl2: Seq<Seq<char>>, s: Seq<char>)
    requires
        distinct_texts(tbl2),
        extends(tbl2, tbl1),
        contains_text(tbl1, s),
    ensures
        contains_text(tbl2, s),
        code_of(tbl2, s) == code_of(tbl1, s),
{
    let i = code_of(tbl1, s);
    assert(0 <= i < tbl1.len() && tbl1[i] == s);
    assert(tbl2[i] == s);
    lemma_code_of_at(tbl2, s, i);
}

/// Codes are assigned sequentially starting at 0: the text stored at index
/// `i` of a run's table has code exactly `i`.
pub proof fn lemma_codes_sequential(tbl: Seq<Seq<char>>, i: int)
    requires
        distinct_texts(tbl),
        0 <= i < tbl.len(),
    ensures
        contains_text(tbl, tbl[i]),
        code_of(tbl, tbl[i]) == i,
{
    lemma_code_of_at(tbl, tbl[i], i);
}

/// Unfolding step for interning streams: interning one more text is one
/// get-or-create step after the stream before it.
pub proof fn lemma_intern_seq_push(tbl: Seq<Seq<char>>, texts: Seq<Seq<char>>, s: Seq<char>)
    ensures
        intern_seq(tbl, texts.push(s)) == intern_one(intern_seq(tbl, texts), s),
{
    assert(texts.push(s).drop_last() =~= texts);
    assert(texts.push(s).last() == s);
}

/// Interning a concatenation of streams is interning one stream after the other.
pub proof fn lemma_intern_seq_concat(tbl: Seq<Seq<char>>, a: Seq<Seq<char>>, b: Seq<Seq<char>>)
    ensures
        intern_seq(tbl, a + b) == intern_seq(intern_seq(tbl, a), b),
    decreases b.len(),
{
    if b.len() == 0 {
        assert(a + b =~= a);
    } else {
        assert((a + b).drop_last() =~= a + b.drop_last());
        assert((a + b).last() == b.last());
        lemma_intern_seq_concat(tbl, a, b.drop_last());
    }
}

/// Unfoldings of `intern_seq` on streams of up to four texts, as one record
/// of a loader sends them through the interner.
pub proof fn lemma_intern_seq_four(
    t: Seq<Seq<char>>,
    a: Seq<char>,
    b: Seq<char>,
    c: Seq<char>,
    d: Seq<char>,
)
    ensures
        intern_seq(t, seq![a]) == intern_one(t, a),
        intern_seq(t, seq![a, b]) == intern_one(intern_one(t, a), b),
        intern_seq(t, seq![a, b, c]) == intern_one(intern_one(intern_one(t, a), b), c),
        intern_seq(t, seq![a, b, c, d]) == intern_one(
            intern_one(intern_one(intern_one(t, a), b), c),
            d,
        ),
{
    assert(seq![a].drop_last() =~= Seq::<Seq<char>>::empty());
    assert(seq![a, b].drop_last() =~= seq![a]);
    assert(seq![a, b, c].drop_last() =~= seq![a, b]);
    assert(seq![a, b, c, d].drop_last() =~= seq![a, b, c]);
    assert(intern_seq(t, Seq::<Seq<char>>::empty()) == t);
    assert(intern_seq(t, seq![a]) == intern_one(t, a));
    assert(intern_seq(t, seq![a, b]) == intern_one(intern_one(t, a), b));
    assert(intern_seq(t, seq![a, b, c]) == intern_one(intern_one(intern_one(t, a), b), c));
    assert(intern_seq(t, seq![a, b, c, d]) == intern_one(
        intern_one(intern_one(intern_one(t, a), b), c),
        d,
    ));
}

/// Interning a stream grows the table append-only and in first-seen order:
/// the old table stays a prefix, the result is still distinct, every text of
/// the stream is present afterwards, and every entry added by the stream is a
/// text of the stream that the old table did not hold.
pub proof fn lemma_intern_seq_grows(tbl: Seq<Seq<char>>, texts: Seq<Seq<char>>)
    requires
        distinct_texts(tbl),
    ensures
        distinct_texts(intern_seq(tbl, texts)),
        extends(intern_seq(tbl, texts), tbl),
        forall|k: int|
            0 <= k < texts.len() ==> contains_text(intern_seq(tbl, texts), texts[k]),
        forall|k: int|
            tbl.len() <= k < intern_seq(tbl, texts).len() ==> texts.contains(
                #[trigger] intern_seq(tbl, texts)[k],
            ) && !contains_text(tbl, intern_seq(tbl, texts)[k]),
    decreases texts.len(),
{
    if texts.len() == 0 {
    } else {
        let pre = texts.drop_last();
        let s = texts.last();
        lemma_intern_seq_grows(tbl, pre);
        let t1 = intern_seq(tbl, pre);
        let t2 = intern_seq(tbl, texts);
        assert(t2 == intern_one(t1, s));
        if contains_text(t1, s) {
            assert(t2 == t1);
            assert(forall|k: int|
                0 <= k < texts.len() ==> contains_text(t2, texts[k])) by {
                assert(forall|k: int| 0 <= k < pre.len() ==> texts[k] == pre[k]);
            }
            assert(forall|k: int|
                tbl.len() <= k < t2.len() ==> texts.contains(#[trigger] t2[k])
                    && !contains_text(tbl, t2[k])) by {
                assert(forall|k: int| tbl.len() <= k < t1.len() && pre.contains(
                    #[trigger] t1[k]) ==> texts.contains(t1[k])) by {
                    assert(forall|j: int| 0 <= j < pre.len() ==> texts[j] == #[trigger] pre[j]);
                }
            }
        } else {
            assert(t2 == t1.push(s));
            // distinctness: s is not in t1
            assert(distinct_texts(t2)) by {
                assert(forall|i: int| 0 <= i < t1.len() ==> t1[i] != s) by {
                    assert(forall|i: int|
                        0 <= i < t1.len() && #[trigger] t1[i] == s ==> contains_text(t1, s));
                }
                assert(forall|i: int, j: int|
                    0 <= i < j < t2.len() && j < t1.len() ==> t2[i] != t2[j]);
            }
            assert(contains_text(t2, s)) by {
                assert(t2[t1.len() as int] == s);
            }
            assert(forall|k: int|
                0 <= k < texts.len() ==> contains_text(t2, texts[k])) by {
                assert(forall|k: int| 0 <= k < pre.len() ==> texts[k] == pre[k]);
                assert(forall|x: Seq<char>|
                    contains_text(t1, x) ==> contains_text(t2, x)) by {
                    assert(forall|i: int| 0 <= i < t1.len() ==> t2[i] == #[trigger] t1[i]);
                }
                assert(texts[texts.len() - 1] == s);
            }
            assert(forall|k: int|
                tbl.len() <= k < t2.len() ==> texts.contains(#[trigger] t2[k])
                    && !contains_text(tbl, t2[k])) by {
                assert(forall|j: int| 0 <= j < pre.len() ==> texts[j] == #[trigger] pre[j]);
                assert(texts[texts.len() - 1] == s);
                assert(!contains_text(tbl, s)) by {
                    assert(extends(t1, tbl));
                    assert(forall|i: int|
                        0 <= i < tbl.len() && #[trigger] tbl[i] == s ==> contains_text(t1, s));
                }
            }
        }
    }
}

/// Codes are handed out in first-seen order: if some prefix of a run's
/// identifier stream has already interned the text standing at table
/// position `k2`, then it has already interned the text at every earlier
/// position `k1` as well — a later-seen text never receives an earlier code.
pub proof fn lemma_first_seen_order(
    tbl: Seq<Seq<char>>,
    texts: Seq<Seq<char>>,
    m: int,
    k1: int,
    k2: int,
)
    requires
        distinct_texts(tbl),
        0 <= k1 <= k2 < intern_seq(tbl, texts).len(),
        0 <= m <= texts.len(),
        contains_text(intern_seq(tbl, texts.take(m)), intern_seq(tbl, texts)[k2]),
    ensures
        contains_text(intern_seq(tbl, texts.take(m)), intern_seq(tbl, texts)[k1]),
{
    let t_m = intern_seq(tbl, texts.take(m));
    let t_f = intern_seq(tbl, texts);
    lemma_intern_seq_grows(tbl, texts.take(m));
    assert(texts =~= texts.take(m) + texts.skip(m));
    lemma_intern_seq_concat(tbl, texts.take(m), texts.skip(m));
    assert(t_f == intern_seq(t_m, texts.skip(m)));
    lemma_intern_seq_grows(t_m, texts.skip(m));
    // the prefix run's table is an initial segment of the final table, so
    // it can hold the entry of position k2 only by reaching past k2
    let i = choose|i: int| 0 <= i < t_m.len() && t_m[i] == t_f[k2];
    assert(t_f[i] == t_m[i]);
    assert(i == k2);
    assert(t_m[k1] == t_f[k1]);
    assert(contains_text(t_m, t_f[k1]));
}

/// The symbol table of one import run.
pub struct Interner {
    entries: Vec<String>,
}

impl View for Interner {
    type V = Seq<Seq<char>>;

    closed spec fn view(&self) -> Seq<Seq<char>> {
        self.entries.deep_view()
    }
}

impl Interner {
    /// The table never holds the same text twice.
    pub open spec fn wf(&self) -> bool {
        distinct_texts(self@)
    }

    /// A fresh, empty symbol table for one import run.
    pub fn new() -> (r: Interner)
        ensures
            r@ == Seq::<Seq<char>>::empty(),
            r.wf(),
    {
        let r = Interner { entries: Vec::new() };
        proof {
            assert(r@ =~= Seq::<Seq<char>>::empty());
        }
        r
    }

    /// How many distinct texts have been interned so far.
    pub fn len(&self) -> (n: usize)
        ensures
            n == self@.len(),
    {
        self.entries.len()
    }

    /// Get-or-create: a text seen before in this run keeps its previously
    /// assigned code and the table is unchanged; a new text is recorded and
    /// receives the next sequential code.
    pub fn intern(&mut self, s: &str) -> (code: u32)
        requires
            old(self).wf(),
            old(self)@.len() <= 0xFFFF_FFFF,
        ensures
            final(self).wf(),
            final(self)@ == intern_one(old(self)@, s@),
            extends(final(self)@, old(self)@),
            final(self)@.len() <= old(self)@.len() + 1,
            contains_text(final(self)@, s@),
            code == code_of(final(self)@, s@),
            code < final(self)@.len(),
    {
        let n = self.entries.len();
        let mut i: usize = 0;
        while i < n
            invariant
                *self == *old(self),
                old(self).wf(),
                n == self@.len(),
                n <= 0xFFFF_FFFF,
                i <= n,
                forall|j: int| 0 <= j < i ==> self@[j] != s@,
            decreases n - i,
        {
            proof {
                assert(self@[i as int] == self.entries@[i as int]@);
            }
            if str_eq(self.entries[i].as_str(), s) {
                proof {
                    lemma_code_of_at(self@, s@, i as int);
                }
                return i as u32;
            }
            i += 1;
        }
        proof {
            assert(!contains_text(self@, s@));
        }
        let code = n as u32;
        self.entries.push(s.to_owned());
        proof {
            assert(self@ =~= old(self)@.push(s@));
            assert(distinct_texts(self@)) by {
                assert(forall|k: int| 0 <= k < old(self)@.len() ==> self@[k] == old(self)@[k]);
            }
            lemma_code_of_at(self@, s@, n as int);
        }
        code
    }
}

} // verus!
