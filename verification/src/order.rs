//! Deterministic ordering for the folder index.
//!
//! Directory enumeration order is whatever the operating system yields, so
//! the engine puts folder and file names into lexicographic order before it
//! uses them.  `lex_leq` is the order, spelled out over character sequences;
//! `sort_names` is a verified insertion sort under it.

use vstd::prelude::*;

use crate::model::{lemma_names_insert, lemma_names_take, names};

verus! {

/// Lexicographic order on character sequences, by code point, with a proper
/// prefix ordered first.
pub open spec fn lex_leq(a: Seq<char>, b: Seq<char>) -> bool
    decreases a.len(),
{
    if a.len() == 0 {
        true
    } else if b.len() == 0 {
        false
    } else if (a[0] as u32) < (b[0] as u32) {
        true
    } else if (b[0] as u32) < (a[0] as u32) {
        false
    } else {
        lex_leq(a.drop_first(), b.drop_first())
    }
}

/// Any two character sequences are comparable.
pub proof fn lemma_lex_leq_total(a: Seq<char>, b: Seq<char>)
    ensures
        lex_leq(a, b) || lex_leq(b, a),
    decreases a.len(),
{
    if a.len() != 0 && b.len() != 0 && (a[0] as u32) == (b[0] as u32) {
        lemma_lex_leq_total(a.drop_first(), b.drop_first());
    }
}

/// The order is transitive.
pub proof fn lemma_lex_leq_trans(a: Seq<char>, b: Seq<char>, c: Seq<char>)
    requires
        lex_leq(a, b),
        lex_leq(b, c),
    ensures
        lex_leq(a, c),
    decreases a.len(),
{
    if a.len() != 0 && b.len() != 0 && c.len() != 0 && (a[0] as u32) == (b[0] as u32) && (b[0]
        as u32) == (c[0] as u32) {
        lemma_lex_leq_trans(a.drop_first(), b.drop_first(), c.drop_first());
    }
}

/// Relies on `<=` for `str` (its `PartialOrd`): string slices are ordered
/// lexicographically by byte value, which for UTF-8 text is exactly the
/// order of the character code points, a prefix ordering first.
#[verifier::external_body]
fn str_leq(a: &str, b: &str) -> (r: bool)
    ensures
        r == lex_leq(a@, b@),
{
    a <= b
}

/// The sequence of names is in lexicographic order.
pub open spec fn sorted_names(s: Seq<Seq<char>>) -> bool {
    forall|i: int, j: int| 0 <= i <= j < s.len() ==> lex_leq(s[i], s[j])
}

/// Inserting a name at a position bounded below by everything before it and
/// above by everything from it on keeps the sequence sorted.
proof fn lemma_sorted_insert(s: Seq<Seq<char>>, p: int, x: Seq<char>)
    requires
        sorted_names(s),
        0 <= p <= s.len(),
        forall|k: int| 0 <= k < p ==> lex_leq(#[trigger] s[k], x),
        forall|k: int| p <= k < s.len() ==> lex_leq(x, #[trigger] s[k]),
    ensures
        sorted_names(s.insert(p, x)),
{
    let t = s.insert(p, x);
    assert forall|i: int, j: int| 0 <= i <= j < t.len() implies lex_leq(t[i], t[j]) by {
        if i < p && j > p {
            assert(lex_leq(s[i], x));
            assert(lex_leq(x, s[j - 1]));
            lemma_lex_leq_trans(s[i], x, s[j - 1]);
        } else if i == j {
            lemma_lex_leq_total(t[i], t[i]);
        }
    }
}

/// First position whose entry is not below `x`: everything before it is
/// `lex_leq` `x`, and the entry there (if any) is not.
fn insert_pos(out: &Vec<String>, x: &String) -> (p: usize)
    ensures
        p <= out@.len(),
        forall|k: int| 0 <= k < p ==> lex_leq(#[trigger] names(out@)[k], x@),
        p < out@.len() ==> !lex_leq(names(out@)[p as int], x@),
{
    let mut p: usize = 0;
    while p < out.len()
        invariant
            p <= out.len(),
            forall|k: int| 0 <= k < p ==> lex_leq(#[trigger] names(out@)[k], x@),
        decreases out.len() - p,
    {
        if !str_leq(out[p].as_str(), x.as_str()) {
            return p;
        }
        p = p + 1;
    }
    p
}

/// Put a list of names into lexicographic order.  The result is sorted and
/// holds exactly the given names, multiplicity included.
pub fn sort_names(v: Vec<String>) -> (r: Vec<String>)
    ensures
        sorted_names(names(r@)),
        names(r@).to_multiset() == names(v@).to_multiset(),
{
    broadcast use vstd::seq_lib::group_to_multiset_ensures;
    broadcast use vstd::multiset::group_multiset_axioms;

    let mut out: Vec<String> = Vec::new();
    let mut i: usize = 0;
    while i < v.len()
        invariant
            i <= v.len(),
            sorted_names(names(out@)),
            names(out@).to_multiset() == names(v@.take(i as int)).to_multiset(),
        decreases v.len() - i,
    {
        let x = v[i].clone();
        let p = insert_pos(&out, &x);
        proof {
            assert forall|k: int| p <= k < out@.len() implies lex_leq(
                x@,
                #[trigger] names(out@)[k],
            ) by {
                lemma_lex_leq_total(names(out@)[p as int], x@);
                lemma_lex_leq_trans(x@, names(out@)[p as int], names(out@)[k]);
            }
            lemma_sorted_insert(names(out@), p as int, x@);
            lemma_names_insert(out@, p as int, x);
            vstd::seq_lib::to_multiset_insert(names(out@), p as int, x@);
            assert(names(out@).insert(p as int, x@).to_multiset() == names(
                out@,
            ).to_multiset().insert(x@));
            lemma_names_take(v@, i as int);
            lemma_names_take(v@, i + 1);
            assert(names(v@).take(i + 1) =~= names(v@).take(i as int).push(v@[i as int]@));
            vstd::seq_lib::to_multiset_build(names(v@).take(i as int), x@);
            assert(names(v@).take(i as int).push(x@).to_multiset() == names(v@).take(
                i as int,
            ).to_multiset().insert(x@));
            assert(names(v@.take(i + 1)).to_multiset() == names(v@.take(i as int)).to_multiset()
                .insert(x@));
        }
        out.insert(p, x);
        i = i + 1;
    }
    proof {
        lemma_names_take(v@, v@.len() as int);
        assert(names(v@).take(names(v@).len() as int) =~= names(v@));
    }
    out
}

} // verus!
