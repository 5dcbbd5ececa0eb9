//! Ordering strings as `Ord` does, and sorting lists of them.

use vstd::prelude::*;
use crate::text::{copy_str, lex_lt, strs_view, to_chars};

verus! {

broadcast use vstd::seq_lib::group_to_multiset_ensures;

/// No string orders before one that precedes it.
pub open spec fn lex_sorted(s: Seq<Seq<char>>) -> bool {
    forall|i: int, j: int| 0 <= i < j < s.len() ==> !lex_lt(#[trigger] s[j], #[trigger] s[i])
}

/// No string orders before itself.
pub proof fn lemma_lex_irreflexive(a: Seq<char>)
    ensures
        !lex_lt(a, a),
    decreases a.len(),
{
    if a.len() > 0 {
        lemma_lex_irreflexive(a.drop_first());
    }
}

/// The order is transitive.
pub proof fn lemma_lex_transitive(a: Seq<char>, b: Seq<char>, c: Seq<char>)
    requires
        lex_lt(a, b),
        lex_lt(b, c),
    ensures
        lex_lt(a, c),
    decreases a.len(),
{
    if a.len() > 0 && b.len() > 0 && c.len() > 0 && a[0] == b[0] && b[0] == c[0] {
        lemma_lex_transitive(a.drop_first(), b.drop_first(), c.drop_first());
    }
}

/// Two different strings are ordered one way or the other.
pub proof fn lemma_lex_total(a: Seq<char>, b: Seq<char>)
    requires
        a != b,
    ensures
        lex_lt(a, b) || lex_lt(b, a),
    decreases a.len(),
{
    if a.len() > 0 && b.len() > 0 && a[0] == b[0] {
        assert(a.drop_first() != b.drop_first()) by {
            if a.drop_first() == b.drop_first() {
                assert(a =~= seq![a[0]] + a.drop_first());
                assert(b =~= seq![b[0]] + b.drop_first());
            }
        }
        lemma_lex_total(a.drop_first(), b.drop_first());
    } else if a.len() == 0 && b.len() == 0 {
        assert(a =~= b);
    } else if a.len() > 0 && b.len() > 0 {
        lemma_char_code(a[0], b[0]);
    }
}

/// Different characters have different code points.
proof fn lemma_char_code(c: char, d: char)
    requires
        c != d,
    ensures
        (c as u32) != (d as u32),
{
    assert((c as int) != (d as int));
    assert((c as int) == (c as u32));
    assert((d as int) == (d as u32));
}

/// A string before `b` is before everything `b` is not after.
pub proof fn lemma_lex_lt_le(a: Seq<char>, b: Seq<char>, c: Seq<char>)
    requires
        lex_lt(a, b),
        !lex_lt(c, b),
    ensures
        lex_lt(a, c),
{
    if b != c {
        lemma_lex_total(b, c);
        lemma_lex_transitive(a, b, c);
    }
}

/// Whether `a` orders before `b`, as `Ord` orders strings.
pub fn str_lt(a: &str, b: &str) -> (res: bool)
    ensures
        res == lex_lt(a@, b@),
{
    let x = to_chars(a);
    let y = to_chars(b);
    let mut i: usize = 0;
    assert(a@.skip(0) =~= a@ && b@.skip(0) =~= b@);
    while i < x.len() && i < y.len() && x[i] == y[i]
        invariant
            i <= x@.len(),
            i <= y@.len(),
            x@ == a@,
            y@ == b@,
            lex_lt(a@, b@) == lex_lt(a@.skip(i as int), b@.skip(i as int)),
        decreases x@.len() - i,
    {
        let ghost sa = a@.skip(i as int);
        let ghost sb = b@.skip(i as int);
        assert(sa.drop_first() =~= a@.skip(i + 1));
        assert(sb.drop_first() =~= b@.skip(i + 1));
        assert(sa[0] == x@[i as int]);
        assert(sb[0] == y@[i as int]);
        i = i + 1;
    }
    let ghost sa = a@.skip(i as int);
    let ghost sb = b@.skip(i as int);
    if i < x.len() && i < y.len() {
        assert(sa[0] == x@[i as int] && sb[0] == y@[i as int]);
        (x[i] as u32) < (y[i] as u32)
    } else {
        i == x.len() && i < y.len()
    }
}

/// The strings of `v` in the order of `Ord`: the same strings, each as
/// often, sorted.
pub fn sort_strings(v: &[String]) -> (res: Vec<String>)
    ensures
        strs_view(res@).to_multiset() == strs_view(v@).to_multiset(),
        lex_sorted(strs_view(res@)),
{
    let mut out: Vec<String> = Vec::new();
    let mut i: usize = 0;
    while i < v.len()
        invariant
            i <= v@.len(),
            strs_view(out@).to_multiset() == strs_view(v@).take(i as int).to_multiset(),
            lex_sorted(strs_view(out@)),
        decreases v@.len() - i,
    {
        let s = copy_str(v[i].as_str());
        proof {
            assert(strs_view(v@).take(i + 1) =~= strs_view(v@).take(i as int).push(s@));
        }
        insert_sorted(&mut out, s);
        i = i + 1;
    }
    assert(strs_view(v@).take(v@.len() as int) =~= strs_view(v@));
    out
}

/// Inserts `s` into the sorted `out` after every string not after it.
fn insert_sorted(out: &mut Vec<String>, s: String)
    requires
        lex_sorted(strs_view(old(out)@)),
    ensures
        strs_view(final(out)@).to_multiset() == strs_view(old(out)@).to_multiset().insert(s@),
        lex_sorted(strs_view(final(out)@)),
{
    let ghost o = strs_view(out@);
    let mut pos: usize = 0;
    while pos < out.len() && !str_lt(s.as_str(), out[pos].as_str())
        invariant
            pos <= out@.len(),
            o == strs_view(out@),
            o.len() == out@.len(),
            lex_sorted(o),
            forall|k: int| 0 <= k < pos ==> !lex_lt(s@, #[trigger] o[k]),
        decreases out@.len() - pos,
    {
        pos = pos + 1;
    }
    let ghost sv = s@;
    proof {
        if pos < o.len() {
            assert(lex_lt(sv, o[pos as int]));
            assert forall|m: int| pos <= m < o.len() implies lex_lt(sv, #[trigger] o[m]) by {
                if m > pos {
                    lemma_lex_lt_le(sv, o[pos as int], o[m]);
                }
            }
        }
    }
    out.insert(pos, s);
    proof {
        let n = strs_view(out@);
        assert(n =~= o.insert(pos as int, sv));
        assert forall|i: int, j: int| 0 <= i < j < n.len() implies !lex_lt(#[trigger] n[j], #[trigger] n[i]) by {
            if j < pos {
            } else if j == pos {
                assert(n[i] == o[i]);
            } else if i == pos {
                assert(n[j] == o[j - 1]);
                assert(lex_lt(sv, o[j - 1]));
                if lex_lt(o[j - 1], sv) {
                    lemma_lex_transitive(sv, o[j - 1], sv);
                    lemma_lex_irreflexive(sv);
                }
            } else if i < pos {
                assert(n[i] == o[i] && n[j] == o[j - 1]);
            } else {
                assert(n[i] == o[i - 1] && n[j] == o[j - 1]);
            }
        }
    }
}

} // verus!
