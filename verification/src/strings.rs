//! Lexicographic ordering of strings by character code point, together with
//! a sorted-and-deduplicated vector builder. On Unix paths (UTF-8 encoded)
//! this order agrees with the byte-wise order `str` uses, so sorting here
//! matches what a plain `Vec<String>::sort` would produce.

use vstd::prelude::*;

verus! {

/// Strict lexicographic order on character sequences: the first differing
/// character decides by code point; a proper prefix comes first.
pub open spec fn lex_lt(a: Seq<char>, b: Seq<char>) -> bool
    decreases a.len(),
{
    if b.len() == 0 {
        false
    } else if a.len() == 0 {
        true
    } else if a[0] == b[0] {
        lex_lt(a.drop_first(), b.drop_first())
    } else {
        (a[0] as u32) < (b[0] as u32)
    }
}

/// Every pair of positions in `s` is strictly ordered; this both sorts the
/// sequence and rules out duplicates.
pub open spec fn strictly_sorted(s: Seq<Seq<char>>) -> bool {
    forall|i: int, j: int| 0 <= i < j < s.len() ==> lex_lt(s[i], s[j])
}

pub proof fn lemma_lex_lt_irrefl(a: Seq<char>)
    ensures
        !lex_lt(a, a),
    decreases a.len(),
{
    if a.len() > 0 {
        lemma_lex_lt_irrefl(a.drop_first());
    }
}

/// One of the three orderings always holds: the order is total.
pub proof fn lemma_lex_lt_trichotomy(a: Seq<char>, b: Seq<char>)
    ensures
        lex_lt(a, b) || lex_lt(b, a) || a == b,
    decreases a.len(),
{
    if a.len() == 0 && b.len() == 0 {
        assert(a =~= b);
    } else if a.len() > 0 && b.len() > 0 {
        if a[0] == b[0] {
            lemma_lex_lt_trichotomy(a.drop_first(), b.drop_first());
            if !lex_lt(a, b) && !lex_lt(b, a) {
                assert(!lex_lt(a.drop_first(), b.drop_first()));
                assert(!lex_lt(b.drop_first(), a.drop_first()));
                assert(a.drop_first() == b.drop_first());
                assert(a.len() == b.len());
                assert forall|i: int| 0 <= i < a.len() implies a[i] == b[i] by {
                    if i >= 1 {
                        assert(a[i] == a.drop_first()[i - 1]);
                        assert(b[i] == b.drop_first()[i - 1]);
                    }
                }
                assert(a =~= b);
            }
        } else {
            assert((a[0] as u32) != (b[0] as u32)) by {
                vstd::utf8::char_u32_cast(a[0], a[0] as u32);
                vstd::utf8::char_u32_cast(b[0], b[0] as u32);
            }
        }
    }
}

pub proof fn lemma_lex_lt_trans(a: Seq<char>, b: Seq<char>, c: Seq<char>)
    requires
        lex_lt(a, b),
        lex_lt(b, c),
    ensures
        lex_lt(a, c),
    decreases a.len(),
{
    if a.len() > 0 && b.len() > 0 && c.len() > 0 {
        if a[0] == b[0] && b[0] == c[0] {
            lemma_lex_lt_trans(a.drop_first(), b.drop_first(), c.drop_first());
        }
    }
}

/// Compares two strings in the order `lex_lt` describes.
pub fn str_lt(a: &str, b: &str) -> (r: bool)
    ensures
        r == lex_lt(a@, b@),
{
    let alen = a.unicode_len();
    let blen = b.unicode_len();
    let mut i: usize = 0;
    proof {
        assert(a@.skip(0) =~= a@);
        assert(b@.skip(0) =~= b@);
    }
    while i < alen && i < blen
        invariant
            i <= alen,
            i <= blen,
            alen == a@.len(),
            blen == b@.len(),
            lex_lt(a@, b@) == lex_lt(a@.skip(i as int), b@.skip(i as int)),
        decreases alen - i,
    {
        let ca = a.get_char(i);
        let cb = b.get_char(i);
        proof {
            assert(a@.skip(i as int)[0] == a@[i as int]);
            assert(b@.skip(i as int)[0] == b@[i as int]);
        }
        if ca != cb {
            return (ca as u32) < (cb as u32);
        }
        proof {
            assert(a@.skip(i as int).drop_first() =~= a@.skip(i + 1));
            assert(b@.skip(i as int).drop_first() =~= b@.skip(i + 1));
        }
        i = i + 1;
    }
    proof {
        if i == alen {
            assert(a@.skip(i as int).len() == 0);
        } else {
            assert(b@.skip(i as int).len() == 0);
            assert(a@.skip(i as int).len() > 0);
        }
    }
    alen < blen
}

/// Compares two strings character by character.
pub fn str_eq(a: &str, b: &str) -> (r: bool)
    ensures
        r == (a@ == b@),
{
    let alen = a.unicode_len();
    let blen = b.unicode_len();
    if alen != blen {
        return false;
    }
    let mut i: usize = 0;
    while i < alen
        invariant
            i <= alen,
            alen == a@.len(),
            alen == b@.len(),
            forall|k: int| 0 <= k < i ==> a@[k] == b@[k],
        decreases alen - i,
    {
        if a.get_char(i) != b.get_char(i) {
            return false;
        }
        i = i + 1;
    }
    proof {
        assert(a@ =~= b@);
    }
    true
}

/// Inserts `s` at its sorted position unless an equal string is already
/// present, keeping the vector strictly sorted.
fn insert_sorted_unique(v: &mut Vec<String>, s: String)
    requires
        strictly_sorted(old(v).deep_view()),
    ensures
        strictly_sorted(final(v).deep_view()),
        forall|x: Seq<char>|
            final(v).deep_view().contains(x) <==> (old(v).deep_view().contains(x) || x == s@),
{
    let ghost dv = v.deep_view();
    let mut i: usize = 0;
    while i < v.len() && str_lt(v[i].as_str(), s.as_str())
        invariant
            i <= v.len(),
            dv == v.deep_view(),
            dv.len() == v.len(),
            strictly_sorted(dv),
            forall|k: int| 0 <= k < i ==> lex_lt(#[trigger] dv[k], s@),
        decreases v.len() - i,
    {
        proof {
            assert(dv[i as int] == v@[i as int]@);
        }
        i = i + 1;
    }
    proof {
        assert(forall|k: int| 0 <= k < v.len() ==> dv[k] == v@[k]@);
    }
    if i < v.len() {
        let same = str_eq(v[i].as_str(), s.as_str());
        if same {
            proof {
                assert(dv.contains(s@)) by {
                    assert(dv[i as int] == s@);
                }
            }
            return ;
        }
    }
    proof {
        if i < v.len() {
            lemma_lex_lt_trichotomy(dv[i as int], s@);
            assert(lex_lt(s@, dv[i as int]));
        }
    }
    let ghost ove = v@;
    let ghost sv = s@;
    v.insert(i, s);
    proof {
        ove.insert_ensures(i as int, s);
        let ndv = v.deep_view();
        assert(ndv.len() == dv.len() + 1);
        assert forall|k: int| 0 <= k < i implies ndv[k] == dv[k] by {
            assert(v@[k] == ove[k]);
        }
        assert(v@[i as int]@ == sv);
        assert(ndv[i as int] == sv);
        assert forall|k: int| i < k < ndv.len() implies ndv[k] == dv[k - 1] by {
            assert(ove.insert(i as int, s)[(k - 1) + 1] == ove[k - 1]);
            assert(v@[k] == ove[k - 1]);
        }
        assert(strictly_sorted(ndv)) by {
            assert forall|a: int, b: int| 0 <= a < b < ndv.len() implies lex_lt(
                ndv[a],
                ndv[b],
            ) by {
                if b < i {
                    assert(lex_lt(dv[a], dv[b]));
                } else if b == i {
                    assert(lex_lt(dv[a], sv));
                } else if a < i {
                    assert(lex_lt(dv[a], dv[b - 1]));
                } else if a == i {
                    if b == i + 1 {
                        assert(lex_lt(sv, dv[b - 1]));
                    } else {
                        assert(lex_lt(sv, dv[i as int]));
                        assert(lex_lt(dv[i as int], dv[b - 1]));
                        lemma_lex_lt_trans(sv, dv[i as int], dv[b - 1]);
                    }
                } else {
                    assert(lex_lt(dv[a - 1], dv[b - 1]));
                }
            }
        }
        assert forall|x: Seq<char>| ndv.contains(x) <==> (dv.contains(x) || x == sv) by {
            if ndv.contains(x) {
                let k = choose|k: int| 0 <= k < ndv.len() && ndv[k] == x;
                if k < i {
                    assert(dv[k] == x);
                } else if k == i {
                } else {
                    assert(dv[k - 1] == x);
                }
            }
            if dv.contains(x) {
                let k = choose|k: int| 0 <= k < dv.len() && dv[k] == x;
                if k < i {
                    assert(ndv[k] == x);
                } else {
                    assert(ndv[k + 1] == x);
                }
            }
            if x == s@ {
                assert(ndv[i as int] == x);
            }
        }
    }
}

/// Returns the contents of `v` sorted lexicographically with duplicates
/// removed: the unique strictly sorted sequence holding exactly the strings
/// of `v`.
pub fn sort_and_dedup(v: &Vec<String>) -> (r: Vec<String>)
    ensures
        strictly_sorted(r.deep_view()),
        forall|x: Seq<char>| r.deep_view().contains(x) <==> v.deep_view().contains(x),
{
    let ghost dv = v.deep_view();
    let mut r: Vec<String> = Vec::new();
    let mut i: usize = 0;
    proof {
        assert(r.deep_view() =~= Seq::<Seq<char>>::empty());
    }
    while i < v.len()
        invariant
            i <= v.len(),
            dv == v.deep_view(),
            dv.len() == v.len(),
            strictly_sorted(r.deep_view()),
            forall|x: Seq<char>| r.deep_view().contains(x) <==> dv.take(i as int).contains(x),
        decreases v.len() - i,
    {
        let s = v[i].clone();
        proof {
            assert(s@ == dv[i as int]);
        }
        let ghost before = r.deep_view();
        insert_sorted_unique(&mut r, s);
        proof {
            assert forall|x: Seq<char>|
                r.deep_view().contains(x) <==> dv.take(i + 1).contains(x) by {
                if r.deep_view().contains(x) {
                    if before.contains(x) {
                        let k = choose|k: int| 0 <= k < i && dv.take(i as int)[k] == x;
                        assert(dv.take(i + 1)[k] == x);
                    } else {
                        assert(dv.take(i + 1)[i as int] == x);
                    }
                }
                if dv.take(i + 1).contains(x) {
                    let k = choose|k: int| 0 <= k < i + 1 && #[trigger] dv.take(i + 1)[k] == x;
                    if k < i {
                        assert(dv.take(i as int)[k] == x);
                    } else {
                        assert(x == s@);
                    }
                }
            }
        }
        i = i + 1;
    }
    proof {
        assert(dv.take(v.len() as int) =~= dv);
    }
    r
}

pub proof fn lemma_lex_lt_asym(a: Seq<char>, b: Seq<char>)
    requires
        lex_lt(a, b),
    ensures
        !lex_lt(b, a),
{
    if lex_lt(b, a) {
        lemma_lex_lt_trans(a, b, a);
        lemma_lex_lt_irrefl(a);
    }
}

/// Law: a strictly sorted sequence is determined by the set of strings it
/// holds: two sorted, deduplicated results of the same raw strings are the
/// same sequence. Together with their contracts this pins the keyword
/// lists completely.
pub proof fn law_sorted_set_determines_sequence(a: Seq<Seq<char>>, b: Seq<Seq<char>>)
    requires
        strictly_sorted(a),
        strictly_sorted(b),
        forall|x: Seq<char>| a.contains(x) <==> b.contains(x),
    ensures
        a == b,
    decreases a.len(),
{
    if a.len() == 0 {
        if b.len() > 0 {
            assert(b.contains(b[0]));
        }
        assert(a =~= b);
    } else if b.len() == 0 {
        assert(a.contains(a[0]));
    } else {
        assert(a[0] == b[0]) by {
            assert(a.contains(a[0]));
            let j = choose|j: int| 0 <= j < b.len() && b[j] == a[0];
            assert(b.contains(b[0]));
            let i = choose|i: int| 0 <= i < a.len() && a[i] == b[0];
            if a[0] != b[0] {
                assert(j > 0 && i > 0);
                assert(lex_lt(b[0], b[j]));
                assert(lex_lt(a[0], a[i]));
                lemma_lex_lt_asym(a[0], b[0]);
            }
        }
        let ta = a.drop_first();
        let tb = b.drop_first();
        assert forall|x: Seq<char>| ta.contains(x) <==> tb.contains(x) by {
            if ta.contains(x) {
                let k = choose|k: int| 0 <= k < ta.len() && ta[k] == x;
                assert(a[k + 1] == x);
                assert(a.contains(x));
                let j = choose|j: int| 0 <= j < b.len() && b[j] == x;
                if j == 0 {
                    assert(lex_lt(a[0], a[k + 1]));
                    lemma_lex_lt_irrefl(x);
                }
                assert(tb[j - 1] == x);
            }
            if tb.contains(x) {
                let k = choose|k: int| 0 <= k < tb.len() && tb[k] == x;
                assert(b[k + 1] == x);
                assert(b.contains(x));
                let i = choose|i: int| 0 <= i < a.len() && a[i] == x;
                if i == 0 {
                    assert(lex_lt(b[0], b[k + 1]));
                    lemma_lex_lt_irrefl(x);
                }
                assert(ta[i - 1] == x);
            }
        }
        assert(strictly_sorted(ta)) by {
            assert(forall|i: int, j: int|
                0 <= i < j < ta.len() ==> a[i + 1] == ta[i] && a[j + 1] == ta[j]);
        }
        assert(strictly_sorted(tb)) by {
            assert(forall|i: int, j: int|
                0 <= i < j < tb.len() ==> b[i + 1] == tb[i] && b[j + 1] == tb[j]);
        }
        law_sorted_set_determines_sequence(ta, tb);
        assert(a.len() == b.len());
        assert forall|i: int| 0 <= i < a.len() implies a[i] == b[i] by {
            if i >= 1 {
                assert(a[i] == ta[i - 1]);
                assert(b[i] == tb[i - 1]);
            }
        }
        assert(a =~= b);
    }
}

/// Law: a strictly sorted sequence holds no string twice, so the keyword
/// lists this crate produces are deduplicated.
pub proof fn law_strictly_sorted_has_no_duplicates(s: Seq<Seq<char>>)
    requires
        strictly_sorted(s),
    ensures
        forall|i: int, j: int| 0 <= i < s.len() && 0 <= j < s.len() && i != j ==> s[i] != s[j],
{
    assert forall|i: int, j: int|
        0 <= i < s.len() && 0 <= j < s.len() && i != j implies s[i] != s[j] by {
        if i < j {
            lemma_lex_lt_irrefl(s[i]);
        } else {
            lemma_lex_lt_irrefl(s[j]);
        }
    }
}

} // verus!
