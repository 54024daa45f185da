//! Lexicographic ordering of migration file paths.
//!
//! Migration authors encode the apply order in file names (numeric or
//! timestamp prefixes), so the run must process the directory listing in
//! lexicographic order of the full path string. This module defines that
//! order on character sequences and a sorting routine proved to produce
//! exactly the insertion sort of its input.

use vstd::prelude::*;

verus! {

use vstd::multiset::Multiset;
use vstd::seq_lib::group_seq_properties;
use vstd::string::StrSliceExecFns;

/// `a` is lexicographically at or before `b`, comparing characters by
/// their scalar values.
pub open spec fn lex_le(a: Seq<char>, b: Seq<char>) -> bool
    decreases a.len(),
{
    if a.len() == 0 {
        true
    } else if b.len() == 0 {
        false
    } else if a[0] == b[0] {
        lex_le(a.drop_first(), b.drop_first())
    } else {
        a[0] < b[0]
    }
}

pub proof fn lemma_lex_le_refl(a: Seq<char>)
    ensures
        lex_le(a, a),
    decreases a.len(),
{
    if a.len() > 0 {
        lemma_lex_le_refl(a.drop_first());
    }
}

pub proof fn lemma_lex_le_total(a: Seq<char>, b: Seq<char>)
    ensures
        lex_le(a, b) || lex_le(b, a),
    decreases a.len(),
{
    if a.len() > 0 && b.len() > 0 && a[0] == b[0] {
        lemma_lex_le_total(a.drop_first(), b.drop_first());
    }
}

pub proof fn lemma_lex_le_trans(a: Seq<char>, b: Seq<char>, c: Seq<char>)
    requires
        lex_le(a, b),
        lex_le(b, c),
    ensures
        lex_le(a, c),
    decreases a.len(),
{
    if a.len() > 0 && b.len() > 0 && c.len() > 0 && a[0] == b[0] && b[0] == c[0] {
        lemma_lex_le_trans(a.drop_first(), b.drop_first(), c.drop_first());
    }
}

/// Decides `lex_le` on two string slices.
pub fn lex_le_exec(a: &str, b: &str) -> (r: bool)
    ensures
        r == lex_le(a@, b@),
{
    let na = a.unicode_len();
    let nb = b.unicode_len();
    let mut i: usize = 0;
    proof {
        assert(a@.skip(0) =~= a@);
        assert(b@.skip(0) =~= b@);
    }
    loop
        invariant
            i <= na,
            i <= nb,
            na == a@.len(),
            nb == b@.len(),
            lex_le(a@, b@) == lex_le(a@.skip(i as int), b@.skip(i as int)),
        decreases na - i,
    {
        if i >= na {
            assert(a@.skip(i as int).len() == 0);
            return true;
        }
        if i >= nb {
            assert(b@.skip(i as int).len() == 0);
            assert(a@.skip(i as int).len() > 0);
            return false;
        }
        let ca = a.get_char(i);
        let cb = b.get_char(i);
        assert(a@.skip(i as int)[0] == ca && b@.skip(i as int)[0] == cb);
        if ca == cb {
            proof {
                assert(a@.skip(i as int).drop_first() =~= a@.skip(i as int + 1));
                assert(b@.skip(i as int).drop_first() =~= b@.skip(i as int + 1));
            }
            i = i + 1;
        } else {
            return ca < cb;
        }
    }
}

/// `s` is sorted from least to greatest in the lexicographic order.
pub open spec fn sorted_lex(s: Seq<Seq<char>>) -> bool {
    forall|i: int, j: int| 0 <= i <= j < s.len() ==> lex_le(s[i], s[j])
}

/// Inserts `x` into `s` behind every element at or before it.
pub open spec fn insert_lex(s: Seq<Seq<char>>, x: Seq<char>) -> Seq<Seq<char>>
    decreases s.len(),
{
    if s.len() == 0 {
        seq![x]
    } else if lex_le(s.last(), x) {
        s.push(x)
    } else {
        insert_lex(s.drop_last(), x).push(s.last())
    }
}

/// Insertion sort of `s`.
pub open spec fn sort_lex(s: Seq<Seq<char>>) -> Seq<Seq<char>>
    decreases s.len(),
{
    if s.len() == 0 {
        Seq::empty()
    } else {
        insert_lex(sort_lex(s.drop_last()), s.last())
    }
}

/// Where `x` lands: `insert_lex` places `x` at the first position whose
/// successors are all strictly greater.
proof fn lemma_insert_lex_at(s: Seq<Seq<char>>, x: Seq<char>, j: int)
    requires
        0 <= j <= s.len(),
        forall|k: int| j <= k < s.len() ==> !lex_le(#[trigger] s[k], x),
        j > 0 ==> lex_le(s[j - 1], x),
    ensures
        insert_lex(s, x) =~= s.insert(j, x),
    decreases s.len(),
{
    if s.len() == 0 {
    } else if lex_le(s.last(), x) {
        assert(j == s.len());
    } else {
        assert(j < s.len());
        lemma_insert_lex_at(s.drop_last(), x, j);
        assert(insert_lex(s, x) =~= s.drop_last().insert(j, x).push(s.last()));
    }
}

proof fn lemma_insert_lex_len(s: Seq<Seq<char>>, x: Seq<char>)
    ensures
        insert_lex(s, x).len() == s.len() + 1,
    decreases s.len(),
{
    if s.len() > 0 && !lex_le(s.last(), x) {
        lemma_insert_lex_len(s.drop_last(), x);
    }
}

/// Every element of `insert_lex(s, x)` is an element of `s` or is `x`,
/// and the bound `z` is kept.
proof fn lemma_insert_lex_bound(s: Seq<Seq<char>>, x: Seq<char>, z: Seq<char>)
    requires
        forall|i: int| 0 <= i < s.len() ==> lex_le(#[trigger] s[i], z),
        lex_le(x, z),
    ensures
        forall|i: int|
            0 <= i < insert_lex(s, x).len() ==> lex_le(#[trigger] insert_lex(s, x)[i], z),
    decreases s.len(),
{
    if s.len() == 0 {
        assert forall|i: int| 0 <= i < insert_lex(s, x).len() implies lex_le(
            #[trigger] insert_lex(s, x)[i],
            z,
        ) by {
            assert(insert_lex(s, x) =~= seq![x]);
            assert(insert_lex(s, x)[i] == x);
        }
    } else if lex_le(s.last(), x) {
        assert forall|i: int| 0 <= i < insert_lex(s, x).len() implies lex_le(
            #[trigger] insert_lex(s, x)[i],
            z,
        ) by {
            if i < s.len() {
                assert(insert_lex(s, x)[i] == s[i]);
            } else {
                assert(insert_lex(s, x)[i] == x);
            }
        }
    } else {
        let d = s.drop_last();
        assert forall|i: int| 0 <= i < d.len() implies lex_le(#[trigger] d[i], z) by {
            assert(d[i] == s[i]);
        }
        lemma_insert_lex_bound(d, x, z);
        lemma_insert_lex_len(d, x);
        assert forall|i: int| 0 <= i < insert_lex(s, x).len() implies lex_le(
            #[trigger] insert_lex(s, x)[i],
            z,
        ) by {
            let q = insert_lex(d, x);
            assert(insert_lex(s, x) == q.push(s.last()));
            if i < q.len() {
                assert(insert_lex(s, x)[i] == q[i]);
            } else {
                assert(insert_lex(s, x)[i] == s.last());
                assert(s.last() == s[s.len() - 1]);
            }
        }
    }
}

proof fn lemma_insert_lex_sorted(s: Seq<Seq<char>>, x: Seq<char>)
    requires
        sorted_lex(s),
    ensures
        sorted_lex(insert_lex(s, x)),
        insert_lex(s, x).to_multiset() =~= s.to_multiset().insert(x),
    decreases s.len(),
{
    broadcast use vstd::seq_lib::group_to_multiset_ensures;

    if s.len() == 0 {
        assert(insert_lex(s, x) =~= Seq::empty().push(x));
        assert(s.to_multiset() =~= Multiset::empty());
        lemma_lex_le_refl(x);
        assert forall|i: int, j: int| 0 <= i <= j < insert_lex(s, x).len() implies lex_le(
            insert_lex(s, x)[i],
            insert_lex(s, x)[j],
        ) by {
            assert(insert_lex(s, x)[i] == x && insert_lex(s, x)[j] == x);
        }
    } else if lex_le(s.last(), x) {
        let r = s.push(x);
        assert forall|i: int, j: int| 0 <= i <= j < r.len() implies lex_le(r[i], r[j]) by {
            if j < s.len() {
                assert(r[i] == s[i] && r[j] == s[j]);
                assert(lex_le(s[i], s[j]));
            } else if i < s.len() {
                assert(r[i] == s[i] && r[j] == x);
                assert(lex_le(s[i], s.last()));
                lemma_lex_le_trans(s[i], s.last(), x);
            } else {
                assert(r[i] == x && r[j] == x);
                lemma_lex_le_refl(x);
            }
        }
        assert(sorted_lex(insert_lex(s, x)));
    } else {
        let d = s.drop_last();
        assert forall|i: int, j: int| 0 <= i <= j < d.len() implies lex_le(d[i], d[j]) by {
            assert(d[i] == s[i] && d[j] == s[j]);
        }
        lemma_insert_lex_sorted(d, x);
        lemma_insert_lex_len(d, x);
        let q = insert_lex(d, x);
        let r = q.push(s.last());
        lemma_lex_le_total(s.last(), x);
        assert forall|i: int| 0 <= i < d.len() implies lex_le(#[trigger] d[i], s.last()) by {
            assert(d[i] == s[i]);
        }
        lemma_insert_lex_bound(d, x, s.last());
        assert forall|i: int, j: int| 0 <= i <= j < r.len() implies lex_le(r[i], r[j]) by {
            if j < q.len() {
                assert(r[i] == q[i] && r[j] == q[j]);
                assert(lex_le(q[i], q[j]));
            } else if i < q.len() {
                assert(r[i] == q[i] && r[j] == s.last());
                assert(lex_le(q[i], s.last()));
            } else {
                assert(r[i] == s.last() && r[j] == s.last());
                lemma_lex_le_refl(s.last());
            }
        }
        assert(sorted_lex(r));
        assert(insert_lex(s, x) == r);
        assert(s =~= d.push(s.last()));
        assert(s.to_multiset() =~= d.to_multiset().insert(s.last()));
        assert(insert_lex(s, x).to_multiset() =~= q.to_multiset().insert(s.last()));
    }
}

/// The insertion sort of any sequence is sorted and keeps exactly the
/// original elements.
pub proof fn lemma_sort_lex_ensures(s: Seq<Seq<char>>)
    ensures
        sorted_lex(sort_lex(s)),
        sort_lex(s).to_multiset() =~= s.to_multiset(),
        sort_lex(s).len() == s.len(),
    decreases s.len(),
{
    broadcast use vstd::seq_lib::group_to_multiset_ensures;

    if s.len() == 0 {
        assert(s.to_multiset() =~= Multiset::empty());
    } else {
        lemma_sort_lex_ensures(s.drop_last());
        lemma_insert_lex_sorted(sort_lex(s.drop_last()), s.last());
        lemma_insert_lex_len(sort_lex(s.drop_last()), s.last());
        assert(s =~= s.drop_last().push(s.last()));
        assert(s.to_multiset() =~= s.drop_last().to_multiset().insert(s.last()));
    }
}

/// Sorts the listed paths lexicographically, as `sort_lex` describes.
pub fn sort_files(files: Vec<String>) -> (r: Vec<String>)
    ensures
        r.deep_view() =~= sort_lex(files.deep_view()),
{
    broadcast use group_seq_properties;

    let ghost fv = files.deep_view();
    let mut out: Vec<String> = Vec::new();
    let mut idx: usize = 0;
    while idx < files.len()
        invariant
            idx <= files.len(),
            fv == files.deep_view(),
            out.deep_view() =~= sort_lex(fv.take(idx as int)),
            sorted_lex(out.deep_view()),
        decreases files.len() - idx,
    {
        let x = files[idx].clone();
        let ghost prev = out.deep_view();
        let ghost done = idx as int;
        assert(x.deep_view() == fv[done]);
        let mut j = out.len();
        while j > 0 && !lex_le_exec(out[j - 1].as_str(), x.as_str())
            invariant
                j <= out.len(),
                out.deep_view() == prev,
                forall|k: int| j <= k < prev.len() ==> !lex_le(#[trigger] prev[k], x@),
            decreases j,
        {
            j = j - 1;
        }
        proof {
            lemma_insert_lex_at(prev, x@, j as int);
            lemma_insert_lex_sorted(prev, x@);
            assert(fv.take(done + 1).drop_last() =~= fv.take(done));
            assert(fv.take(done + 1).last() == fv[done]);
            assert(sort_lex(fv.take(done + 1)) == insert_lex(sort_lex(fv.take(done)), fv[done]));
        }
        out.insert(j, x);
        proof {
            assert(out.deep_view() =~= prev.insert(j as int, fv[done]));
        }
        idx = idx + 1;
    }
    proof {
        assert(fv.take(fv.len() as int) =~= fv);
    }
    out
}

} // verus!
