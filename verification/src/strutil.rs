//! Small helpers shared by the modules that work with lists of strings.

use vstd::prelude::*;

verus! {

broadcast use vstd::std_specs::vec::group_vec_axioms, vstd::seq::group_seq_axioms;

/// The character sequences of a list of strings.
pub open spec fn string_views(xs: Seq<String>) -> Seq<Seq<char>> {
    xs.map_values(|s: String| s@)
}

/// Copies a list of strings.
pub fn dup_strings(xs: &Vec<String>) -> (out: Vec<String>)
    ensures
        string_views(out@) == string_views(xs@),
{
    let mut out: Vec<String> = Vec::new();
    let mut i: usize = 0;
    while i < xs.len()
        invariant
            i <= xs@.len(),
            out@.len() == i,
            forall|k: int| 0 <= k < i ==> out@[k]@ == #[trigger] xs@[k]@,
        decreases xs@.len() - i,
    {
        out.push(xs[i].clone());
        i += 1;
    }
    proof {
        assert(string_views(out@) =~= string_views(xs@));
    }
    out
}

/// Strict lexicographic order on character sequences, by code point.
pub open spec fn lex_lt(a: Seq<char>, b: Seq<char>) -> bool
    decreases a.len(),
{
    if b.len() == 0 {
        false
    } else if a.len() == 0 {
        true
    } else if (a[0] as u32) < (b[0] as u32) {
        true
    } else if a[0] == b[0] {
        lex_lt(a.subrange(1, a.len() as int), b.subrange(1, b.len() as int))
    } else {
        false
    }
}

/// Compares two string slices in lexicographic code-point order.
pub fn str_lt(a: &str, b: &str) -> (r: bool)
    ensures
        r == lex_lt(a@, b@),
{
    let na = a.unicode_len();
    let nb = b.unicode_len();
    proof {
        assert(a@.subrange(0, na as int) =~= a@);
        assert(b@.subrange(0, nb as int) =~= b@);
    }
    let mut i: usize = 0;
    while i < na && i < nb
        invariant
            na == a@.len(),
            nb == b@.len(),
            i <= na,
            i <= nb,
            lex_lt(a@, b@) == lex_lt(
                a@.subrange(i as int, na as int),
                b@.subrange(i as int, nb as int),
            ),
        decreases na - i,
    {
        let ca = a.get_char(i);
        let cb = b.get_char(i);
        proof {
            let sa = a@.subrange(i as int, na as int);
            let sb = b@.subrange(i as int, nb as int);
            assert(sa[0] == a@[i as int]);
            assert(sb[0] == b@[i as int]);
            assert(sa.subrange(1, sa.len() as int) =~= a@.subrange(i as int + 1, na as int));
            assert(sb.subrange(1, sb.len() as int) =~= b@.subrange(i as int + 1, nb as int));
        }
        if (ca as u32) < (cb as u32) {
            return true;
        }
        if ca != cb {
            return false;
        }
        i += 1;
    }
    proof {
        let sa = a@.subrange(i as int, na as int);
        let sb = b@.subrange(i as int, nb as int);
        assert(sa.len() == na - i && sb.len() == nb - i);
    }
    na < nb
}

/// Where a string lands in an already ordered list: before the first entry
/// it precedes.
pub open spec fn insert_sorted(x: Seq<char>, s: Seq<Seq<char>>) -> Seq<Seq<char>>
    decreases s.len(),
{
    if s.len() == 0 {
        seq![x]
    } else if lex_lt(x, s[0]) {
        seq![x] + s
    } else {
        seq![s[0]] + insert_sorted(x, s.subrange(1, s.len() as int))
    }
}

/// Insertion sort of a list of strings, in code-point order.
pub open spec fn sort_views(s: Seq<Seq<char>>) -> Seq<Seq<char>>
    decreases s.len(),
{
    if s.len() == 0 {
        s
    } else {
        insert_sorted(s.last(), sort_views(s.drop_last()))
    }
}

proof fn lemma_insert_sorted_shape(x: Seq<char>, s: Seq<Seq<char>>, k: int)
    requires
        0 <= k <= s.len(),
        forall|j: int| 0 <= j < k ==> !lex_lt(x, #[trigger] s[j]),
        k < s.len() ==> lex_lt(x, s[k]),
    ensures
        insert_sorted(x, s) == s.subrange(0, k) + seq![x] + s.subrange(k, s.len() as int),
    decreases s.len(),
{
    if s.len() == 0 {
        assert(insert_sorted(x, s) =~= s.subrange(0, k) + seq![x] + s.subrange(
            k,
            s.len() as int,
        ));
    } else if lex_lt(x, s[0]) {
        assert(k == 0);
        assert(insert_sorted(x, s) =~= s.subrange(0, 0) + seq![x] + s.subrange(
            0,
            s.len() as int,
        ));
    } else {
        let sub = s.subrange(1, s.len() as int);
        assert(forall|j: int| 1 <= j < s.len() ==> s[j] == sub[j - 1]);
        lemma_insert_sorted_shape(x, sub, k - 1);
        assert(seq![s[0]] + (sub.subrange(0, k - 1) + seq![x] + sub.subrange(
            k - 1,
            sub.len() as int,
        )) =~= s.subrange(0, k) + seq![x] + s.subrange(k, s.len() as int));
    }
}

/// Non-strict lexicographic order.
pub open spec fn lex_le(a: Seq<char>, b: Seq<char>) -> bool {
    lex_lt(a, b) || a == b
}

/// Every neighbouring pair of the list is in order.
pub open spec fn sorted_le(s: Seq<Seq<char>>) -> bool {
    forall|i: int| 0 <= i < s.len() - 1 ==> lex_le(#[trigger] s[i], s[i + 1])
}

/// The lexicographic order is total: of two strings, one precedes the
/// other, or they are equal.
pub proof fn lemma_lex_total(a: Seq<char>, b: Seq<char>)
    ensures
        lex_lt(a, b) || lex_lt(b, a) || a == b,
    decreases a.len(),
{
    if a.len() == 0 && b.len() == 0 {
        assert(a =~= b);
    } else if a.len() > 0 && b.len() > 0 {
        vstd::utf8::char_u32_cast(a[0], a[0] as u32);
        vstd::utf8::char_u32_cast(b[0], b[0] as u32);
        assert((a[0] as u32) == (b[0] as u32) ==> a[0] == b[0]);
        if a[0] == b[0] {
            let ta = a.subrange(1, a.len() as int);
            let tb = b.subrange(1, b.len() as int);
            lemma_lex_total(ta, tb);
            if ta == tb {
                assert(a =~= seq![a[0]] + ta);
                assert(b =~= seq![b[0]] + tb);
                assert(a == b);
            }
        }
    }
}

proof fn lemma_insert_sorted_keeps_sorted(x: Seq<char>, s: Seq<Seq<char>>)
    requires
        sorted_le(s),
    ensures
        sorted_le(insert_sorted(x, s)),
    decreases s.len(),
{
    if s.len() == 0 {
    } else if lex_lt(x, s[0]) {
        let out = seq![x] + s;
        assert forall|i: int| 0 <= i < out.len() - 1 implies lex_le(#[trigger] out[i], out[i + 1]) by {
            if i > 0 {
                assert(out[i] == s[i - 1] && out[i + 1] == s[i]);
            }
        }
    } else {
        let sub = s.subrange(1, s.len() as int);
        assert(forall|j: int| 1 <= j < s.len() ==> s[j] == sub[j - 1]);
        lemma_insert_sorted_keeps_sorted(x, sub);
        let inner = insert_sorted(x, sub);
        let out = seq![s[0]] + inner;
        lemma_lex_total(x, s[0]);
        assert forall|i: int| 0 <= i < out.len() - 1 implies lex_le(#[trigger] out[i], out[i + 1]) by {
            if i == 0 {
                if sub.len() == 0 {
                    assert(inner == seq![x]);
                    assert(out[1] == x);
                } else if lex_lt(x, sub[0]) {
                    assert(inner == seq![x] + sub);
                    assert(out[1] == x);
                } else {
                    assert(inner == seq![sub[0]] + insert_sorted(x, sub.subrange(1, sub.len() as int)));
                    assert(out[1] == sub[0]);
                    assert(lex_le(s[0], s[1]));
                }
            } else {
                assert(out[i] == inner[i - 1] && out[i + 1] == inner[i]);
            }
        }
    }
}

proof fn lemma_insert_sorted_multiset(x: Seq<char>, s: Seq<Seq<char>>)
    ensures
        insert_sorted(x, s).to_multiset() == s.to_multiset().insert(x),
    decreases s.len(),
{
    broadcast use vstd::seq_lib::group_to_multiset_ensures;

    if s.len() == 0 {
        assert(insert_sorted(x, s) =~= Seq::<Seq<char>>::empty().push(x));
    } else if lex_lt(x, s[0]) {
        assert(insert_sorted(x, s) =~= s.insert(0, x));
        vstd::seq_lib::to_multiset_insert(s, 0, x);
    } else {
        let sub = s.subrange(1, s.len() as int);
        lemma_insert_sorted_multiset(x, sub);
        let inner = insert_sorted(x, sub);
        assert(seq![s[0]] + inner =~= inner.insert(0, s[0]));
        vstd::seq_lib::to_multiset_insert(inner, 0, s[0]);
        assert(s =~= sub.insert(0, s[0]));
        vstd::seq_lib::to_multiset_insert(sub, 0, s[0]);
        assert(sub.to_multiset().insert(x).insert(s[0]) =~= sub.to_multiset().insert(
            s[0],
        ).insert(x));
    }
}

/// What sorting promises beyond its exact result: the output is ordered
/// and holds exactly the input's strings.
pub proof fn lemma_sort_views_properties(s: Seq<Seq<char>>)
    ensures
        sorted_le(sort_views(s)),
        sort_views(s).to_multiset() == s.to_multiset(),
    decreases s.len(),
{
    broadcast use vstd::seq_lib::group_to_multiset_ensures;

    if s.len() > 0 {
        lemma_sort_views_properties(s.drop_last());
        lemma_insert_sorted_keeps_sorted(s.last(), sort_views(s.drop_last()));
        lemma_insert_sorted_multiset(s.last(), sort_views(s.drop_last()));
        assert(s =~= s.drop_last().push(s.last()));
    }
}

/// Inserts a string into an output list kept in sorted order.
fn insert_string_sorted(out: &mut Vec<String>, x: String)
    ensures
        string_views(final (out)@) == insert_sorted(x@, string_views(old(out)@)),
{
    let ghost prev = string_views(out@);
    let mut idx: usize = 0;
    while idx < out.len() && !str_lt(&x, &out[idx])
        invariant
            prev == string_views(out@),
            idx <= out@.len(),
            forall|j: int| 0 <= j < idx ==> !lex_lt(x@, #[trigger] prev[j]),
        decreases out@.len() - idx,
    {
        proof {
            assert(prev[idx as int] == out@[idx as int]@);
        }
        idx += 1;
    }
    proof {
        if idx < out@.len() {
            assert(prev[idx as int] == out@[idx as int]@);
        }
        lemma_insert_sorted_shape(x@, prev, idx as int);
    }
    out.insert(idx, x);
    proof {
        assert(string_views(out@) =~= prev.subrange(0, idx as int) + seq![x@] + prev.subrange(
            idx as int,
            prev.len() as int,
        ));
    }
}

/// Sorts a list of strings in code-point order by insertion.
pub fn sort_strings(xs: &Vec<String>) -> (out: Vec<String>)
    ensures
        string_views(out@) == sort_views(string_views(xs@)),
{
    let ghost views = string_views(xs@);
    let mut out: Vec<String> = Vec::new();
    proof {
        assert(string_views(out@) =~= views.subrange(0, 0));
    }
    let mut i: usize = 0;
    while i < xs.len()
        invariant
            views == string_views(xs@),
            i <= xs@.len(),
            string_views(out@) == sort_views(views.subrange(0, i as int)),
        decreases xs@.len() - i,
    {
        proof {
            let pre = views.subrange(0, i as int + 1);
            assert(pre.drop_last() =~= views.subrange(0, i as int));
            assert(pre.last() == views[i as int]);
            assert(views[i as int] == xs@[i as int]@);
        }
        insert_string_sorted(&mut out, xs[i].clone());
        i += 1;
    }
    proof {
        assert(views.subrange(0, views.len() as int) =~= views);
    }
    out
}

/// Copies an optional string.
pub fn dup_opt_string(x: &Option<String>) -> (out: Option<String>)
    ensures
        match x {
            Some(s) => out matches Some(t) && t@ == s@,
            None => out is None,
        },
{
    match x {
        Some(s) => Some(s.clone()),
        None => None,
    }
}

} // verus!
