//! Lexicographic order on texts (by code point, which for UTF-8 is the
//! order of `str`'s `Ord`), sorting lists of strings and removing
//! repeats from a sorted list.

use vstd::prelude::*;
use crate::admin::texts;

verus! {

broadcast use vstd::seq_lib::group_to_multiset_ensures;

/// `a` comes before `b` or equals it, comparing code points from the left
/// and ranking a proper prefix first.
pub open spec fn lex_le(a: Seq<char>, b: Seq<char>) -> bool
    decreases a.len(),
{
    if a.len() == 0 {
        true
    } else if b.len() == 0 {
        false
    } else if (a[0] as u32) < (b[0] as u32) {
        true
    } else if (a[0] as u32) > (b[0] as u32) {
        false
    } else {
        lex_le(a.drop_first(), b.drop_first())
    }
}

/// Every element is at most each later one.
pub open spec fn sorted(s: Seq<Seq<char>>) -> bool {
    forall|i: int, j: int| 0 <= i < j < s.len() ==> lex_le(#[trigger] s[i], #[trigger] s[j])
}

/// Sorted with no element repeated.
pub open spec fn strictly_sorted(s: Seq<Seq<char>>) -> bool {
    forall|i: int, j: int|
        0 <= i < j < s.len() ==> lex_le(#[trigger] s[i], #[trigger] s[j]) && s[i] != s[j]
}

/// The set of a sequence grows by the pushed element.
pub proof fn lemma_to_set_push(s: Seq<Seq<char>>, y: Seq<char>)
    ensures
        s.push(y).to_set() == s.to_set().insert(y),
{
    assert forall|x: Seq<char>| #[trigger] s.push(y).to_set().contains(x) <==> s.to_set().insert(
        y,
    ).contains(x) by {
        if s.push(y).contains(x) {
            let k = choose|k: int| 0 <= k < s.push(y).len() && s.push(y)[k] == x;
            if k < s.len() {
                assert(s[k] == x);
            }
        }
        if s.contains(x) {
            let k = choose|k: int| 0 <= k < s.len() && s[k] == x;
            assert(s.push(y)[k] == x);
        }
        if x == y {
            assert(s.push(y)[s.len() as int] == x);
        }
    }
    assert(s.push(y).to_set() =~= s.to_set().insert(y));
}

pub proof fn lemma_lex_total(a: Seq<char>, b: Seq<char>)
    ensures
        lex_le(a, b) || lex_le(b, a),
    decreases a.len(),
{
    if a.len() > 0 && b.len() > 0 && a[0] as u32 == b[0] as u32 {
        lemma_lex_total(a.drop_first(), b.drop_first());
    }
}

pub proof fn lemma_lex_antisymmetric(a: Seq<char>, b: Seq<char>)
    requires
        lex_le(a, b),
        lex_le(b, a),
    ensures
        a == b,
    decreases a.len(),
{
    if a.len() == 0 {
        assert(b.len() == 0);
        assert(a =~= b);
    } else {
        assert(b.len() > 0);
        assert(a[0] as u32 == b[0] as u32);
        lemma_lex_antisymmetric(a.drop_first(), b.drop_first());
        vstd::utf8::char_u32_cast(a[0], a[0] as u32);
        vstd::utf8::char_u32_cast(b[0], b[0] as u32);
        assert(a[0] == b[0]);
        assert(a =~= seq![a[0]] + a.drop_first());
        assert(b =~= seq![b[0]] + b.drop_first());
    }
}

pub proof fn lemma_lex_transitive(a: Seq<char>, b: Seq<char>, c: Seq<char>)
    requires
        lex_le(a, b),
        lex_le(b, c),
    ensures
        lex_le(a, c),
    decreases a.len(),
{
    if a.len() > 0 && b.len() > 0 && c.len() > 0 && a[0] as u32 == b[0] as u32 && b[0] as u32
        == c[0] as u32 {
        lemma_lex_transitive(a.drop_first(), b.drop_first(), c.drop_first());
    }
}

/// Whether `a` comes before `b` or equals it.
pub fn text_le(a: &str, b: &str) -> (res: bool)
    ensures
        res == lex_le(a@, b@),
{
    let x = crate::text::chars_of(a);
    let y = crate::text::chars_of(b);
    let mut i: usize = 0;
    assert(x@.skip(0) =~= x@);
    assert(y@.skip(0) =~= y@);
    while i < x.len() && i < y.len() && x[i] == y[i]
        invariant
            0 <= i <= x@.len(),
            i <= y@.len(),
            lex_le(a@, b@) == lex_le(x@.skip(i as int), y@.skip(i as int)),
            x@ == a@,
            y@ == b@,
        decreases x@.len() - i,
    {
        assert(x@.skip(i as int).drop_first() =~= x@.skip(i + 1));
        assert(y@.skip(i as int).drop_first() =~= y@.skip(i + 1));
        i += 1;
    }
    if i == x.len() {
        assert(x@.skip(i as int).len() == 0);
        return true;
    }
    if i == y.len() {
        return false;
    }
    assert(x@.skip(i as int)[0] == x@[i as int]);
    assert(y@.skip(i as int)[0] == y@[i as int]);
    proof {
        vstd::utf8::char_u32_cast(x@[i as int], x@[i as int] as u32);
        vstd::utf8::char_u32_cast(y@[i as int], y@[i as int] as u32);
    }
    (x[i] as u32) < (y[i] as u32)
}

/// The strings of `items`, sorted.
pub fn sort_strings(items: &Vec<String>) -> (res: Vec<String>)
    ensures
        sorted(texts(res@)),
        texts(res@).to_multiset() == texts(items@).to_multiset(),
{
    let mut out: Vec<String> = Vec::new();
    let mut i: usize = 0;
    assert(texts(items@.take(0)) =~= Seq::<Seq<char>>::empty());
    assert(texts(out@) =~= Seq::<Seq<char>>::empty());
    while i < items.len()
        invariant
            0 <= i <= items@.len(),
            sorted(texts(out@)),
            texts(out@).to_multiset() == texts(items@.take(i as int)).to_multiset(),
        decreases items@.len() - i,
    {
        let x = items[i].clone();
        let ghost before = texts(out@);
        let mut p: usize = 0;
        while p < out.len() && text_le(out[p].as_str(), x.as_str())
            invariant
                0 <= p <= out@.len(),
                before == texts(out@),
                forall|k: int| 0 <= k < p ==> lex_le(#[trigger] before[k], x@),
            decreases out@.len() - p,
        {
            p += 1;
        }
        proof {
            if p < out@.len() {
                lemma_lex_total(before[p as int], x@);
            }
        }
        out.insert(p, x);
        proof {
            let after = texts(out@);
            assert(after =~= before.insert(p as int, x@));
            assert(texts(items@.take(i + 1)) =~= texts(items@.take(i as int)).push(x@));
            assert forall|a: int, b: int| 0 <= a < b < after.len() implies lex_le(
                #[trigger] after[a],
                #[trigger] after[b],
            ) by {
                if b < p {
                    assert(after[a] == before[a] && after[b] == before[b]);
                } else if b == p {
                    assert(after[a] == before[a]);
                } else if a == p {
                    assert(after[b] == before[b - 1]);
                    if b - 1 > p {
                        assert(lex_le(before[p as int], before[b - 1]));
                        lemma_lex_transitive(x@, before[p as int], before[b - 1]);
                    }
                } else if a < p {
                    assert(after[a] == before[a] && after[b] == before[b - 1]);
                } else {
                    assert(after[a] == before[a - 1] && after[b] == before[b - 1]);
                }
            }
        }
        i += 1;
    }
    assert(items@.take(items@.len() as int) =~= items@);
    out
}

/// `items`, already sorted, with repeats removed.
pub fn dedup_sorted(items: &Vec<String>) -> (res: Vec<String>)
    requires
        sorted(texts(items@)),
    ensures
        strictly_sorted(texts(res@)),
        texts(res@).to_set() == texts(items@).to_set(),
{
    let ghost src = texts(items@);
    let mut out: Vec<String> = Vec::new();
    let mut i: usize = 0;
    while i < items.len()
        invariant
            0 <= i <= items@.len(),
            src == texts(items@),
            sorted(src),
            strictly_sorted(texts(out@)),
            texts(out@).to_set() == src.take(i as int).to_set(),
            i > 0 ==> out@.len() > 0 && texts(out@).last() == src[i - 1],
            i == 0 ==> out@.len() == 0,
            forall|k: int|
                0 <= k < out@.len() ==> exists|j: int|
                    0 <= j < i && #[trigger] src[j] == #[trigger] texts(out@)[k],
        decreases items@.len() - i,
    {
        let ghost before = texts(out@);
        let fresh = if out.len() == 0 {
            true
        } else {
            let last = out.len() - 1;
            !(out[last] == items[i])
        };
        assert(src.take(i + 1) =~= src.take(i as int).push(src[i as int]));
        if fresh {
            out.push(items[i].clone());
            proof {
                let after = texts(out@);
                assert(after =~= before.push(src[i as int]));
                assert forall|a: int, b: int| 0 <= a < b < after.len() implies lex_le(
                    #[trigger] after[a],
                    #[trigger] after[b],
                ) && after[a] != after[b] by {
                    if b == before.len() {
                        let j = choose|j: int| 0 <= j < i && #[trigger] src[j] == before[a];
                        assert(lex_le(src[j], src[i as int]));
                        if before[a] == src[i as int] {
                            let l = before.len() - 1;
                            let jl = choose|jl: int| 0 <= jl < i && #[trigger] src[jl] == before[l];
                            if a != l {
                                assert(lex_le(before[a], before[l]));
                                assert(lex_le(src[jl], src[i as int]));
                                lemma_lex_antisymmetric(before[a], before[l]);
                            }
                        }
                    } else {
                        assert(after[a] == before[a] && after[b] == before[b]);
                    }
                }
                assert forall|k: int| 0 <= k < after.len() implies exists|j: int|
                    0 <= j < i + 1 && #[trigger] src[j] == #[trigger] after[k] by {
                    if k < before.len() {
                        let j = choose|j: int| 0 <= j < i && #[trigger] src[j] == before[k];
                        assert(src[j] == after[k]);
                    } else {
                        assert(src[i as int] == after[k]);
                    }
                }
                lemma_to_set_push(before, src[i as int]);
                lemma_to_set_push(src.take(i as int), src[i as int]);
            }
        } else {
            proof {
                assert(src[i as int] == before.last());
                assert(before[before.len() - 1] == src[i as int]);
                assert(before.contains(src[i as int]));
                lemma_to_set_push(src.take(i as int), src[i as int]);
                assert(before.to_set().insert(src[i as int]) =~= before.to_set());
                assert forall|k: int| 0 <= k < before.len() implies exists|j: int|
                    0 <= j < i + 1 && #[trigger] src[j] == #[trigger] before[k] by {
                    let j = choose|j: int| 0 <= j < i && #[trigger] src[j] == before[k];
                    assert(src[j] == before[k]);
                }
            }
        }
        i += 1;
    }
    assert(src.take(items@.len() as int) =~= src);
    out
}

/// Two strictly sorted lists with the same elements are the same list:
/// the order fixes the list, so a contract that names the set pins the
/// result.
pub proof fn lemma_strictly_sorted_unique(a: Seq<Seq<char>>, b: Seq<Seq<char>>)
    requires
        strictly_sorted(a),
        strictly_sorted(b),
        a.to_set() == b.to_set(),
    ensures
        a == b,
    decreases a.len(),
{
    if a.len() == 0 {
        if b.len() > 0 {
            assert(b.to_set().contains(b[0]));
            assert(a.to_set().contains(b[0]));
        }
        assert(a =~= b);
    } else {
        assert(a.to_set().contains(a[0]));
        assert(b.to_set().contains(a[0]));
        assert(b.len() > 0);
        assert(b.to_set().contains(b[0]));
        assert(a.to_set().contains(b[0]));
        let j = choose|j: int| 0 <= j < b.len() && b[j] == a[0];
        let k = choose|k: int| 0 <= k < a.len() && a[k] == b[0];
        if k > 0 {
            assert(lex_le(a[0], a[k]));
        }
        if j > 0 {
            assert(lex_le(b[0], b[j]));
        }
        if k == 0 {
            assert(a[0] == b[0]);
        } else if j == 0 {
            assert(a[0] == b[0]);
        } else {
            lemma_lex_antisymmetric(a[0], b[0]);
        }
        let a1 = a.drop_first();
        let b1 = b.drop_first();
        assert forall|x: Seq<char>| #[trigger] a1.to_set().contains(x) <==> b1.to_set().contains(x) by {
            if a1.contains(x) {
                let p = choose|p: int| 0 <= p < a1.len() && a1[p] == x;
                assert(a[p + 1] == x);
                assert(x != a[0]);
                assert(a.to_set().contains(x));
                assert(b.contains(x));
                let q = choose|q: int| 0 <= q < b.len() && b[q] == x;
                assert(q != 0);
                assert(b1[q - 1] == x);
            }
            if b1.contains(x) {
                let p = choose|p: int| 0 <= p < b1.len() && b1[p] == x;
                assert(b[p + 1] == x);
                assert(x != b[0]);
                assert(b.to_set().contains(x));
                assert(a.contains(x));
                let q = choose|q: int| 0 <= q < a.len() && a[q] == x;
                assert(q != 0);
                assert(a1[q - 1] == x);
            }
        }
        assert(a1.to_set() =~= b1.to_set());
        assert forall|p: int, q: int| 0 <= p < q < a1.len() implies lex_le(
            #[trigger] a1[p],
            #[trigger] a1[q],
        ) && a1[p] != a1[q] by {
            assert(a1[p] == a[p + 1] && a1[q] == a[q + 1]);
        }
        assert forall|p: int, q: int| 0 <= p < q < b1.len() implies lex_le(
            #[trigger] b1[p],
            #[trigger] b1[q],
        ) && b1[p] != b1[q] by {
            assert(b1[p] == b[p + 1] && b1[q] == b[q + 1]);
        }
        lemma_strictly_sorted_unique(a1, b1);
        assert(a =~= seq![a[0]] + a1);
        assert(b =~= seq![b[0]] + b1);
    }
}

/// Two sorted lists with the same elements, counted with multiplicity,
/// are the same list.
pub proof fn lemma_sorted_unique(a: Seq<Seq<char>>, b: Seq<Seq<char>>)
    requires
        sorted(a),
        sorted(b),
        a.to_multiset() == b.to_multiset(),
    ensures
        a == b,
    decreases a.len(),
{
    broadcast use vstd::seq_lib::group_to_multiset_ensures;

    if a.len() == 0 {
        vstd::seq_lib::to_multiset_len(a);
        vstd::seq_lib::to_multiset_len(b);
        assert(b.len() == 0);
        assert(a =~= b);
    } else {
        vstd::seq_lib::to_multiset_len(a);
        vstd::seq_lib::to_multiset_len(b);
        assert(b.len() == a.len());
        assert(a.contains(a[0]));
        assert(b.contains(b[0]));
        vstd::seq_lib::to_multiset_contains(a, a[0]);
        vstd::seq_lib::to_multiset_contains(b, a[0]);
        vstd::seq_lib::to_multiset_contains(a, b[0]);
        vstd::seq_lib::to_multiset_contains(b, b[0]);
        assert(b.contains(a[0]));
        assert(a.contains(b[0]));
        let j = choose|j: int| 0 <= j < b.len() && b[j] == a[0];
        let k = choose|k: int| 0 <= k < a.len() && a[k] == b[0];
        if k == 0 {
            assert(a[0] == b[0]);
        } else if j == 0 {
            assert(a[0] == b[0]);
        } else {
            assert(lex_le(a[0], a[k]));
            assert(lex_le(b[0], b[j]));
            lemma_lex_antisymmetric(a[0], b[0]);
        }
        let a1 = a.drop_first();
        let b1 = b.drop_first();
        vstd::seq_lib::to_multiset_remove(a, 0);
        vstd::seq_lib::to_multiset_remove(b, 0);
        assert(a.remove(0) =~= a1);
        assert(b.remove(0) =~= b1);
        assert forall|p: int, q: int| 0 <= p < q < a1.len() implies lex_le(
            #[trigger] a1[p],
            #[trigger] a1[q],
        ) by {
            assert(a1[p] == a[p + 1] && a1[q] == a[q + 1]);
        }
        assert forall|p: int, q: int| 0 <= p < q < b1.len() implies lex_le(
            #[trigger] b1[p],
            #[trigger] b1[q],
        ) by {
            assert(b1[p] == b[p + 1] && b1[q] == b[q + 1]);
        }
        lemma_sorted_unique(a1, b1);
        assert(a =~= seq![a[0]] + a1);
        assert(b =~= seq![b[0]] + b1);
    }
}

} // verus!
