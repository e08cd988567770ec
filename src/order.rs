//! Lexicographic order on texts, and sorting a list of texts by it.
use vstd::prelude::*;
use vstd::string::*;

verus! {

/// `a` comes before or equals `b`, comparing characters by code point.
pub open spec fn lex_le(a: Seq<char>, b: Seq<char>) -> bool
    decreases a.len(),
{
    if a.len() == 0 {
        true
    } else if b.len() == 0 {
        false
    } else if a[0] != b[0] {
        a[0] < b[0]
    } else {
        lex_le(a.drop_first(), b.drop_first())
    }
}

/// Each text comes before or equals every later one.
pub open spec fn lex_sorted(s: Seq<Seq<char>>) -> bool {
    forall|i: int, j: int| 0 <= i < j < s.len() ==> lex_le(s[i], s[j])
}

pub proof fn lemma_lex_total(a: Seq<char>, b: Seq<char>)
    ensures
        lex_le(a, b) || lex_le(b, a),
    decreases a.len(),
{
    if a.len() > 0 && b.len() > 0 && a[0] == b[0] {
        lemma_lex_total(a.drop_first(), b.drop_first());
    }
}

pub proof fn lemma_lex_trans(a: Seq<char>, b: Seq<char>, c: Seq<char>)
    requires
        lex_le(a, b),
        lex_le(b, c),
    ensures
        lex_le(a, c),
    decreases a.len(),
{
    if a.len() > 0 && b.len() > 0 && c.len() > 0 && a[0] == b[0] && b[0] == c[0] {
        lemma_lex_trans(a.drop_first(), b.drop_first(), c.drop_first());
    }
}

/// Whether `a` comes before or equals `b`.
pub fn lex_le_text(a: &str, b: &str) -> (r: bool)
    ensures
        r == lex_le(a@, b@),
{
    let n = a.unicode_len();
    let m = b.unicode_len();
    let mut i: usize = 0;
    assert(a@.subrange(0, n as int) =~= a@);
    assert(b@.subrange(0, m as int) =~= b@);
    while i < n && i < m
        invariant
            n == a@.len(),
            m == b@.len(),
            i <= n,
            i <= m,
            lex_le(a@, b@) == lex_le(a@.subrange(i as int, n as int), b@.subrange(i as int, m as int)),
        decreases n - i,
    {
        let x = a.get_char(i);
        let y = b.get_char(i);
        if x != y {
            return x < y;
        }
        assert(a@.subrange(i as int, n as int).drop_first() =~= a@.subrange(i + 1, n as int));
        assert(b@.subrange(i as int, m as int).drop_first() =~= b@.subrange(i + 1, m as int));
        i = i + 1;
    }
    i == n
}

pub open spec fn texts_of(s: Seq<String>) -> Seq<Seq<char>> {
    s.map_values(|t: String| t@)
}

/// The texts sorted lexicographically: the same texts, as many, in order.
pub fn sort_texts(items: Vec<String>) -> (r: Vec<String>)
    ensures
        r@.len() == items@.len(),
        lex_sorted(texts_of(r@)),
        forall|x: Seq<char>| texts_of(r@).contains(x) <==> texts_of(items@).contains(x),
        texts_of(r@).to_multiset() == texts_of(items@).to_multiset(),
{
    let ghost all = texts_of(items@);
    let mut items = items;
    let mut r: Vec<String> = Vec::new();
    let total = items.len();
    let mut k: usize = 0;
    assert(all.take(0) =~= texts_of(r@));
    while items.len() > 0
        invariant
            total == all.len(),
            k <= total,
            items@.len() == total - k,
            texts_of(items@) == all.subrange(k as int, total as int),
            r@.len() == k,
            lex_sorted(texts_of(r@)),
            forall|x: Seq<char>| texts_of(r@).contains(x) <==> all.take(k as int).contains(x),
            texts_of(r@).to_multiset() == all.take(k as int).to_multiset(),
        decreases items.len(),
    {
        let ghost i0 = items@;
        let x = items.remove(0);
        assert(x@ == all[k as int]) by {
            assert(texts_of(i0)[0] == all[k as int]);
        }
        assert(texts_of(items@) =~= all.subrange(k + 1, total as int)) by {
            assert forall|j: int| 0 <= j < items@.len() implies texts_of(items@)[j] == all[k + 1 + j] by {
                assert(items@[j] == i0[j + 1]);
                assert(texts_of(i0)[j + 1] == all[k + 1 + j]);
            }
        }
        let mut p: usize = 0;
        while p < r.len() && !lex_le_text(x.as_str(), r[p].as_str())
            invariant
                p <= r@.len(),
                r@.len() == k,
                texts_of(r@).to_multiset() == all.take(k as int).to_multiset(),
                lex_sorted(texts_of(r@)),
                forall|y: Seq<char>| texts_of(r@).contains(y) <==> all.take(k as int).contains(y),
                forall|j: int| 0 <= j < p ==> !lex_le(x@, #[trigger] texts_of(r@)[j]),
            decreases r@.len() - p,
        {
            p = p + 1;
        }
        let ghost r0 = texts_of(r@);
        assert(forall|y: Seq<char>| r0.contains(y) <==> all.take(k as int).contains(y));
        assert(lex_sorted(r0));
        assert(r0.to_multiset() == all.take(k as int).to_multiset());
        r.insert(p, x);
        proof {
            let r1 = texts_of(r@);
            assert(r1 =~= r0.insert(p as int, x@));
            r0.insert_ensures(p as int, x@);
            broadcast use vstd::seq_lib::group_to_multiset_ensures;
            assert(r1.remove(p as int) =~= r0);
            assert(r1[p as int] == x@);
            assert(r1.contains(x@));
            assert(r1.to_multiset() =~= r0.to_multiset().insert(x@));
            assert(all.take(k + 1) =~= all.take(k as int).push(x@));
            assert forall|i: int, j: int| 0 <= i < j < r1.len() implies lex_le(r1[i], r1[j]) by {
                if i < p && j == p {
                    lemma_lex_total(x@, r0[i]);
                } else if i < p && j > p {
                    assert(lex_le(r0[i], r0[j - 1]));
                } else if i == p && j > p {
                    assert(lex_le(x@, r0[p as int]));
                    if j - 1 > p {
                        lemma_lex_trans(x@, r0[p as int], r0[j - 1]);
                    }
                } else if i < p && j < p {
                } else {
                    assert(lex_le(r0[i - 1], r0[j - 1]));
                }
            }
            assert forall|y: Seq<char>| r1.contains(y) <==> all.take(k + 1).contains(y) by {
                assert(all.take(k + 1) =~= all.take(k as int).push(x@));
                if r1.contains(y) {
                    let q = choose|q: int| 0 <= q < r1.len() && r1[q] == y;
                    if q < p {
                        assert(r0[q] == y);
                        assert(r0.contains(y));
                    } else if q > p {
                        assert(r0[q - 1] == y);
                        assert(r0.contains(y));
                    } else {
                        assert(all.take(k + 1)[k as int] == y);
                    }
                    if y != x@ {
                        assert(r0.contains(y));
                        assert(all.take(k as int).contains(y));
                        let q2 = choose|q2: int| 0 <= q2 < k && all.take(k as int)[q2] == y;
                        assert(all.take(k + 1)[q2] == y);
                    }
                }
                if all.take(k + 1).contains(y) {
                    if y == x@ {
                        assert(r1[p as int] == y);
                    } else {
                        assert(all.take(k as int).contains(y));
                        assert(r0.contains(y));
                        let q = choose|q: int| 0 <= q < r0.len() && r0[q] == y;
                        if q < p {
                            assert(r0.insert(p as int, x@)[q] == r0[q]);
                        } else {
                            assert(r0.insert(p as int, x@)[q + 1] == r0[q]);
                        }
                    }
                }
            }
        }
        k = k + 1;
    }
    assert(all.take(k as int) =~= all);
    r
}

} // verus!
