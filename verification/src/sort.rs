//! Stable sorting by a key made of two texts and a number, compared in that
//! order (texts by code point, as `String` compares them).

use vstd::prelude::*;

use crate::text::{chars_eq, chars_lt, seq_lt};

verus! {

/// The view of a [`SortKey`].
pub type KeyView = (Seq<char>, Seq<char>, u128);

/// A sort key: compared by `primary`, then `secondary`, then `tiebreak`.
pub struct SortKey {
    pub primary: Vec<char>,
    pub secondary: Vec<char>,
    pub tiebreak: u128,
}

impl View for SortKey {
    type V = KeyView;

    open spec fn view(&self) -> KeyView {
        (self.primary@, self.secondary@, self.tiebreak)
    }
}

/// Strict order on keys.
pub open spec fn key_lt(a: KeyView, b: KeyView) -> bool {
    seq_lt(a.0, b.0) || (a.0 == b.0 && (seq_lt(a.1, b.1) || (a.1 == b.1 && a.2 < b.2)))
}

/// `s` with `x` inserted before the first element whose key is greater than
/// the key of `x`, that is after every element with an equal key.
pub open spec fn insert_by_key<T>(s: Seq<T>, x: T, key: spec_fn(T) -> KeyView) -> Seq<T>
    decreases s.len(),
{
    if s.len() == 0 {
        seq![x]
    } else if key_lt(key(x), key(s[0])) {
        seq![x] + s
    } else {
        seq![s[0]] + insert_by_key(s.drop_first(), x, key)
    }
}

/// `s` sorted by `key`, elements with equal keys in their order in `s`
/// (the order of a stable sort such as `slice::sort_by`).
pub open spec fn sort_by_key<T>(s: Seq<T>, key: spec_fn(T) -> KeyView) -> Seq<T>
    decreases s.len(),
{
    if s.len() == 0 {
        s
    } else {
        insert_by_key(sort_by_key(s.drop_last(), key), s.last(), key)
    }
}

/// The key of a pair: its first component.
pub open spec fn pair_key<T>() -> spec_fn((SortKey, T)) -> KeyView {
    |p: (SortKey, T)| p.0@
}

/// The second components of pairs.
pub open spec fn seconds<T>(s: Seq<(SortKey, T)>) -> Seq<T> {
    s.map_values(|p: (SortKey, T)| p.1)
}

/// `s` is ordered by `key`: no element has a greater key than a later one.
pub open spec fn sorted_by<T>(s: Seq<T>, key: spec_fn(T) -> KeyView) -> bool {
    forall|i: int, j: int| 0 <= i < j < s.len() ==> !key_lt(key(s[j]), key(s[i]))
}

// ---------------------------------------------------------------------------
// Order lemmas
// ---------------------------------------------------------------------------

pub proof fn lemma_seq_lt_irreflexive(a: Seq<char>)
    ensures
        !seq_lt(a, a),
    decreases a.len(),
{
    if a.len() > 0 {
        lemma_seq_lt_irreflexive(a.drop_first());
    }
}

pub proof fn lemma_seq_lt_trichotomy(a: Seq<char>, b: Seq<char>)
    ensures
        seq_lt(a, b) || seq_lt(b, a) || a == b,
        !(seq_lt(a, b) && seq_lt(b, a)),
    decreases a.len(),
{
    if a.len() > 0 && b.len() > 0 {
        if a[0] == b[0] {
            lemma_seq_lt_trichotomy(a.drop_first(), b.drop_first());
            if a.drop_first() == b.drop_first() {
                assert(a =~= seq![a[0]] + a.drop_first());
                assert(b =~= seq![b[0]] + b.drop_first());
            }
        }
    } else if a.len() == 0 && b.len() == 0 {
        assert(a =~= b);
    }
}

pub proof fn lemma_seq_lt_transitive(a: Seq<char>, b: Seq<char>, c: Seq<char>)
    requires
        seq_lt(a, b),
        seq_lt(b, c),
    ensures
        seq_lt(a, c),
    decreases a.len(),
{
    if a.len() > 0 && b.len() > 0 && c.len() > 0 {
        if a[0] == b[0] && b[0] == c[0] {
            lemma_seq_lt_transitive(a.drop_first(), b.drop_first(), c.drop_first());
        }
    }
}

pub proof fn lemma_key_lt_facts(a: KeyView, b: KeyView)
    ensures
        !key_lt(a, a),
        !(key_lt(a, b) && key_lt(b, a)),
        key_lt(a, b) || key_lt(b, a) || a == b,
{
    lemma_seq_lt_irreflexive(a.0);
    lemma_seq_lt_irreflexive(a.1);
    lemma_seq_lt_trichotomy(a.0, b.0);
    lemma_seq_lt_trichotomy(a.1, b.1);
}

pub proof fn lemma_key_lt_transitive(a: KeyView, b: KeyView, c: KeyView)
    requires
        key_lt(a, b),
        key_lt(b, c),
    ensures
        key_lt(a, c),
{
    lemma_seq_lt_trichotomy(a.0, b.0);
    lemma_seq_lt_trichotomy(b.0, c.0);
    lemma_seq_lt_trichotomy(a.1, b.1);
    lemma_seq_lt_trichotomy(b.1, c.1);
    if seq_lt(a.0, b.0) && seq_lt(b.0, c.0) {
        lemma_seq_lt_transitive(a.0, b.0, c.0);
    }
    if a.0 == b.0 && b.0 == c.0 && seq_lt(a.1, b.1) && seq_lt(b.1, c.1) {
        lemma_seq_lt_transitive(a.1, b.1, c.1);
    }
}

// ---------------------------------------------------------------------------
// Lemmas on the sort
// ---------------------------------------------------------------------------

proof fn lemma_insert_at<T>(s: Seq<T>, x: T, key: spec_fn(T) -> KeyView, j: int)
    requires
        0 <= j <= s.len(),
        forall|k: int| 0 <= k < j ==> !key_lt(key(x), key(#[trigger] s[k])),
        j < s.len() ==> key_lt(key(x), key(s[j])),
    ensures
        insert_by_key(s, x, key) == s.insert(j, x),
    decreases s.len(),
{
    if s.len() == 0 {
        assert(s.insert(j, x) =~= seq![x]);
    } else if j == 0 {
        assert(s.insert(0, x) =~= seq![x] + s);
    } else {
        let t = s.drop_first();
        assert forall|k: int| 0 <= k < j - 1 implies !key_lt(key(x), key(#[trigger] t[k])) by {
            assert(t[k] == s[k + 1]);
        }
        lemma_insert_at(t, x, key, j - 1);
        assert(s.insert(j, x) =~= seq![s[0]] + t.insert(j - 1, x));
    }
}

proof fn lemma_insert_len<T>(s: Seq<T>, x: T, key: spec_fn(T) -> KeyView)
    ensures
        insert_by_key(s, x, key).len() == s.len() + 1,
        insert_by_key(s, x, key).to_multiset() == s.to_multiset().insert(x),
    decreases s.len(),
{
    broadcast use vstd::multiset::group_multiset_axioms, vstd::seq_lib::group_to_multiset_ensures;

    if s.len() == 0 {
        assert(seq![x] =~= Seq::<T>::empty().push(x));
        assert(s =~= Seq::<T>::empty());
    } else if key_lt(key(x), key(s[0])) {
        vstd::seq_lib::lemma_multiset_commutative(seq![x], s);
        assert(seq![x] =~= Seq::<T>::empty().push(x));
    } else {
        lemma_insert_len(s.drop_first(), x, key);
        vstd::seq_lib::lemma_multiset_commutative(
            seq![s[0]],
            insert_by_key(s.drop_first(), x, key),
        );
        vstd::seq_lib::lemma_multiset_commutative(seq![s[0]], s.drop_first());
        assert(seq![s[0]] + s.drop_first() =~= s);
        assert(seq![s[0]] =~= Seq::<T>::empty().push(s[0]));
    }
}

proof fn lemma_insert_after_all<T>(s: Seq<T>, x: T, key: spec_fn(T) -> KeyView)
    requires
        forall|k: int| 0 <= k < s.len() ==> !key_lt(key(x), #[trigger] key(s[k])),
    ensures
        insert_by_key(s, x, key) == s.push(x),
    decreases s.len(),
{
    if s.len() > 0 {
        assert(!key_lt(key(x), key(s[0])));
        assert forall|k: int| 0 <= k < s.drop_first().len() implies !key_lt(
            key(x),
            #[trigger] key(s.drop_first()[k]),
        ) by {
            assert(s.drop_first()[k] == s[k + 1]);
        }
        lemma_insert_after_all(s.drop_first(), x, key);
        assert(seq![s[0]] + s.drop_first().push(x) =~= s.push(x));
    }
}

/// Sorting a sequence that is already ordered leaves it as it is.
pub proof fn lemma_sort_of_sorted<T>(s: Seq<T>, key: spec_fn(T) -> KeyView)
    requires
        sorted_by(s, key),
    ensures
        sort_by_key(s, key) == s,
    decreases s.len(),
{
    if s.len() > 0 {
        let u = s.drop_last();
        assert(sorted_by(u, key)) by {
            assert forall|i: int, j: int| 0 <= i < j < u.len() implies !key_lt(key(u[j]), key(u[i])) by {
                assert(u[i] == s[i] && u[j] == s[j]);
            }
        }
        lemma_sort_of_sorted(u, key);
        assert forall|k: int| 0 <= k < u.len() implies !key_lt(key(s.last()), #[trigger] key(u[k])) by {
            assert(u[k] == s[k]);
            assert(s.last() == s[s.len() - 1]);
        }
        lemma_insert_after_all(u, s.last(), key);
        assert(u.push(s.last()) =~= s);
    }
}

/// A stable sort keeps the elements: the result is a permutation.
pub proof fn lemma_sort_permutation<T>(s: Seq<T>, key: spec_fn(T) -> KeyView)
    ensures
        sort_by_key(s, key).len() == s.len(),
        sort_by_key(s, key).to_multiset() == s.to_multiset(),
    decreases s.len(),
{
    broadcast use vstd::multiset::group_multiset_axioms, vstd::seq_lib::group_to_multiset_ensures;

    if s.len() > 0 {
        lemma_sort_permutation(s.drop_last(), key);
        lemma_insert_len(sort_by_key(s.drop_last(), key), s.last(), key);
        assert(s.drop_last().push(s.last()) =~= s);
    }
}

proof fn lemma_insert_sorted<T>(s: Seq<T>, x: T, key: spec_fn(T) -> KeyView)
    requires
        sorted_by(s, key),
    ensures
        sorted_by(insert_by_key(s, x, key), key),
        forall|i: int|
            0 <= i < insert_by_key(s, x, key).len() ==> {
                let e = #[trigger] insert_by_key(s, x, key)[i];
                e == x || s.contains(e)
            },
    decreases s.len(),
{
    let r = insert_by_key(s, x, key);
    if s.len() == 0 {
    } else if key_lt(key(x), key(s[0])) {
        assert forall|i: int, j: int| 0 <= i < j < r.len() implies !key_lt(
            key(r[j]),
            key(r[i]),
        ) by {
            if i == 0 {
                lemma_key_lt_facts(key(x), key(s[j - 1]));
                lemma_key_lt_facts(key(s[0]), key(s[j - 1]));
                if j - 1 > 0 {
                    assert(!key_lt(key(s[j - 1]), key(s[0])));
                }
                if key_lt(key(s[j - 1]), key(x)) {
                    lemma_key_lt_transitive(key(s[j - 1]), key(x), key(s[0]));
                    if j - 1 == 0 {
                        lemma_key_lt_facts(key(s[0]), key(s[0]));
                    }
                }
            }
        }
        assert forall|i: int| 0 <= i < r.len() implies {
            let e = #[trigger] r[i];
            e == x || s.contains(e)
        } by {
            if i > 0 {
                assert(r[i] == s[i - 1]);
            }
        }
    } else {
        let t = s.drop_first();
        assert(sorted_by(t, key)) by {
            assert forall|i: int, j: int| 0 <= i < j < t.len() implies !key_lt(
                key(t[j]),
                key(t[i]),
            ) by {
                assert(t[i] == s[i + 1] && t[j] == s[j + 1]);
            }
        }
        lemma_insert_sorted(t, x, key);
        let rt = insert_by_key(t, x, key);
        assert forall|i: int, j: int| 0 <= i < j < r.len() implies !key_lt(
            key(r[j]),
            key(r[i]),
        ) by {
            if i == 0 {
                let e = rt[j - 1];
                assert(r[j] == e);
                if e == x {
                    lemma_key_lt_facts(key(x), key(s[0]));
                } else {
                    let k = choose|k: int| 0 <= k < t.len() && t[k] == e;
                    assert(t[k] == s[k + 1]);
                }
            } else {
                assert(r[i] == rt[i - 1] && r[j] == rt[j - 1]);
            }
        }
        assert forall|i: int| 0 <= i < r.len() implies {
            let e = #[trigger] r[i];
            e == x || s.contains(e)
        } by {
            if i == 0 {
                assert(s[0] == r[0]);
            } else {
                let e = rt[i - 1];
                assert(r[i] == e);
                if e != x {
                    let k = choose|k: int| 0 <= k < t.len() && t[k] == e;
                    assert(s[k + 1] == e);
                }
            }
        }
    }
}

/// A stable sort orders its result by the key.
pub proof fn lemma_sort_sorted<T>(s: Seq<T>, key: spec_fn(T) -> KeyView)
    ensures
        sorted_by(sort_by_key(s, key), key),
    decreases s.len(),
{
    if s.len() > 0 {
        lemma_sort_sorted(s.drop_last(), key);
        lemma_insert_sorted(sort_by_key(s.drop_last(), key), s.last(), key);
    }
}

proof fn lemma_insert_seconds<T>(
    s: Seq<(SortKey, T)>,
    x: (SortKey, T),
    key: spec_fn(T) -> KeyView,
)
    requires
        forall|k: int| 0 <= k < s.len() ==> (#[trigger] s[k]).0@ == key(s[k].1),
        x.0@ == key(x.1),
    ensures
        seconds(insert_by_key(s, x, pair_key())) == insert_by_key(seconds(s), x.1, key),
    decreases s.len(),
{
    if s.len() == 0 {
        assert(seconds(seq![x]) =~= seq![x.1]);
    } else {
        let t = s.drop_first();
        assert(seconds(s)[0] == s[0].1);
        assert(seconds(s).drop_first() =~= seconds(t));
        if key_lt(x.0@, s[0].0@) {
            assert(seconds(seq![x] + s) =~= seq![x.1] + seconds(s));
        } else {
            assert forall|k: int| 0 <= k < t.len() implies (#[trigger] t[k]).0@ == key(t[k].1) by {
                assert(t[k] == s[k + 1]);
            }
            lemma_insert_seconds(t, x, key);
            assert(seconds(seq![s[0]] + insert_by_key(t, x, pair_key())) =~= seq![s[0].1]
                + seconds(insert_by_key(t, x, pair_key())));
        }
    }
}

proof fn lemma_insert_keys<T>(s: Seq<(SortKey, T)>, x: (SortKey, T), key: spec_fn(T) -> KeyView)
    requires
        forall|k: int| 0 <= k < s.len() ==> (#[trigger] s[k]).0@ == key(s[k].1),
        x.0@ == key(x.1),
    ensures
        forall|k: int|
            0 <= k < insert_by_key(s, x, pair_key()).len() ==> (#[trigger] insert_by_key(
                s,
                x,
                pair_key(),
            )[k]).0@ == key(insert_by_key(s, x, pair_key())[k].1),
    decreases s.len(),
{
    if s.len() > 0 && !key_lt(x.0@, s[0].0@) {
        let t = s.drop_first();
        assert forall|k: int| 0 <= k < t.len() implies (#[trigger] t[k]).0@ == key(t[k].1) by {
            assert(t[k] == s[k + 1]);
        }
        lemma_insert_keys(t, x, key);
        let r = insert_by_key(s, x, pair_key());
        let rt = insert_by_key(t, x, pair_key());
        assert forall|k: int| 0 <= k < r.len() implies (#[trigger] r[k]).0@ == key(r[k].1) by {
            if k > 0 {
                assert(r[k] == rt[k - 1]);
            }
        }
    } else if s.len() > 0 {
        let r = insert_by_key(s, x, pair_key());
        assert forall|k: int| 0 <= k < r.len() implies (#[trigger] r[k]).0@ == key(r[k].1) by {
            if k > 0 {
                assert(r[k] == s[k - 1]);
            }
        }
    }
}

/// Sorting pairs by their first component, when that is the key of their
/// second, sorts the second components by that key.
pub proof fn lemma_sort_seconds<T>(s: Seq<(SortKey, T)>, key: spec_fn(T) -> KeyView)
    requires
        forall|k: int| 0 <= k < s.len() ==> (#[trigger] s[k]).0@ == key(s[k].1),
    ensures
        seconds(sort_by_key(s, pair_key())) == sort_by_key(seconds(s), key),
        forall|k: int|
            0 <= k < sort_by_key(s, pair_key()).len() ==> (#[trigger] sort_by_key(
                s,
                pair_key(),
            )[k]).0@ == key(sort_by_key(s, pair_key())[k].1),
    decreases s.len(),
{
    if s.len() > 0 {
        let init = s.drop_last();
        assert forall|k: int| 0 <= k < init.len() implies (#[trigger] init[k]).0@ == key(
            init[k].1,
        ) by {
            assert(init[k] == s[k]);
        }
        lemma_sort_seconds(init, key);
        assert(seconds(s).drop_last() =~= seconds(init));
        assert(seconds(s).last() == s.last().1);
        let sorted_init = sort_by_key(init, pair_key());
        lemma_insert_seconds(sorted_init, s.last(), key);
        lemma_insert_keys(sorted_init, s.last(), key);
    } else {
        assert(seconds(s) =~= Seq::<T>::empty());
    }
}

/// One step of `Seq::filter`: the last element is kept when it passes.
pub proof fn lemma_filter_step<T>(s: Seq<T>, p: spec_fn(T) -> bool)
    requires
        s.len() > 0,
    ensures
        s.filter(p) == (if p(s.last()) {
            s.drop_last().filter(p).push(s.last())
        } else {
            s.drop_last().filter(p)
        }),
{
    reveal(Seq::filter);
}

/// The filter keeps exactly the elements that pass.
pub proof fn lemma_filter_members<T>(s: Seq<T>, p: spec_fn(T) -> bool)
    ensures
        forall|x: T| s.filter(p).contains(x) <==> (s.contains(x) && p(x)),
{
    broadcast use vstd::seq_lib::group_filter_ensures;

    assert forall|x: T| s.filter(p).contains(x) <==> (s.contains(x) && p(x)) by {
        if s.filter(p).contains(x) {
            s.lemma_filter_contains_rev(p, x);
            let k = choose|k: int| 0 <= k < s.filter(p).len() && s.filter(p)[k] == x;
            s.lemma_filter_pred(p, k);
        }
        if s.contains(x) && p(x) {
            let k = choose|k: int| 0 <= k < s.len() && s[k] == x;
            s.lemma_filter_contains(p, k);
        }
    }
}

/// No two elements of `s` agree on `f`.
pub open spec fn distinct_by<T, K>(s: Seq<T>, f: spec_fn(T) -> K) -> bool {
    forall|i: int, j: int| 0 <= i < j < s.len() ==> f(s[i]) != f(s[j])
}

proof fn lemma_insert_members<T>(s: Seq<T>, x: T, key: spec_fn(T) -> KeyView)
    ensures
        forall|i: int|
            0 <= i < insert_by_key(s, x, key).len() ==> {
                let e = #[trigger] insert_by_key(s, x, key)[i];
                e == x || s.contains(e)
            },
    decreases s.len(),
{
    let r = insert_by_key(s, x, key);
    if s.len() > 0 {
        if key_lt(key(x), key(s[0])) {
            assert forall|i: int| 0 <= i < r.len() implies {
                let e = #[trigger] r[i];
                e == x || s.contains(e)
            } by {
                if i > 0 {
                    assert(r[i] == s[i - 1]);
                }
            }
        } else {
            let t = s.drop_first();
            lemma_insert_members(t, x, key);
            let rt = insert_by_key(t, x, key);
            assert forall|i: int| 0 <= i < r.len() implies {
                let e = #[trigger] r[i];
                e == x || s.contains(e)
            } by {
                if i == 0 {
                    assert(s[0] == r[0]);
                } else {
                    assert(r[i] == rt[i - 1]);
                    if rt[i - 1] != x {
                        let k = choose|k: int| 0 <= k < t.len() && t[k] == rt[i - 1];
                        assert(s[k + 1] == t[k]);
                    }
                }
            }
        }
    }
}

/// Every element of a sorted sequence comes from the input.
pub proof fn lemma_sort_members<T>(s: Seq<T>, key: spec_fn(T) -> KeyView)
    ensures
        forall|i: int|
            0 <= i < sort_by_key(s, key).len() ==> s.contains(#[trigger] sort_by_key(s, key)[i]),
    decreases s.len(),
{
    if s.len() > 0 {
        let init = s.drop_last();
        lemma_sort_members(init, key);
        let si = sort_by_key(init, key);
        lemma_insert_members(si, s.last(), key);
        let r = sort_by_key(s, key);
        assert forall|i: int| 0 <= i < r.len() implies s.contains(#[trigger] r[i]) by {
            let e = r[i];
            if e == s.last() {
                assert(s[s.len() - 1] == e);
            } else {
                let k = choose|k: int| 0 <= k < si.len() && si[k] == e;
                let m = choose|m: int| 0 <= m < init.len() && init[m] == si[k];
                assert(s[m] == e);
            }
        }
    }
}

/// A sort keeps every element of its input.
pub proof fn lemma_sort_contains<T>(s: Seq<T>, key: spec_fn(T) -> KeyView)
    ensures
        forall|x: T| sort_by_key(s, key).contains(x) <==> s.contains(x),
{
    broadcast use vstd::seq_lib::group_to_multiset_ensures;

    lemma_sort_permutation(s, key);
    assert forall|x: T| sort_by_key(s, key).contains(x) <==> s.contains(x) by {
        assert(sort_by_key(s, key).to_multiset().count(x) == s.to_multiset().count(x));
    }
}

proof fn lemma_insert_distinct<T, K>(
    s: Seq<T>,
    x: T,
    key: spec_fn(T) -> KeyView,
    f: spec_fn(T) -> K,
)
    requires
        distinct_by(s, f),
        forall|k: int| 0 <= k < s.len() ==> f(#[trigger] s[k]) != f(x),
    ensures
        distinct_by(insert_by_key(s, x, key), f),
    decreases s.len(),
{
    let r = insert_by_key(s, x, key);
    if s.len() > 0 {
        if key_lt(key(x), key(s[0])) {
            assert forall|i: int, j: int| 0 <= i < j < r.len() implies f(r[i]) != f(r[j]) by {
                assert(r[j] == s[j - 1]);
                if i > 0 {
                    assert(r[i] == s[i - 1]);
                }
            }
        } else {
            let t = s.drop_first();
            assert forall|k: int| 0 <= k < t.len() implies f(#[trigger] t[k]) != f(x) by {
                assert(t[k] == s[k + 1]);
            }
            assert(distinct_by(t, f)) by {
                assert forall|i: int, j: int| 0 <= i < j < t.len() implies f(t[i]) != f(t[j]) by {
                    assert(t[i] == s[i + 1] && t[j] == s[j + 1]);
                }
            }
            lemma_insert_distinct(t, x, key, f);
            lemma_insert_members(t, x, key);
            let rt = insert_by_key(t, x, key);
            assert forall|i: int, j: int| 0 <= i < j < r.len() implies f(r[i]) != f(r[j]) by {
                assert(r[j] == rt[j - 1]);
                if i == 0 {
                    assert(r[0] == s[0]);
                    if rt[j - 1] == x {
                    } else {
                        let k = choose|k: int| 0 <= k < t.len() && t[k] == rt[j - 1];
                        assert(t[k] == s[k + 1]);
                    }
                } else {
                    assert(r[i] == rt[i - 1]);
                }
            }
        }
    }
}

/// A sort keeps elements that differ on `f` apart.
pub proof fn lemma_sort_distinct<T, K>(
    s: Seq<T>,
    key: spec_fn(T) -> KeyView,
    f: spec_fn(T) -> K,
)
    requires
        distinct_by(s, f),
    ensures
        distinct_by(sort_by_key(s, key), f),
    decreases s.len(),
{
    if s.len() > 0 {
        let init = s.drop_last();
        assert(distinct_by(init, f)) by {
            assert forall|i: int, j: int| 0 <= i < j < init.len() implies f(init[i]) != f(
                init[j],
            ) by {
                assert(init[i] == s[i] && init[j] == s[j]);
            }
        }
        lemma_sort_distinct(init, key, f);
        lemma_sort_members(init, key);
        let si = sort_by_key(init, key);
        assert forall|k: int| 0 <= k < si.len() implies f(#[trigger] si[k]) != f(s.last()) by {
            let m = choose|m: int| 0 <= m < init.len() && init[m] == si[k];
            assert(s[m] == init[m]);
            assert(s[s.len() - 1] == s.last());
        }
        lemma_insert_distinct(si, s.last(), key, f);
    }
}

// ---------------------------------------------------------------------------
// Executable sort
// ---------------------------------------------------------------------------

/// Whether key `a` orders strictly before key `b`.
pub fn key_less(a: &SortKey, b: &SortKey) -> (res: bool)
    ensures
        res == key_lt(a@, b@),
{
    if chars_lt(&a.primary, &b.primary) {
        return true;
    }
    if !chars_eq(&a.primary, &b.primary) {
        return false;
    }
    if chars_lt(&a.secondary, &b.secondary) {
        return true;
    }
    if !chars_eq(&a.secondary, &b.secondary) {
        return false;
    }
    a.tiebreak < b.tiebreak
}

/// Sorts `items` by their keys, stably (insertion sort).
pub fn sort_keyed<T>(items: Vec<(SortKey, T)>) -> (res: Vec<(SortKey, T)>)
    ensures
        res@ == sort_by_key(items@, pair_key()),
{
    let mut pending = items;
    let total = pending.len();
    let ghost all = pending@;
    let mut done: Vec<(SortKey, T)> = Vec::new();
    let mut count: usize = 0;
    while pending.len() > 0
        invariant
            count + pending@.len() == all.len(),
            all.len() == total,
            pending@ == all.skip(count as int),
            done@ == sort_by_key(all.take(count as int), pair_key()),
        decreases pending@.len(),
    {
        let item = pending.remove(0);
        let mut j: usize = 0;
        while j < done.len() && !key_less(&item.0, &done[j].0)
            invariant
                j <= done@.len(),
                forall|k: int|
                    0 <= k < j ==> !key_lt(
                        (pair_key::<T>())(item),
                        (pair_key::<T>())(#[trigger] done@[k]),
                    ),
            decreases done@.len() - j,
        {
            j = j + 1;
        }
        proof {
            lemma_insert_at(done@, item, pair_key(), j as int);
            let next = all.take(count + 1);
            assert(next.drop_last() =~= all.take(count as int));
            assert(next.last() == item);
        }
        done.insert(j, item);
        count = count + 1;
        assert(pending@ =~= all.skip(count as int));
    }
    assert(all.take(count as int) =~= all);
    done
}

/// The second components of `pairs`, in order.
pub fn take_seconds<T>(pairs: Vec<(SortKey, T)>) -> (res: Vec<T>)
    ensures
        res@ == seconds(pairs@),
{
    let mut pending = pairs;
    let total = pending.len();
    let ghost all = pending@;
    let mut out: Vec<T> = Vec::new();
    let mut count: usize = 0;
    while pending.len() > 0
        invariant
            count + pending@.len() == all.len(),
            all.len() == total,
            pending@ == all.skip(count as int),
            out@ == seconds(all.take(count as int)),
        decreases pending@.len(),
    {
        let item = pending.remove(0);
        out.push(item.1);
        proof {
            assert(seconds(all.take(count + 1)) =~= seconds(all.take(count as int)).push(item.1));
        }
        count = count + 1;
        assert(pending@ =~= all.skip(count as int));
    }
    assert(all.take(count as int) =~= all);
    out
}

/// The views of the elements of `s`.
pub open spec fn view_seq<T: View>(s: Seq<T>) -> Seq<T::V> {
    s.map_values(|t: T| t@)
}

proof fn lemma_insert_views<T: View>(
    s: Seq<T>,
    x: T,
    key: spec_fn(T::V) -> KeyView,
    kexec: spec_fn(T) -> KeyView,
)
    requires
        forall|t: T| #[trigger] kexec(t) == key(t@),
    ensures
        view_seq(insert_by_key(s, x, kexec)) == insert_by_key(view_seq(s), x@, key),
    decreases s.len(),
{
    assert(kexec(x) == key(x@));
    if s.len() == 0 {
        assert(view_seq(seq![x]) =~= seq![x@]);
    } else {
        assert(kexec(s[0]) == key(s[0]@));
        assert(view_seq(s)[0] == s[0]@);
        assert(view_seq(s).drop_first() =~= view_seq(s.drop_first()));
        if key_lt(kexec(x), kexec(s[0])) {
            assert(view_seq(seq![x] + s) =~= seq![x@] + view_seq(s));
        } else {
            lemma_insert_views(s.drop_first(), x, key, kexec);
            assert(view_seq(seq![s[0]] + insert_by_key(s.drop_first(), x, kexec)) =~= seq![s[0]@]
                + view_seq(insert_by_key(s.drop_first(), x, kexec)));
        }
    }
}

/// Sorting by a key of the views commutes with taking views.
pub proof fn lemma_sort_views<T: View>(
    s: Seq<T>,
    key: spec_fn(T::V) -> KeyView,
    kexec: spec_fn(T) -> KeyView,
)
    requires
        forall|t: T| #[trigger] kexec(t) == key(t@),
    ensures
        view_seq(sort_by_key(s, kexec)) == sort_by_key(view_seq(s), key),
    decreases s.len(),
{
    if s.len() == 0 {
        assert(view_seq(s) =~= Seq::<T::V>::empty());
    } else {
        lemma_sort_views(s.drop_last(), key, kexec);
        assert(view_seq(s).drop_last() =~= view_seq(s.drop_last()));
        assert(view_seq(s).last() == s.last()@);
        lemma_insert_views(sort_by_key(s.drop_last(), kexec), s.last(), key, kexec);
    }
}

/// The key of an element as a function of its view.
pub open spec fn via_view<T: View>(key: spec_fn(T::V) -> KeyView) -> spec_fn(T) -> KeyView {
    |t: T| key(t@)
}

/// Sorts the second components of `pairs` by their keys, stably; each key
/// is `key` of the view of its element.
pub(crate) fn sort_by_view_key<T: View>(
    pairs: Vec<(SortKey, T)>,
    Ghost(key): Ghost<spec_fn(T::V) -> KeyView>,
) -> (res: Vec<T>)
    requires
        forall|k: int| 0 <= k < pairs@.len() ==> (#[trigger] pairs@[k]).0@ == key(pairs@[k].1@),
    ensures
        view_seq(res@) == sort_by_key(view_seq(seconds(pairs@)), key),
{
    let ghost kexec = via_view::<T>(key);
    proof {
        assert forall|k: int| 0 <= k < pairs@.len() implies (#[trigger] pairs@[k]).0@ == kexec(
            pairs@[k].1,
        ) by {}
        lemma_sort_seconds(pairs@, kexec);
        assert forall|t: T| #[trigger] kexec(t) == key(t@) by {}
        lemma_sort_views(seconds(pairs@), key, kexec);
    }
    let sorted = sort_keyed(pairs);
    take_seconds(sorted)
}

} // verus!
