//! Keyed-row algebra shared by the store's tables.
//!
//! A table is a sequence of rows; every row carries a textual primary key,
//! read off by a `key` function. `upsert_by` is insert-or-update by that
//! key (full replace, first matching row), `find_by` is lookup by key, and
//! `upsert_all_by` folds a batch of upserts left to right.

use vstd::prelude::*;

verus! {

/// No two rows of the table share a primary key.
pub open spec fn unique_keys<T>(s: Seq<T>, key: spec_fn(T) -> Seq<char>) -> bool {
    forall|i: int, j: int| 0 <= i < j < s.len() ==> key(s[i]) != key(s[j])
}

/// Insert-or-update by primary key: the first row whose key equals `x`'s
/// is replaced by `x` wholesale; if none matches, `x` is appended.
pub open spec fn upsert_by<T>(s: Seq<T>, key: spec_fn(T) -> Seq<char>, x: T) -> Seq<T>
    decreases s.len(),
{
    if s.len() == 0 {
        seq![x]
    } else if key(s.first()) == key(x) {
        seq![x] + s.drop_first()
    } else {
        seq![s.first()] + upsert_by(s.drop_first(), key, x)
    }
}

/// The first row whose key equals `id`, if any.
pub open spec fn find_by<T>(s: Seq<T>, key: spec_fn(T) -> Seq<char>, id: Seq<char>) -> Option<T>
    decreases s.len(),
{
    if s.len() == 0 {
        None
    } else if key(s.first()) == id {
        Some(s.first())
    } else {
        find_by(s.drop_first(), key, id)
    }
}

/// Upserts every row of `xs` into `s`, in order.
pub open spec fn upsert_all_by<T>(s: Seq<T>, key: spec_fn(T) -> Seq<char>, xs: Seq<T>) -> Seq<T>
    decreases xs.len(),
{
    if xs.len() == 0 {
        s
    } else {
        upsert_by(upsert_all_by(s, key, xs.drop_last()), key, xs.last())
    }
}

/// A lookup that no key matches returns nothing.
pub proof fn lemma_find_by_none<T>(s: Seq<T>, key: spec_fn(T) -> Seq<char>, id: Seq<char>)
    requires
        forall|j: int| 0 <= j < s.len() ==> key(#[trigger] s[j]) != id,
    ensures
        find_by(s, key, id) is None,
    decreases s.len(),
{
    if s.len() > 0 {
        assert(key(s.first()) != id);
        lemma_find_by_none(s.drop_first(), key, id);
    }
}

/// A lookup whose first match sits at index `i` returns that row.
pub proof fn lemma_find_by_at<T>(s: Seq<T>, key: spec_fn(T) -> Seq<char>, id: Seq<char>, i: int)
    requires
        0 <= i < s.len(),
        key(s[i]) == id,
        forall|j: int| 0 <= j < i ==> key(#[trigger] s[j]) != id,
    ensures
        find_by(s, key, id) == Some(s[i]),
    decreases i,
{
    if i == 0 {
        assert(s.first() == s[0]);
    } else {
        assert(key(s.first()) != id);
        assert(s.drop_first()[i - 1] == s[i]);
        assert(forall|j: int| 0 <= j < i - 1 ==> key(#[trigger] s.drop_first()[j]) != id);
        lemma_find_by_at(s.drop_first(), key, id, i - 1);
    }
}

/// An upsert whose key is absent appends the row.
pub proof fn lemma_upsert_by_fresh<T>(s: Seq<T>, key: spec_fn(T) -> Seq<char>, x: T)
    requires
        forall|j: int| 0 <= j < s.len() ==> key(#[trigger] s[j]) != key(x),
    ensures
        upsert_by(s, key, x) == s.push(x),
    decreases s.len(),
{
    if s.len() == 0 {
        assert(upsert_by(s, key, x) =~= s.push(x));
    } else {
        assert(key(s.first()) != key(x));
        lemma_upsert_by_fresh(s.drop_first(), key, x);
        assert(seq![s.first()] + s.drop_first().push(x) =~= s.push(x));
    }
}

/// An upsert whose first matching key sits at index `i` replaces that row.
pub proof fn lemma_upsert_by_at<T>(s: Seq<T>, key: spec_fn(T) -> Seq<char>, x: T, i: int)
    requires
        0 <= i < s.len(),
        key(s[i]) == key(x),
        forall|j: int| 0 <= j < i ==> key(#[trigger] s[j]) != key(x),
    ensures
        upsert_by(s, key, x) == s.update(i, x),
    decreases i,
{
    if i == 0 {
        assert(seq![x] + s.drop_first() =~= s.update(0, x));
    } else {
        assert(key(s.first()) != key(x));
        assert(s.drop_first()[i - 1] == s[i]);
        assert(forall|j: int| 0 <= j < i - 1 ==> key(#[trigger] s.drop_first()[j]) != key(x));
        lemma_upsert_by_at(s.drop_first(), key, x, i - 1);
        assert(seq![s.first()] + s.drop_first().update(i - 1, x) =~= s.update(i, x));
    }
}

/// After an upsert, looking up `x`'s key yields `x`, and every other key
/// reads as before.
pub proof fn lemma_find_after_upsert<T>(
    s: Seq<T>,
    key: spec_fn(T) -> Seq<char>,
    x: T,
    id: Seq<char>,
)
    ensures
        id == key(x) ==> find_by(upsert_by(s, key, x), key, id) == Some(x),
        id != key(x) ==> find_by(upsert_by(s, key, x), key, id) == find_by(s, key, id),
    decreases s.len(),
{
    let u = upsert_by(s, key, x);
    if s.len() == 0 {
        assert(u == seq![x]);
        assert(u.len() == 1);
        assert(u.first() == x);
        if id != key(x) {
            assert(u.drop_first() =~= Seq::<T>::empty());
            assert(find_by(u, key, id) == find_by(u.drop_first(), key, id));
            assert(find_by(u.drop_first(), key, id) is None);
            assert(find_by(s, key, id) is None);
        }
    } else if key(s.first()) == key(x) {
        assert(u == seq![x] + s.drop_first());
        assert(u.len() == s.len());
        assert(u.first() == x);
        if id != key(x) {
            assert(u.drop_first() =~= s.drop_first());
            assert(find_by(u, key, id) == find_by(u.drop_first(), key, id));
            assert(find_by(s, key, id) == find_by(s.drop_first(), key, id));
        }
    } else {
        let inner = upsert_by(s.drop_first(), key, x);
        assert(u == seq![s.first()] + inner);
        assert(u.len() == inner.len() + 1);
        assert(u.first() == s.first());
        assert(u.drop_first() =~= inner);
        lemma_find_after_upsert(s.drop_first(), key, x, id);
        if id == key(s.first()) {
            assert(find_by(u, key, id) == Some(u.first()));
            assert(find_by(s, key, id) == Some(s.first()));
        } else {
            assert(find_by(u, key, id) == find_by(inner, key, id));
            assert(find_by(s, key, id) == find_by(s.drop_first(), key, id));
        }
    }
}

/// Upserting a row that already stands in the table, unchanged, changes
/// nothing.
pub proof fn lemma_upsert_self_noop<T>(s: Seq<T>, key: spec_fn(T) -> Seq<char>, x: T)
    requires
        find_by(s, key, key(x)) == Some(x),
    ensures
        upsert_by(s, key, x) == s,
    decreases s.len(),
{
    if key(s.first()) == key(x) {
        assert(s.first() == x);
        assert(seq![x] + s.drop_first() =~= s);
    } else {
        lemma_upsert_self_noop(s.drop_first(), key, x);
        assert(seq![s.first()] + s.drop_first() =~= s);
    }
}

/// Upserting the same row twice in a row leaves what the first upsert made.
pub proof fn lemma_upsert_by_idempotent<T>(s: Seq<T>, key: spec_fn(T) -> Seq<char>, x: T)
    ensures
        upsert_by(upsert_by(s, key, x), key, x) == upsert_by(s, key, x),
    decreases s.len(),
{
    let u = upsert_by(s, key, x);
    if s.len() == 0 {
        assert(u == seq![x]);
        assert(u.first() == x);
        assert(seq![x] + u.drop_first() =~= u);
    } else if key(s.first()) == key(x) {
        assert(u == seq![x] + s.drop_first());
        assert(u.first() == x);
        assert(seq![x] + u.drop_first() =~= u);
    } else {
        let inner = upsert_by(s.drop_first(), key, x);
        assert(u == seq![s.first()] + inner);
        assert(u.first() == s.first());
        assert(u.drop_first() =~= inner);
        lemma_upsert_by_idempotent(s.drop_first(), key, x);
        assert(seq![s.first()] + upsert_by(inner, key, x) =~= seq![s.first()] + inner);
    }
}

/// Every row of an upsert's result carries either the upserted key or a key
/// the table already had.
pub proof fn lemma_upsert_by_key_origin<T>(s: Seq<T>, key: spec_fn(T) -> Seq<char>, x: T)
    ensures
        forall|i: int|
            0 <= i < upsert_by(s, key, x).len() ==> key(#[trigger] upsert_by(s, key, x)[i]) == key(
                x,
            ) || exists|j: int| 0 <= j < s.len() && key(#[trigger] s[j]) == key(
                upsert_by(s, key, x)[i],
            ),
    decreases s.len(),
{
    let u = upsert_by(s, key, x);
    if s.len() == 0 {
    } else if key(s.first()) == key(x) {
        assert forall|i: int| 0 <= i < u.len() implies key(#[trigger] u[i]) == key(x) || exists|
            j: int,
        | 0 <= j < s.len() && key(#[trigger] s[j]) == key(u[i]) by {
            if i > 0 {
                assert(u[i] == s.drop_first()[i - 1]);
                assert(key(s[i]) == key(u[i]));
            }
        }
    } else {
        let inner = upsert_by(s.drop_first(), key, x);
        lemma_upsert_by_key_origin(s.drop_first(), key, x);
        assert forall|i: int| 0 <= i < u.len() implies key(#[trigger] u[i]) == key(x) || exists|
            j: int,
        | 0 <= j < s.len() && key(#[trigger] s[j]) == key(u[i]) by {
            if i == 0 {
                assert(u[0] == s.first());
                assert(key(s[0]) == key(u[0]));
            } else {
                assert(u[i] == inner[i - 1]);
                if key(inner[i - 1]) != key(x) {
                    let j = choose|j: int|
                        0 <= j < s.drop_first().len() && key(#[trigger] s.drop_first()[j]) == key(
                            inner[i - 1],
                        );
                    assert(s.drop_first()[j] == s[j + 1]);
                    assert(key(s[j + 1]) == key(u[i]));
                }
            }
        }
    }
}

/// An upsert keeps the table's keys pairwise distinct.
pub proof fn lemma_upsert_by_unique<T>(s: Seq<T>, key: spec_fn(T) -> Seq<char>, x: T)
    requires
        unique_keys(s, key),
    ensures
        unique_keys(upsert_by(s, key, x), key),
    decreases s.len(),
{
    let u = upsert_by(s, key, x);
    if s.len() == 0 {
    } else if key(s.first()) == key(x) {
        assert forall|i: int, j: int| 0 <= i < j < u.len() implies key(u[i]) != key(u[j]) by {
            assert(u[j] == s.drop_first()[j - 1]);
            assert(u[j] == s[j]);
            if i == 0 {
                assert(u[0] == x);
                assert(key(s[0]) != key(s[j]));
            } else {
                assert(u[i] == s[i]);
            }
        }
    } else {
        let inner = upsert_by(s.drop_first(), key, x);
        assert(forall|i: int, j: int|
            0 <= i < j < s.drop_first().len() ==> key(#[trigger] s.drop_first()[i]) != key(
                #[trigger] s.drop_first()[j],
            ));
        lemma_upsert_by_unique(s.drop_first(), key, x);
        lemma_upsert_by_key_origin(s.drop_first(), key, x);
        assert forall|i: int, j: int| 0 <= i < j < u.len() implies key(u[i]) != key(u[j]) by {
            assert(u[j] == inner[j - 1]);
            if i == 0 {
                assert(u[0] == s.first());
                if key(inner[j - 1]) == key(x) {
                    assert(key(u[0]) != key(u[j]));
                } else {
                    let m = choose|m: int|
                        0 <= m < s.drop_first().len() && key(#[trigger] s.drop_first()[m]) == key(
                            inner[j - 1],
                        );
                    assert(s.drop_first()[m] == s[m + 1]);
                    assert(key(s[0]) != key(s[m + 1]));
                }
            } else {
                assert(u[i] == inner[i - 1]);
            }
        }
    }
}

/// What a lookup returns is a row of the table.
pub proof fn lemma_find_by_contains<T>(s: Seq<T>, key: spec_fn(T) -> Seq<char>, id: Seq<char>)
    requires
        find_by(s, key, id) is Some,
    ensures
        s.contains(find_by(s, key, id)->Some_0),
    decreases s.len(),
{
    if key(s.first()) == id {
        assert(s[0] == s.first());
    } else {
        lemma_find_by_contains(s.drop_first(), key, id);
        let t = find_by(s.drop_first(), key, id)->Some_0;
        let j = choose|j: int| 0 <= j < s.drop_first().len() && s.drop_first()[j] == t;
        assert(s[j + 1] == t);
    }
}

/// In a table with pairwise-distinct keys, looking up a member row's key
/// yields that row.
pub proof fn lemma_find_by_of_member<T>(s: Seq<T>, key: spec_fn(T) -> Seq<char>, o: T)
    requires
        unique_keys(s, key),
        s.contains(o),
    ensures
        find_by(s, key, key(o)) == Some(o),
    decreases s.len(),
{
    let j = choose|j: int| 0 <= j < s.len() && s[j] == o;
    if key(s.first()) == key(o) {
        assert(key(s[0]) == key(s[j]));
        assert(j == 0);
    } else {
        assert(j >= 1);
        assert(s.drop_first()[j - 1] == o);
        assert(forall|i: int, m: int|
            0 <= i < m < s.drop_first().len() ==> key(#[trigger] s.drop_first()[i]) != key(
                #[trigger] s.drop_first()[m],
            ));
        lemma_find_by_of_member(s.drop_first(), key, o);
    }
}

/// Every row of an upsert's result is the upserted row or a row the table
/// already had.
pub proof fn lemma_upsert_by_row_origin<T>(s: Seq<T>, key: spec_fn(T) -> Seq<char>, x: T)
    ensures
        forall|j: int|
            0 <= j < upsert_by(s, key, x).len() ==> #[trigger] upsert_by(s, key, x)[j] == x
                || s.contains(upsert_by(s, key, x)[j]),
    decreases s.len(),
{
    let u = upsert_by(s, key, x);
    if s.len() == 0 {
    } else if key(s.first()) == key(x) {
        assert forall|j: int| 0 <= j < u.len() implies #[trigger] u[j] == x || s.contains(
            u[j],
        ) by {
            if j > 0 {
                assert(u[j] == s[j]);
            }
        }
    } else {
        let inner = upsert_by(s.drop_first(), key, x);
        lemma_upsert_by_row_origin(s.drop_first(), key, x);
        assert forall|j: int| 0 <= j < u.len() implies #[trigger] u[j] == x || s.contains(
            u[j],
        ) by {
            if j == 0 {
                assert(u[0] == s[0]);
            } else {
                assert(u[j] == inner[j - 1]);
                if inner[j - 1] != x {
                    let m = choose|m: int|
                        0 <= m < s.drop_first().len() && s.drop_first()[m] == inner[j - 1];
                    assert(s[m + 1] == u[j]);
                }
            }
        }
    }
}

/// Every row of a batch upsert's result is a batch row or a row the table
/// already had.
pub proof fn lemma_upsert_all_row_origin<T>(s: Seq<T>, key: spec_fn(T) -> Seq<char>, xs: Seq<T>)
    ensures
        forall|j: int|
            0 <= j < upsert_all_by(s, key, xs).len() ==> xs.contains(
                #[trigger] upsert_all_by(s, key, xs)[j],
            ) || s.contains(upsert_all_by(s, key, xs)[j]),
    decreases xs.len(),
{
    if xs.len() > 0 {
        let prev = upsert_all_by(s, key, xs.drop_last());
        let u = upsert_all_by(s, key, xs);
        lemma_upsert_all_row_origin(s, key, xs.drop_last());
        lemma_upsert_by_row_origin(prev, key, xs.last());
        assert forall|j: int| 0 <= j < u.len() implies xs.contains(#[trigger] u[j]) || s.contains(
            u[j],
        ) by {
            if u[j] == xs.last() {
                assert(xs[xs.len() - 1] == u[j]);
            } else {
                assert(prev.contains(u[j]));
                let m = choose|m: int| 0 <= m < prev.len() && prev[m] == u[j];
                if xs.drop_last().contains(prev[m]) {
                    let i = choose|i: int|
                        0 <= i < xs.drop_last().len() && xs.drop_last()[i] == prev[m];
                    assert(xs[i] == u[j]);
                }
            }
        }
    }
}

/// A batch upsert keeps the table's keys pairwise distinct.
pub proof fn lemma_upsert_all_unique<T>(s: Seq<T>, key: spec_fn(T) -> Seq<char>, xs: Seq<T>)
    requires
        unique_keys(s, key),
    ensures
        unique_keys(upsert_all_by(s, key, xs), key),
    decreases xs.len(),
{
    if xs.len() > 0 {
        lemma_upsert_all_unique(s, key, xs.drop_last());
        lemma_upsert_by_unique(upsert_all_by(s, key, xs.drop_last()), key, xs.last());
    }
}

/// After a batch upsert whose rows carry pairwise distinct keys, looking up
/// any of those keys yields the batch's row.
pub proof fn lemma_find_after_upsert_all<T>(
    s: Seq<T>,
    key: spec_fn(T) -> Seq<char>,
    xs: Seq<T>,
    i: int,
)
    requires
        unique_keys(xs, key),
        0 <= i < xs.len(),
    ensures
        find_by(upsert_all_by(s, key, xs), key, key(xs[i])) == Some(xs[i]),
    decreases xs.len(),
{
    let prev = upsert_all_by(s, key, xs.drop_last());
    lemma_find_after_upsert(prev, key, xs.last(), key(xs[i]));
    if i == xs.len() - 1 {
    } else {
        assert(key(xs[i]) != key(xs.last()));
        assert(xs.drop_last()[i] == xs[i]);
        lemma_find_after_upsert_all(s, key, xs.drop_last(), i);
    }
}

/// A batch upsert of rows that all already stand in the table, unchanged,
/// changes nothing.
pub proof fn lemma_upsert_all_noop<T>(s: Seq<T>, key: spec_fn(T) -> Seq<char>, xs: Seq<T>)
    requires
        forall|i: int| 0 <= i < xs.len() ==> find_by(s, key, key(#[trigger] xs[i])) == Some(xs[i]),
    ensures
        upsert_all_by(s, key, xs) == s,
    decreases xs.len(),
{
    if xs.len() > 0 {
        lemma_upsert_all_noop(s, key, xs.drop_last());
        assert(find_by(s, key, key(xs.last())) == Some(xs.last()));
        lemma_upsert_self_noop(s, key, xs.last());
    }
}

/// Applying the same batch upsert twice in a row leaves what the first
/// application made, provided the batch's keys are pairwise distinct.
pub proof fn lemma_upsert_all_idempotent<T>(s: Seq<T>, key: spec_fn(T) -> Seq<char>, xs: Seq<T>)
    requires
        unique_keys(xs, key),
    ensures
        upsert_all_by(upsert_all_by(s, key, xs), key, xs) == upsert_all_by(s, key, xs),
{
    let once = upsert_all_by(s, key, xs);
    assert forall|i: int| 0 <= i < xs.len() implies find_by(once, key, key(#[trigger] xs[i]))
        == Some(xs[i]) by {
        lemma_find_after_upsert_all(s, key, xs, i);
    }
    lemma_upsert_all_noop(once, key, xs);
}

} // verus!
