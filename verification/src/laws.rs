//! The store's cross-operation guarantees, stated and proved over the same
//! table views the operation contracts use.

use vstd::prelude::*;
use vstd::seq_lib::group_to_multiset_ensures;

use crate::aggregate::transect_count;
use crate::model::{observation_key, row_of, transect_key, Observation, Transect, TransectRow};
use crate::store::{obs_for, rows_for_vessel, same_transect, Store};
use crate::table::{
    find_by, lemma_find_after_upsert, lemma_find_after_upsert_all, lemma_find_by_contains,
    lemma_find_by_of_member, lemma_upsert_all_idempotent, lemma_upsert_all_row_origin,
    lemma_upsert_all_unique, lemma_upsert_by_idempotent, unique_keys, upsert_all_by, upsert_by,
};

verus! {

/// A filter keeps a duplicate-free sequence duplicate-free.
proof fn lemma_filter_no_duplicates<T>(s: Seq<T>, pred: spec_fn(T) -> bool)
    requires
        s.no_duplicates(),
    ensures
        s.filter(pred).no_duplicates(),
    decreases s.len(),
{
    reveal(Seq::filter);
    if s.len() > 0 {
        let rest = s.drop_last();
        assert(rest.no_duplicates());
        lemma_filter_no_duplicates(rest, pred);
        if pred(s.last()) {
            assert(!rest.filter(pred).contains(s.last())) by {
                if rest.filter(pred).contains(s.last()) {
                    rest.lemma_filter_contains_rev(pred, s.last());
                    let j = choose|j: int| 0 <= j < rest.len() && rest[j] == s.last();
                    assert(s[j] == s[s.len() - 1]);
                }
            }
            let f = rest.filter(pred).push(s.last());
            assert forall|i: int, j: int|
                0 <= i < f.len() && 0 <= j < f.len() && i != j implies f[i] != f[j] by {
                if i < f.len() - 1 && j < f.len() - 1 {
                } else {
                    let m = if i < j {
                        i
                    } else {
                        j
                    };
                    assert(rest.filter(pred).contains(rest.filter(pred)[m])) by {
                        assert(f[m] == rest.filter(pred)[m]);
                    }
                }
            }
        }
    }
}

/// After batch-upserting a transect's observations — pairwise-distinct
/// ids, every row carrying the transect's id — into a table whose ids are
/// unique and whose rows for that transect, if any, are all named by the
/// batch, the table's rows for that transect are exactly the batch, as a
/// multiset.
proof fn lemma_upsert_all_filter(s: Seq<Observation>, xs: Seq<Observation>, tid: Seq<char>)
    requires
        unique_keys(s, observation_key()),
        unique_keys(xs, observation_key()),
        forall|i: int| 0 <= i < xs.len() ==> (#[trigger] xs[i]).transect_id@ == tid,
        forall|j: int|
            0 <= j < s.len() && (#[trigger] s[j]).transect_id@ == tid ==> exists|i: int|
                0 <= i < xs.len() && (#[trigger] xs[i]).id@ == s[j].id@,
    ensures
        obs_for(upsert_all_by(s, observation_key(), xs), tid).to_multiset() == xs.to_multiset(),
{
    broadcast use group_to_multiset_ensures;

    let key = observation_key();
    let pred = same_transect(tid);
    let table = upsert_all_by(s, key, xs);
    let fetched = obs_for(table, tid);
    lemma_upsert_all_unique(s, key, xs);
    lemma_upsert_all_row_origin(s, key, xs);
    assert(table.no_duplicates()) by {
        assert(forall|i: int, j: int|
            0 <= i < j < table.len() ==> key(#[trigger] table[i]) != key(#[trigger] table[j]));
    }
    lemma_filter_no_duplicates(table, pred);
    assert(xs.no_duplicates()) by {
        assert(forall|i: int, j: int|
            0 <= i < j < xs.len() ==> key(#[trigger] xs[i]) != key(#[trigger] xs[j]));
    }

    assert forall|o: Observation| fetched.contains(o) implies xs.contains(o) by {
        table.lemma_filter_contains_rev(pred, o);
        let j = choose|j: int| 0 <= j < table.len() && table[j] == o;
        assert(pred(table[j])) by {
            let m = choose|m: int| 0 <= m < fetched.len() && fetched[m] == o;
            table.lemma_filter_pred(pred, m);
        }
        if !xs.contains(o) {
            assert(s.contains(o));
            let sj = choose|sj: int| 0 <= sj < s.len() && s[sj] == o;
            assert(s[sj].transect_id@ == tid);
            let i = choose|i: int| 0 <= i < xs.len() && (#[trigger] xs[i]).id@ == s[sj].id@;
            lemma_find_after_upsert_all(s, key, xs, i);
            lemma_find_by_of_member(table, key, o);
            assert(key(xs[i]) == key(o));
            assert(xs[i] == o);
        }
    }
    assert forall|o: Observation| xs.contains(o) implies fetched.contains(o) by {
        let i = choose|i: int| 0 <= i < xs.len() && xs[i] == o;
        lemma_find_after_upsert_all(s, key, xs, i);
        lemma_find_by_contains(table, key, key(o));
        let j = choose|j: int| 0 <= j < table.len() && table[j] == o;
        assert(pred(table[j]));
        table.lemma_filter_contains(pred, j);
    }

    fetched.lemma_multiset_has_no_duplicates();
    xs.lemma_multiset_has_no_duplicates();
    assert forall|o: Observation| fetched.to_multiset().count(o) == xs.to_multiset().count(
        o,
    ) by {
        if fetched.contains(o) {
        } else {
            assert(fetched.to_multiset().count(o) == 0);
            assert(!xs.contains(o));
            assert(xs.to_multiset().count(o) == 0);
        }
    }
    assert(fetched.to_multiset() =~= xs.to_multiset());
}

/// Round trip: after `upsert_transect(t)`, a fetch by `t`'s id finds a
/// transect whose row fields are exactly `t`'s and whose observation list
/// equals `t`'s as an order-insensitive collection — provided `t` upholds
/// the ownership invariant, the stored observation ids are unique, and
/// whatever the store already held under `t`'s id is named by `t`'s own
/// observations (stored observations are never deleted, so a stale row the
/// upsert does not overwrite would survive and surface in the fetch).
pub proof fn lemma_upsert_round_trip(s: Store, t: Transect)
    requires
        t.valid(),
        unique_keys(s.observations@, observation_key()),
        forall|j: int|
            0 <= j < s.observations@.len() && (#[trigger] s.observations@[j]).transect_id@
                == t.id@ ==> exists|i: int|
                0 <= i < t.observations@.len() && (#[trigger] t.observations@[i]).id@
                    == s.observations@[j].id@,
    ensures
        find_by(
            upsert_by(s.transects@, transect_key(), row_of(t)),
            transect_key(),
            t.id@,
        ) == Some(row_of(t)),
        obs_for(
            upsert_all_by(s.observations@, observation_key(), t.observations@),
            t.id@,
        ).to_multiset() == t.observations@.to_multiset(),
{
    lemma_find_after_upsert(s.transects@, transect_key(), row_of(t), t.id@);
    lemma_upsert_all_filter(s.observations@, t.observations@, t.id@);
}

/// The rollup's transect count is the length of the vessel-scoped
/// listing: `number_of_transects` for a vessel with transects `T1..Tn`
/// is `n`.
pub proof fn lemma_transect_count_is_vessel_listing(rows: Seq<TransectRow>, vessel: Seq<char>)
    ensures
        transect_count(rows, vessel) == rows_for_vessel(rows, vessel).len(),
    decreases rows.len(),
{
    reveal(Seq::filter);
    if rows.len() > 0 {
        lemma_transect_count_is_vessel_listing(rows.drop_last(), vessel);
    }
}

/// Idempotence: applying the same `upsert_transect(t)` twice in a row
/// leaves exactly the tables one application made, provided `t`'s
/// observations carry pairwise-distinct ids. The vessel and observer
/// tables are untouched by either application.
pub proof fn lemma_upsert_idempotent(s: Store, t: Transect)
    requires
        unique_keys(t.observations@, observation_key()),
    ensures
        upsert_by(
            upsert_by(s.transects@, transect_key(), row_of(t)),
            transect_key(),
            row_of(t),
        ) == upsert_by(s.transects@, transect_key(), row_of(t)),
        upsert_all_by(
            upsert_all_by(s.observations@, observation_key(), t.observations@),
            observation_key(),
            t.observations@,
        ) == upsert_all_by(s.observations@, observation_key(), t.observations@),
{
    lemma_upsert_by_idempotent(s.transects@, transect_key(), row_of(t));
    lemma_upsert_all_idempotent(s.observations@, observation_key(), t.observations@);
}

} // verus!
