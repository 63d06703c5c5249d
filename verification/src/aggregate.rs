//! The per-vessel rollup calculator.
//!
//! Every figure is recomputed from the stored rows at call time: transect
//! count, cumulative duration (a transect whose end precedes its start
//! contributes a negative number, propagated as-is), cumulative distance,
//! and the sighting/animal tallies joined from the observation table.
//! Great-circle distances come from the caller as whole metres, one per
//! stored transect in storage order, since their trigonometry is
//! floating-point work that lives outside this crate.

use vstd::prelude::*;
use vstd::string::StringExecFns;

use crate::model::{transect_key, Observation, TransectRow, Vessel};
use crate::store::{find_transect_index, sighting_label, Store};
use crate::table::find_by;

verus! {

/// How many transect rows belong to the vessel.
pub open spec fn transect_count(rows: Seq<TransectRow>, vessel: Seq<char>) -> int
    decreases rows.len(),
{
    if rows.len() == 0 {
        0
    } else {
        transect_count(rows.drop_last(), vessel) + if rows.last().vessel_id@ == vessel {
            1int
        } else {
            0int
        }
    }
}

/// The sum of `end_date - start_date` over the vessel's transect rows.
pub open spec fn duration_sum(rows: Seq<TransectRow>, vessel: Seq<char>) -> int
    decreases rows.len(),
{
    if rows.len() == 0 {
        0
    } else {
        duration_sum(rows.drop_last(), vessel) + if rows.last().vessel_id@ == vessel {
            rows.last().end_date - rows.last().start_date
        } else {
            0int
        }
    }
}

/// The sum, over the vessel's transect rows, of the matching entries of a
/// distance table aligned with the rows.
pub open spec fn distance_sum(rows: Seq<TransectRow>, dists: Seq<u64>, vessel: Seq<char>) -> int
    decreases rows.len(),
{
    if rows.len() == 0 || dists.len() != rows.len() {
        0
    } else {
        distance_sum(rows.drop_last(), dists.drop_last(), vessel) + if rows.last().vessel_id@
            == vessel {
            dists.last() as int
        } else {
            0int
        }
    }
}

/// The observation is a wildlife sighting logged under one of the vessel's
/// transects: the join on `transect_id` filtered by the sighting label.
pub open spec fn is_vessel_sighting(
    o: Observation,
    rows: Seq<TransectRow>,
    vessel: Seq<char>,
) -> bool {
    o.obs_type@ == sighting_label() && (find_by(rows, transect_key(), o.transect_id@) matches Some(
        t,
    ) && t.vessel_id@ == vessel)
}

/// How many observations are sightings under the vessel's transects.
pub open spec fn sighting_count(
    obs: Seq<Observation>,
    rows: Seq<TransectRow>,
    vessel: Seq<char>,
) -> int
    decreases obs.len(),
{
    if obs.len() == 0 {
        0
    } else {
        sighting_count(obs.drop_last(), rows, vessel) + if is_vessel_sighting(
            obs.last(),
            rows,
            vessel,
        ) {
            1int
        } else {
            0int
        }
    }
}

/// The sum of `count` over the vessel's sightings, a missing count taken
/// as zero.
pub open spec fn animal_sum(
    obs: Seq<Observation>,
    rows: Seq<TransectRow>,
    vessel: Seq<char>,
) -> int
    decreases obs.len(),
{
    if obs.len() == 0 {
        0
    } else {
        animal_sum(obs.drop_last(), rows, vessel) + if is_vessel_sighting(
            obs.last(),
            rows,
            vessel,
        ) {
            match obs.last().count {
                Some(c) => c as int,
                None => 0int,
            }
        } else {
            0int
        }
    }
}

/// Every prefix of the vessel's running duration sum stays within `i64` —
/// the machine-width bound the rollup needs to accumulate it.
pub open spec fn duration_in_i64(rows: Seq<TransectRow>, vessel: Seq<char>) -> bool {
    forall|k: int|
        0 <= k <= rows.len() ==> i64::MIN <= #[trigger] duration_sum(rows.take(k), vessel)
            <= i64::MAX
}

/// The rollup figures one `Vessel` owes to one vessel reference row.
pub open spec fn vessel_summary_ok(
    v: Vessel,
    id: Seq<char>,
    rows: Seq<TransectRow>,
    obs: Seq<Observation>,
    dists: Seq<u64>,
) -> bool {
    &&& v.number_of_transects as int == transect_count(rows, id)
    &&& v.total_duration_of_all_transects_secs as int == duration_sum(rows, id)
    &&& v.total_distance_of_all_transects_m as int == distance_sum(rows, dists, id)
    &&& v.number_of_sightings as int == sighting_count(obs, rows, id)
    &&& v.number_of_animals as int == animal_sum(obs, rows, id)
}

/// The animal sum only grows along the observation table, so every prefix
/// sum sits between zero and the total.
pub proof fn lemma_animal_sum_prefix(
    obs: Seq<Observation>,
    rows: Seq<TransectRow>,
    vessel: Seq<char>,
    k: int,
)
    requires
        0 <= k <= obs.len(),
    ensures
        0 <= animal_sum(obs.take(k), rows, vessel) <= animal_sum(obs, rows, vessel),
    decreases obs.len() - k,
{
    if k == obs.len() {
        assert(obs.take(k) =~= obs);
        lemma_animal_sum_nonneg(obs, rows, vessel);
    } else {
        assert(obs.take(k + 1).drop_last() =~= obs.take(k));
        assert(obs.take(k + 1).last() == obs[k]);
        lemma_animal_sum_prefix(obs, rows, vessel, k + 1);
        lemma_animal_sum_nonneg(obs.take(k), rows, vessel);
    }
}

/// The animal sum is never negative.
pub proof fn lemma_animal_sum_nonneg(
    obs: Seq<Observation>,
    rows: Seq<TransectRow>,
    vessel: Seq<char>,
)
    ensures
        animal_sum(obs, rows, vessel) >= 0,
    decreases obs.len(),
{
    if obs.len() > 0 {
        lemma_animal_sum_nonneg(obs.drop_last(), rows, vessel);
    }
}

/// The distance sum only grows along the transect table, so every prefix
/// sum sits between zero and the total.
pub proof fn lemma_distance_sum_prefix(
    rows: Seq<TransectRow>,
    dists: Seq<u64>,
    vessel: Seq<char>,
    k: int,
)
    requires
        0 <= k <= rows.len(),
        dists.len() == rows.len(),
    ensures
        0 <= distance_sum(rows.take(k), dists.take(k), vessel) <= distance_sum(
            rows,
            dists,
            vessel,
        ),
    decreases rows.len() - k,
{
    if k == rows.len() {
        assert(rows.take(k) =~= rows);
        assert(dists.take(k) =~= dists);
        lemma_distance_sum_nonneg(rows, dists, vessel);
    } else {
        assert(rows.take(k + 1).drop_last() =~= rows.take(k));
        assert(dists.take(k + 1).drop_last() =~= dists.take(k));
        assert(rows.take(k + 1).last() == rows[k]);
        assert(dists.take(k + 1).last() == dists[k]);
        lemma_distance_sum_prefix(rows, dists, vessel, k + 1);
        lemma_distance_sum_nonneg(rows.take(k), dists.take(k), vessel);
    }
}

/// The distance sum is never negative.
pub proof fn lemma_distance_sum_nonneg(
    rows: Seq<TransectRow>,
    dists: Seq<u64>,
    vessel: Seq<char>,
)
    ensures
        distance_sum(rows, dists, vessel) >= 0,
    decreases rows.len(),
{
    if rows.len() > 0 && dists.len() == rows.len() {
        lemma_distance_sum_nonneg(rows.drop_last(), dists.drop_last(), vessel);
    }
}

impl Store {
    /// Counts the vessel's sightings: observations joined to the transect
    /// table on `transect_id`, filtered by the vessel and the sighting
    /// label.
    fn get_number_of_sightings_for_vessel(&self, vessel_id: &String) -> (r: usize)
        ensures
            r as int == sighting_count(self.observations@, self.transects@, vessel_id@),
    {
        let sighting: String = String::from_str("Sighting");
        let mut count: usize = 0;
        let mut j: usize = 0;
        while j < self.observations.len()
            invariant
                j <= self.observations@.len(),
                count <= j,
                sighting@ == sighting_label(),
                count as int == sighting_count(
                    self.observations@.take(j as int),
                    self.transects@,
                    vessel_id@,
                ),
            decreases self.observations@.len() - j,
        {
            let o = &self.observations[j];
            proof {
                assert(self.observations@.take(j + 1).drop_last() =~= self.observations@.take(
                    j as int,
                ));
                assert(self.observations@.take(j + 1).last() == self.observations@[j as int]);
            }
            if o.obs_type == sighting {
                match find_transect_index(&self.transects, &o.transect_id) {
                    Some(ti) => {
                        if self.transects[ti].vessel_id == *vessel_id {
                            count += 1;
                        }
                    },
                    None => {},
                }
            }
            j += 1;
        }
        proof {
            assert(self.observations@.take(self.observations@.len() as int)
                =~= self.observations@);
        }
        count
    }

    /// Sums `count` over the vessel's sightings, a missing count taken as
    /// zero.
    fn get_sum_of_animals_for_vessel(&self, vessel_id: &String) -> (r: usize)
        requires
            animal_sum(self.observations@, self.transects@, vessel_id@) <= usize::MAX,
        ensures
            r as int == animal_sum(self.observations@, self.transects@, vessel_id@),
    {
        let sighting: String = String::from_str("Sighting");
        let mut total: usize = 0;
        let mut j: usize = 0;
        while j < self.observations.len()
            invariant
                j <= self.observations@.len(),
                sighting@ == sighting_label(),
                animal_sum(self.observations@, self.transects@, vessel_id@) <= usize::MAX,
                total as int == animal_sum(
                    self.observations@.take(j as int),
                    self.transects@,
                    vessel_id@,
                ),
            decreases self.observations@.len() - j,
        {
            let o = &self.observations[j];
            proof {
                assert(self.observations@.take(j + 1).drop_last() =~= self.observations@.take(
                    j as int,
                ));
                assert(self.observations@.take(j + 1).last() == self.observations@[j as int]);
                lemma_animal_sum_prefix(
                    self.observations@,
                    self.transects@,
                    vessel_id@,
                    j + 1,
                );
            }
            if o.obs_type == sighting {
                match find_transect_index(&self.transects, &o.transect_id) {
                    Some(ti) => {
                        if self.transects[ti].vessel_id == *vessel_id {
                            match o.count {
                                Some(c) => {
                                    total += c;
                                },
                                None => {},
                            }
                        }
                    },
                    None => {},
                }
            }
            j += 1;
        }
        proof {
            assert(self.observations@.take(self.observations@.len() as int)
                =~= self.observations@);
        }
        total
    }

    /// Walks the transect table once for one vessel: how many rows are
    /// its, their summed duration, and their summed distance out of the
    /// aligned distance table.
    fn transect_rollup_for_vessel(&self, transect_distances_m: &Vec<u64>, vessel_id: &String) -> (r:
        (usize, i64, u64))
        requires
            transect_distances_m@.len() == self.transects@.len(),
            duration_in_i64(self.transects@, vessel_id@),
            distance_sum(self.transects@, transect_distances_m@, vessel_id@) <= u64::MAX,
        ensures
            r.0 as int == transect_count(self.transects@, vessel_id@),
            r.1 as int == duration_sum(self.transects@, vessel_id@),
            r.2 as int == distance_sum(self.transects@, transect_distances_m@, vessel_id@),
    {
        let mut count: usize = 0;
        let mut duration: i64 = 0;
        let mut distance: u64 = 0;
        let mut i: usize = 0;
        while i < self.transects.len()
            invariant
                i <= self.transects@.len(),
                count <= i,
                transect_distances_m@.len() == self.transects@.len(),
                duration_in_i64(self.transects@, vessel_id@),
                distance_sum(self.transects@, transect_distances_m@, vessel_id@) <= u64::MAX,
                count as int == transect_count(self.transects@.take(i as int), vessel_id@),
                duration as int == duration_sum(self.transects@.take(i as int), vessel_id@),
                distance as int == distance_sum(
                    self.transects@.take(i as int),
                    transect_distances_m@.take(i as int),
                    vessel_id@,
                ),
            decreases self.transects@.len() - i,
        {
            let row = &self.transects[i];
            proof {
                assert(self.transects@.take(i + 1).drop_last() =~= self.transects@.take(i as int));
                assert(self.transects@.take(i + 1).last() == self.transects@[i as int]);
                assert(transect_distances_m@.take(i + 1).drop_last() =~= transect_distances_m@.take(
                    i as int,
                ));
                assert(transect_distances_m@.take(i + 1).last() == transect_distances_m@[i as int]);
                assert(duration_sum(self.transects@.take(i + 1), vessel_id@) <= i64::MAX);
                assert(duration_sum(self.transects@.take(i + 1), vessel_id@) >= i64::MIN);
                lemma_distance_sum_prefix(
                    self.transects@,
                    transect_distances_m@,
                    vessel_id@,
                    i + 1,
                );
            }
            if row.vessel_id == *vessel_id {
                count += 1;
                let widened: i128 = duration as i128 + row.end_date as i128 - row.start_date
                    as i128;
                duration = widened as i64;
                distance = distance + transect_distances_m[i];
            }
            i += 1;
        }
        proof {
            assert(self.transects@.take(self.transects@.len() as int) =~= self.transects@);
            assert(transect_distances_m@.take(transect_distances_m@.len() as int)
                =~= transect_distances_m@);
        }
        (count, duration, distance)
    }

    /// The fleet listing: one `Vessel` per vessel reference row, in
    /// storage order, every figure recomputed from the stored transects
    /// and observations. `transect_distances_m` carries the great-circle
    /// distance of each stored transect, in metres, aligned with
    /// `get_all_transects` order.
    pub fn get_all_vessels(&self, transect_distances_m: &Vec<u64>) -> (r: Vec<Vessel>)
        requires
            transect_distances_m@.len() == self.transects@.len(),
            forall|k: int|
                0 <= k < self.vessels@.len() ==> duration_in_i64(
                    self.transects@,
                    (#[trigger] self.vessels@[k]).id@,
                ),
            forall|k: int|
                0 <= k < self.vessels@.len() ==> animal_sum(
                    self.observations@,
                    self.transects@,
                    (#[trigger] self.vessels@[k]).id@,
                ) <= usize::MAX,
            forall|k: int|
                0 <= k < self.vessels@.len() ==> distance_sum(
                    self.transects@,
                    transect_distances_m@,
                    (#[trigger] self.vessels@[k]).id@,
                ) <= u64::MAX,
        ensures
            r@.len() == self.vessels@.len(),
            forall|k: int|
                0 <= k < r@.len() ==> {
                    &&& (#[trigger] r@[k]).id == self.vessels@[k].id
                    &&& r@[k].name == self.vessels@[k].name
                    &&& vessel_summary_ok(
                        r@[k],
                        self.vessels@[k].id@,
                        self.transects@,
                        self.observations@,
                        transect_distances_m@,
                    )
                },
    {
        let mut out: Vec<Vessel> = Vec::new();
        let mut k: usize = 0;
        while k < self.vessels.len()
            invariant
                k <= self.vessels@.len(),
                out@.len() == k,
                transect_distances_m@.len() == self.transects@.len(),
                forall|m: int|
                    0 <= m < self.vessels@.len() ==> duration_in_i64(
                        self.transects@,
                        (#[trigger] self.vessels@[m]).id@,
                    ),
                forall|m: int|
                    0 <= m < self.vessels@.len() ==> animal_sum(
                        self.observations@,
                        self.transects@,
                        (#[trigger] self.vessels@[m]).id@,
                    ) <= usize::MAX,
                forall|m: int|
                    0 <= m < self.vessels@.len() ==> distance_sum(
                        self.transects@,
                        transect_distances_m@,
                        (#[trigger] self.vessels@[m]).id@,
                    ) <= u64::MAX,
                forall|m: int|
                    0 <= m < k ==> {
                        &&& (#[trigger] out@[m]).id == self.vessels@[m].id
                        &&& out@[m].name == self.vessels@[m].name
                        &&& vessel_summary_ok(
                            out@[m],
                            self.vessels@[m].id@,
                            self.transects@,
                            self.observations@,
                            transect_distances_m@,
                        )
                    },
            decreases self.vessels@.len() - k,
        {
            let vrec = &self.vessels[k];
            let rollup = self.transect_rollup_for_vessel(transect_distances_m, &vrec.id);
            let number_of_sightings = self.get_number_of_sightings_for_vessel(&vrec.id);
            let number_of_animals = self.get_sum_of_animals_for_vessel(&vrec.id);
            let v = Vessel {
                id: vrec.id.clone(),
                name: vrec.name.clone(),
                number_of_transects: rollup.0,
                number_of_sightings,
                total_duration_of_all_transects_secs: rollup.1,
                total_distance_of_all_transects_m: rollup.2,
                number_of_animals,
            };
            out.push(v);
            k += 1;
        }
        out
    }
}

} // verus!
