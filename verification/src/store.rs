//! The in-memory persistence layer: four tables and the operations over
//! them.
//!
//! Writes are insert-or-update by primary key with full-field replace;
//! reads by key report absence as `None`, never as an error; observations
//! are returned in storage (insertion) order. Aggregates are recomputed
//! from the stored rows on every call, never cached.

use vstd::prelude::*;

use crate::model::{
    observation_key, observer_key, row_of, transect_key, vessel_key, Observation, Observer,
    Transect, TransectRow, Vessel, VesselRecord,
};
use crate::table::{
    find_by, lemma_find_by_at, lemma_find_by_none, lemma_upsert_all_unique, lemma_upsert_by_at,
    lemma_upsert_by_fresh, lemma_upsert_by_unique, unique_keys, upsert_all_by, upsert_by,
};

verus! {

/// The observation category that the aggregate calculator counts as a
/// wildlife sighting.
pub open spec fn sighting_label() -> Seq<char> {
    "Sighting"@
}

/// Membership of one transect, as the filter the store's reads use.
pub open spec fn same_transect(transect_id: Seq<char>) -> spec_fn(Observation) -> bool {
    |o: Observation| o.transect_id@ == transect_id
}

/// Membership of one vessel, as the filter the store's reads use.
pub open spec fn same_vessel(vessel: Seq<char>) -> spec_fn(TransectRow) -> bool {
    |t: TransectRow| t.vessel_id@ == vessel
}

/// The observations that belong to one transect, in storage order.
pub open spec fn obs_for(obs: Seq<Observation>, transect_id: Seq<char>) -> Seq<Observation> {
    obs.filter(same_transect(transect_id))
}

/// The transect rows that belong to one vessel, in storage order.
pub open spec fn rows_for_vessel(rows: Seq<TransectRow>, vessel: Seq<char>) -> Seq<TransectRow> {
    rows.filter(same_vessel(vessel))
}

/// The stored tables. Vessels and observers are reference data; transects
/// and observations arrive through `upsert_transect`.
pub struct Store {
    pub transects: Vec<TransectRow>,
    pub observations: Vec<Observation>,
    pub vessels: Vec<VesselRecord>,
    pub observers: Vec<Observer>,
}

impl Store {
    /// Identifiers are unique per table.
    pub open spec fn wf(self) -> bool {
        &&& unique_keys(self.transects@, transect_key())
        &&& unique_keys(self.observations@, observation_key())
        &&& unique_keys(self.vessels@, vessel_key())
        &&& unique_keys(self.observers@, observer_key())
    }

    /// An empty store.
    pub fn new() -> (r: Store)
        ensures
            r.transects@ == Seq::<TransectRow>::empty(),
            r.observations@ == Seq::<Observation>::empty(),
            r.vessels@ == Seq::<VesselRecord>::empty(),
            r.observers@ == Seq::<Observer>::empty(),
            r.wf(),
    {
        Store { transects: Vec::new(), observations: Vec::new(), vessels: Vec::new(), observers: Vec::new() }
    }

    /// Inserts or replaces one vessel reference row, keyed by its id.
    pub fn upsert_vessel(&mut self, v: &VesselRecord)
        ensures
            final(self).vessels@ == upsert_by(old(self).vessels@, vessel_key(), *v),
            final(self).transects@ == old(self).transects@,
            final(self).observations@ == old(self).observations@,
            final(self).observers@ == old(self).observers@,
            old(self).wf() ==> final(self).wf(),
    {
        upsert_vessel_row(&mut self.vessels, v);
        proof {
            if old(self).wf() {
                lemma_upsert_by_unique(old(self).vessels@, vessel_key(), *v);
            }
        }
    }

    /// Inserts or replaces one observer reference row, keyed by its id.
    pub fn upsert_observer(&mut self, o: &Observer)
        ensures
            final(self).observers@ == upsert_by(old(self).observers@, observer_key(), *o),
            final(self).transects@ == old(self).transects@,
            final(self).observations@ == old(self).observations@,
            final(self).vessels@ == old(self).vessels@,
            old(self).wf() ==> final(self).wf(),
    {
        upsert_observer_row(&mut self.observers, o);
        proof {
            if old(self).wf() {
                lemma_upsert_by_unique(old(self).observers@, observer_key(), *o);
            }
        }
    }

    /// Every observer row, in storage order.
    pub fn get_all_observers(&self) -> (r: Vec<Observer>)
        ensures
            r@ == self.observers@,
    {
        let mut out: Vec<Observer> = Vec::new();
        let mut i: usize = 0;
        while i < self.observers.len()
            invariant
                i <= self.observers@.len(),
                out@ == self.observers@.take(i as int),
            decreases self.observers@.len() - i,
        {
            out.push(self.observers[i].clone());
            proof {
                assert(self.observers@.take(i + 1) =~= self.observers@.take(i as int).push(
                    self.observers@[i as int],
                ));
            }
            i += 1;
        }
        proof {
            assert(self.observers@.take(self.observers@.len() as int) =~= self.observers@);
        }
        out
    }

    /// Every observation whose `transect_id` matches, in storage order; an
    /// id that matches nothing yields an empty list, not an error.
    pub fn get_observations(&self, transect_id: &String) -> (r: Vec<Observation>)
        ensures
            r@ == obs_for(self.observations@, transect_id@),
    {
        let mut out: Vec<Observation> = Vec::new();
        let mut i: usize = 0;
        while i < self.observations.len()
            invariant
                i <= self.observations@.len(),
                out@ == obs_for(self.observations@.take(i as int), transect_id@),
            decreases self.observations@.len() - i,
        {
            let o = &self.observations[i];
            proof {
                assert(self.observations@.take(i + 1).drop_last() =~= self.observations@.take(
                    i as int,
                ));
                assert(self.observations@.take(i + 1).last() == self.observations@[i as int]);
                reveal(Seq::filter);
            }
            if o.transect_id == *transect_id {
                out.push(o.clone());
            }
            i += 1;
        }
        proof {
            assert(self.observations@.take(self.observations@.len() as int)
                =~= self.observations@);
        }
        out
    }

    /// The transect with the given id, its observations populated, or
    /// `None` when no row matches — absence is not an error.
    pub fn get_transect_by_id(&self, transect_id: &String) -> (r: Option<Transect>)
        ensures
            r is Some <==> find_by(self.transects@, transect_key(), transect_id@) is Some,
            r matches Some(t) ==> {
                &&& find_by(self.transects@, transect_key(), transect_id@) == Some(row_of(t))
                &&& t.observations@ == obs_for(self.observations@, transect_id@)
            },
    {
        match find_transect_index(&self.transects, transect_id) {
            Some(i) => {
                let row = &self.transects[i];
                let observations = self.get_observations(transect_id);
                let t = Transect {
                    id: row.id.clone(),
                    start_date: row.start_date,
                    end_date: row.end_date,
                    start_lat_microdeg: row.start_lat_microdeg,
                    start_lon_microdeg: row.start_lon_microdeg,
                    end_lat_microdeg: row.end_lat_microdeg,
                    end_lon_microdeg: row.end_lon_microdeg,
                    vessel_id: row.vessel_id.clone(),
                    bearing: row.bearing,
                    observer1_id: row.observer1_id.clone(),
                    observer2_id: clone_opt_text(&row.observer2_id),
                    observations,
                };
                proof {
                    assert(row_of(t) == self.transects@[i as int]);
                }
                Some(t)
            },
            None => None,
        }
    }

    /// Every transect, each with its observations populated, in storage
    /// order.
    pub fn get_all_transects(&self) -> (r: Vec<Transect>)
        ensures
            r@.len() == self.transects@.len(),
            forall|k: int|
                0 <= k < r@.len() ==> {
                    &&& row_of(#[trigger] r@[k]) == self.transects@[k]
                    &&& r@[k].observations@ == obs_for(
                        self.observations@,
                        self.transects@[k].id@,
                    )
                },
    {
        let mut out: Vec<Transect> = Vec::new();
        let mut i: usize = 0;
        while i < self.transects.len()
            invariant
                i <= self.transects@.len(),
                out@.len() == i,
                forall|k: int|
                    0 <= k < i ==> {
                        &&& row_of(#[trigger] out@[k]) == self.transects@[k]
                        &&& out@[k].observations@ == obs_for(
                            self.observations@,
                            self.transects@[k].id@,
                        )
                    },
            decreases self.transects@.len() - i,
        {
            let row = &self.transects[i];
            let observations = self.get_observations(&row.id);
            let t = Transect {
                id: row.id.clone(),
                start_date: row.start_date,
                end_date: row.end_date,
                start_lat_microdeg: row.start_lat_microdeg,
                start_lon_microdeg: row.start_lon_microdeg,
                end_lat_microdeg: row.end_lat_microdeg,
                end_lon_microdeg: row.end_lon_microdeg,
                vessel_id: row.vessel_id.clone(),
                bearing: row.bearing,
                observer1_id: row.observer1_id.clone(),
                observer2_id: clone_opt_text(&row.observer2_id),
                observations,
            };
            proof {
                assert(row_of(t) == self.transects@[i as int]);
            }
            out.push(t);
            i += 1;
        }
        out
    }

    /// The transects of one vessel, in storage order, each with its
    /// observations left empty — the deliberately lighter projection the
    /// vessel listing uses.
    pub fn get_transects_for_vessel(&self, vessel_id: &String) -> (r: Vec<Transect>)
        ensures
            r@.len() == rows_for_vessel(self.transects@, vessel_id@).len(),
            forall|k: int|
                0 <= k < r@.len() ==> {
                    &&& row_of(#[trigger] r@[k]) == rows_for_vessel(
                        self.transects@,
                        vessel_id@,
                    )[k]
                    &&& r@[k].observations@ == Seq::<Observation>::empty()
                },
    {
        let mut out: Vec<Transect> = Vec::new();
        let mut i: usize = 0;
        while i < self.transects.len()
            invariant
                i <= self.transects@.len(),
                out@.len() == rows_for_vessel(self.transects@.take(i as int), vessel_id@).len(),
                forall|k: int|
                    0 <= k < out@.len() ==> {
                        &&& row_of(#[trigger] out@[k]) == rows_for_vessel(
                            self.transects@.take(i as int),
                            vessel_id@,
                        )[k]
                        &&& out@[k].observations@ == Seq::<Observation>::empty()
                    },
            decreases self.transects@.len() - i,
        {
            let row = &self.transects[i];
            proof {
                assert(self.transects@.take(i + 1).drop_last() =~= self.transects@.take(i as int));
                assert(self.transects@.take(i + 1).last() == self.transects@[i as int]);
                reveal(Seq::filter);
            }
            if row.vessel_id == *vessel_id {
                let t = Transect {
                    id: row.id.clone(),
                    start_date: row.start_date,
                    end_date: row.end_date,
                    start_lat_microdeg: row.start_lat_microdeg,
                    start_lon_microdeg: row.start_lon_microdeg,
                    end_lat_microdeg: row.end_lat_microdeg,
                    end_lon_microdeg: row.end_lon_microdeg,
                    vessel_id: row.vessel_id.clone(),
                    bearing: row.bearing,
                    observer1_id: row.observer1_id.clone(),
                    observer2_id: clone_opt_text(&row.observer2_id),
                    observations: Vec::new(),
                };
                proof {
                    assert(row_of(t) == self.transects@[i as int]);
                }
                out.push(t);
            }
            i += 1;
        }
        proof {
            assert(self.transects@.take(self.transects@.len() as int) =~= self.transects@);
        }
        out
    }

    /// Writes every nested observation, then the transect row itself, each
    /// insert-or-update by primary key with full-field replace. Stored
    /// observations of this transect that the incoming list does not name
    /// are left in place — there is no delete-on-upsert.
    pub fn upsert_transect(&mut self, t: &Transect)
        ensures
            final(self).transects@ == upsert_by(old(self).transects@, transect_key(), row_of(*t)),
            final(self).observations@ == upsert_all_by(
                old(self).observations@,
                observation_key(),
                t.observations@,
            ),
            final(self).vessels@ == old(self).vessels@,
            final(self).observers@ == old(self).observers@,
            old(self).wf() ==> final(self).wf(),
    {
        let n = t.observations.len();
        let mut i: usize = 0;
        while i < n
            invariant
                i <= n,
                n == t.observations@.len(),
                self.observations@ == upsert_all_by(
                    old(self).observations@,
                    observation_key(),
                    t.observations@.take(i as int),
                ),
                self.transects@ == old(self).transects@,
                self.vessels@ == old(self).vessels@,
                self.observers@ == old(self).observers@,
            decreases n - i,
        {
            upsert_observation_row(&mut self.observations, &t.observations[i]);
            proof {
                assert(t.observations@.take(i + 1).drop_last() =~= t.observations@.take(i as int));
                assert(t.observations@.take(i + 1).last() == t.observations@[i as int]);
            }
            i += 1;
        }
        proof {
            assert(t.observations@.take(n as int) =~= t.observations@);
        }
        let row = TransectRow {
            id: t.id.clone(),
            start_date: t.start_date,
            end_date: t.end_date,
            start_lat_microdeg: t.start_lat_microdeg,
            start_lon_microdeg: t.start_lon_microdeg,
            end_lat_microdeg: t.end_lat_microdeg,
            end_lon_microdeg: t.end_lon_microdeg,
            vessel_id: t.vessel_id.clone(),
            bearing: t.bearing,
            observer1_id: t.observer1_id.clone(),
            observer2_id: clone_opt_text(&t.observer2_id),
        };
        proof {
            assert(row == row_of(*t));
        }
        upsert_transect_row(&mut self.transects, &row);
        proof {
            if old(self).wf() {
                lemma_upsert_by_unique(old(self).transects@, transect_key(), row_of(*t));
                lemma_upsert_all_unique(
                    old(self).observations@,
                    observation_key(),
                    t.observations@,
                );
            }
        }
    }
}

/// Copies an optional string, keeping the value.
fn clone_opt_text(s: &Option<String>) -> (r: Option<String>)
    ensures
        r == *s,
{
    match s {
        Some(v) => Some(v.clone()),
        None => None,
    }
}

/// The index of the first transect row with the given id, together with
/// what that means for `find_by`.
pub(crate) fn find_transect_index(rows: &Vec<TransectRow>, id: &String) -> (r: Option<usize>)
    ensures
        r matches Some(i) ==> {
            &&& i < rows@.len()
            &&& find_by(rows@, transect_key(), id@) == Some(rows@[i as int])
            &&& rows@[i as int].id@ == id@
        },
        r is None ==> find_by(rows@, transect_key(), id@) is None,
{
    let mut i: usize = 0;
    while i < rows.len()
        invariant
            i <= rows@.len(),
            forall|j: int| 0 <= j < i ==> (#[trigger] rows@[j]).id@ != id@,
        decreases rows@.len() - i,
    {
        if rows[i].id == *id {
            proof {
                lemma_find_by_at(rows@, transect_key(), id@, i as int);
            }
            return Some(i);
        }
        i += 1;
    }
    proof {
        lemma_find_by_none(rows@, transect_key(), id@);
    }
    None
}

/// Insert-or-update of one observation row, keyed by its id.
fn upsert_observation_row(rows: &mut Vec<Observation>, x: &Observation)
    ensures
        final(rows)@ == upsert_by(old(rows)@, observation_key(), *x),
{
    let n = rows.len();
    let mut i: usize = 0;
    while i < n
        invariant
            i <= n,
            n == rows@.len(),
            rows@ == old(rows)@,
            forall|j: int| 0 <= j < i ==> (#[trigger] rows@[j]).id@ != x.id@,
        decreases n - i,
    {
        if rows[i].id == x.id {
            proof {
                lemma_upsert_by_at(old(rows)@, observation_key(), *x, i as int);
            }
            rows[i] = x.clone();
            return ;
        }
        i += 1;
    }
    proof {
        lemma_upsert_by_fresh(old(rows)@, observation_key(), *x);
    }
    rows.push(x.clone());
}

/// Insert-or-update of one transect row, keyed by its id.
fn upsert_transect_row(rows: &mut Vec<TransectRow>, x: &TransectRow)
    ensures
        final(rows)@ == upsert_by(old(rows)@, transect_key(), *x),
{
    let n = rows.len();
    let mut i: usize = 0;
    while i < n
        invariant
            i <= n,
            n == rows@.len(),
            rows@ == old(rows)@,
            forall|j: int| 0 <= j < i ==> (#[trigger] rows@[j]).id@ != x.id@,
        decreases n - i,
    {
        if rows[i].id == x.id {
            proof {
                lemma_upsert_by_at(old(rows)@, transect_key(), *x, i as int);
            }
            rows[i] = x.clone();
            return ;
        }
        i += 1;
    }
    proof {
        lemma_upsert_by_fresh(old(rows)@, transect_key(), *x);
    }
    rows.push(x.clone());
}

/// Insert-or-update of one vessel reference row, keyed by its id.
fn upsert_vessel_row(rows: &mut Vec<VesselRecord>, x: &VesselRecord)
    ensures
        final(rows)@ == upsert_by(old(rows)@, vessel_key(), *x),
{
    let n = rows.len();
    let mut i: usize = 0;
    while i < n
        invariant
            i <= n,
            n == rows@.len(),
            rows@ == old(rows)@,
            forall|j: int| 0 <= j < i ==> (#[trigger] rows@[j]).id@ != x.id@,
        decreases n - i,
    {
        if rows[i].id == x.id {
            proof {
                lemma_upsert_by_at(old(rows)@, vessel_key(), *x, i as int);
            }
            rows[i] = x.clone();
            return ;
        }
        i += 1;
    }
    proof {
        lemma_upsert_by_fresh(old(rows)@, vessel_key(), *x);
    }
    rows.push(x.clone());
}

/// Insert-or-update of one observer row, keyed by its id.
fn upsert_observer_row(rows: &mut Vec<Observer>, x: &Observer)
    ensures
        final(rows)@ == upsert_by(old(rows)@, observer_key(), *x),
{
    let n = rows.len();
    let mut i: usize = 0;
    while i < n
        invariant
            i <= n,
            n == rows@.len(),
            rows@ == old(rows)@,
            forall|j: int| 0 <= j < i ==> (#[trigger] rows@[j]).id@ != x.id@,
        decreases n - i,
    {
        if rows[i].id == x.id {
            proof {
                lemma_upsert_by_at(old(rows)@, observer_key(), *x, i as int);
            }
            rows[i] = x.clone();
            return ;
        }
        i += 1;
    }
    proof {
        lemma_upsert_by_fresh(old(rows)@, observer_key(), *x);
    }
    rows.push(x.clone());
}

} // verus!
