//! Entity types of the survey store.
//!
//! Coordinates are carried as microdegrees (degrees scaled by one million)
//! and distances as whole metres, so that every field is a plain integer or
//! string; the transport layer converts to and from its floating-point
//! wire representation at the boundary.

use vstd::prelude::*;

use crate::table::unique_keys;

verus! {

/// One logged event within a transect: a wildlife sighting or an
/// environmental reading.
#[derive(PartialEq, Eq, Debug)]
pub struct Observation {
    pub id: String,
    pub transect_id: String,
    pub obs_type: String,
    pub date: i64,
    pub lat_microdeg: i64,
    pub lon_microdeg: i64,
    pub bearing: Option<usize>,
    pub count: Option<usize>,
    pub distance_m: Option<u64>,
    pub group_type: Option<String>,
    pub beaufort_type: Option<String>,
    pub weather_type: Option<String>,
}

/// One row of the transect table: a timed vessel path segment, without its
/// observations.
#[derive(PartialEq, Eq, Debug)]
pub struct TransectRow {
    pub id: String,
    pub start_date: i64,
    pub end_date: i64,
    pub start_lat_microdeg: i64,
    pub start_lon_microdeg: i64,
    pub end_lat_microdeg: i64,
    pub end_lon_microdeg: i64,
    pub vessel_id: String,
    pub bearing: i32,
    pub observer1_id: String,
    pub observer2_id: Option<String>,
}

/// A transect as the caller sees it: the row fields together with the
/// nested observations.
#[derive(PartialEq, Eq, Debug)]
pub struct Transect {
    pub id: String,
    pub start_date: i64,
    pub end_date: i64,
    pub start_lat_microdeg: i64,
    pub start_lon_microdeg: i64,
    pub end_lat_microdeg: i64,
    pub end_lon_microdeg: i64,
    pub vessel_id: String,
    pub bearing: i32,
    pub observer1_id: String,
    pub observer2_id: Option<String>,
    pub observations: Vec<Observation>,
}

/// An observer: immutable reference data.
#[derive(PartialEq, Eq, Debug)]
pub struct Observer {
    pub id: String,
    pub name: String,
}

/// One row of the vessel reference table.
#[derive(PartialEq, Eq, Debug)]
pub struct VesselRecord {
    pub id: String,
    pub name: String,
}

/// The per-vessel rollup: counts, cumulative duration and cumulative
/// distance derived from the vessel's stored transects and observations.
#[derive(PartialEq, Eq, Debug)]
pub struct Vessel {
    pub id: String,
    pub name: String,
    pub number_of_transects: usize,
    pub number_of_sightings: usize,
    pub total_duration_of_all_transects_secs: i64,
    pub total_distance_of_all_transects_m: u64,
    pub number_of_animals: usize,
}

/// Primary key of an observation row.
pub open spec fn observation_key() -> spec_fn(Observation) -> Seq<char> {
    |o: Observation| o.id@
}

/// Primary key of a transect row.
pub open spec fn transect_key() -> spec_fn(TransectRow) -> Seq<char> {
    |t: TransectRow| t.id@
}

/// Primary key of an observer row.
pub open spec fn observer_key() -> spec_fn(Observer) -> Seq<char> {
    |o: Observer| o.id@
}

/// Primary key of a vessel reference row.
pub open spec fn vessel_key() -> spec_fn(VesselRecord) -> Seq<char> {
    |v: VesselRecord| v.id@
}

/// The table row that a transect's own fields form.
pub open spec fn row_of(t: Transect) -> TransectRow {
    TransectRow {
        id: t.id,
        start_date: t.start_date,
        end_date: t.end_date,
        start_lat_microdeg: t.start_lat_microdeg,
        start_lon_microdeg: t.start_lon_microdeg,
        end_lat_microdeg: t.end_lat_microdeg,
        end_lon_microdeg: t.end_lon_microdeg,
        vessel_id: t.vessel_id,
        bearing: t.bearing,
        observer1_id: t.observer1_id,
        observer2_id: t.observer2_id,
    }
}

impl Transect {
    /// The ownership invariant callers are expected to uphold: every nested
    /// observation points back at this transect, and no two nested
    /// observations share an identifier.
    pub open spec fn valid(self) -> bool {
        &&& forall|i: int|
            0 <= i < self.observations@.len() ==> (#[trigger] self.observations@[i]).transect_id@
                == self.id@
        &&& unique_keys(self.observations@, observation_key())
    }
}

impl Clone for Observation {
    /// A field-for-field copy.
    fn clone(&self) -> (r: Self)
        ensures
            r == *self,
    {
        Observation {
            id: self.id.clone(),
            transect_id: self.transect_id.clone(),
            obs_type: self.obs_type.clone(),
            date: self.date,
            lat_microdeg: self.lat_microdeg,
            lon_microdeg: self.lon_microdeg,
            bearing: self.bearing,
            count: self.count,
            distance_m: self.distance_m,
            group_type: clone_text_opt(&self.group_type),
            beaufort_type: clone_text_opt(&self.beaufort_type),
            weather_type: clone_text_opt(&self.weather_type),
        }
    }
}

impl Clone for TransectRow {
    /// A field-for-field copy.
    fn clone(&self) -> (r: Self)
        ensures
            r == *self,
    {
        TransectRow {
            id: self.id.clone(),
            start_date: self.start_date,
            end_date: self.end_date,
            start_lat_microdeg: self.start_lat_microdeg,
            start_lon_microdeg: self.start_lon_microdeg,
            end_lat_microdeg: self.end_lat_microdeg,
            end_lon_microdeg: self.end_lon_microdeg,
            vessel_id: self.vessel_id.clone(),
            bearing: self.bearing,
            observer1_id: self.observer1_id.clone(),
            observer2_id: clone_text_opt(&self.observer2_id),
        }
    }
}

impl Clone for Observer {
    /// A field-for-field copy.
    fn clone(&self) -> (r: Self)
        ensures
            r == *self,
    {
        Observer { id: self.id.clone(), name: self.name.clone() }
    }
}

impl Clone for VesselRecord {
    /// A field-for-field copy.
    fn clone(&self) -> (r: Self)
        ensures
            r == *self,
    {
        VesselRecord { id: self.id.clone(), name: self.name.clone() }
    }
}

/// Copies an optional string, keeping the value.
fn clone_text_opt(s: &Option<String>) -> (r: Option<String>)
    ensures
        r == *s,
{
    match s {
        Some(v) => Some(v.clone()),
        None => None,
    }
}

} // verus!
