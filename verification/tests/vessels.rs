//! The per-vessel rollup, fed with great-circle distances computed the
//! same way the transport layer computes them: geoutils' haversine over a
//! mean Earth radius, rounded to whole metres.

use geoutils::Location;
use survey_store::model::{Observation, Observer, Transect, VesselRecord};
use survey_store::store::Store;

fn observation(id: &str, transect_id: &str, obs_type: &str, count: Option<usize>) -> Observation {
    Observation {
        id: id.to_string(),
        transect_id: transect_id.to_string(),
        obs_type: obs_type.to_string(),
        date: 1500,
        lat_microdeg: 0,
        lon_microdeg: 500_000,
        bearing: None,
        count,
        distance_m: None,
        group_type: None,
        beaufort_type: None,
        weather_type: None,
    }
}

fn transect(
    id: &str,
    vessel_id: &str,
    dates: (i64, i64),
    start: (i64, i64),
    end: (i64, i64),
    observations: Vec<Observation>,
) -> Transect {
    Transect {
        id: id.to_string(),
        start_date: dates.0,
        end_date: dates.1,
        start_lat_microdeg: start.0,
        start_lon_microdeg: start.1,
        end_lat_microdeg: end.0,
        end_lon_microdeg: end.1,
        vessel_id: vessel_id.to_string(),
        bearing: 0,
        observer1_id: "O1".to_string(),
        observer2_id: None,
        observations,
    }
}

/// One haversine distance in whole metres per stored transect, in
/// `get_all_transects` order — what the transport layer hands to
/// `get_all_vessels`.
fn stored_distances_m(store: &Store) -> Vec<u64> {
    store
        .get_all_transects()
        .iter()
        .map(|t| {
            let start = Location::new(
                t.start_lat_microdeg as f64 / 1_000_000.0,
                t.start_lon_microdeg as f64 / 1_000_000.0,
            );
            let end = Location::new(
                t.end_lat_microdeg as f64 / 1_000_000.0,
                t.end_lon_microdeg as f64 / 1_000_000.0,
            );
            start.haversine_distance_to(&end).meters().round() as u64
        })
        .collect()
}

#[test]
fn single_vessel_scenario_rolls_up_all_figures() {
    let mut store = Store::new();
    store.upsert_vessel(&VesselRecord { id: "V1".to_string(), name: "Aurora".to_string() });
    store.upsert_transect(&transect(
        "T1",
        "V1",
        (1000, 4600),
        (0, 0),
        (0, 1_000_000),
        vec![observation("OB1", "T1", "Sighting", Some(3))],
    ));

    let distances = stored_distances_m(&store);
    let vessels = store.get_all_vessels(&distances);

    assert_eq!(vessels.len(), 1);
    let v1 = &vessels[0];
    assert_eq!(v1.id, "V1");
    assert_eq!(v1.name, "Aurora");
    assert_eq!(v1.number_of_transects, 1);
    assert_eq!(v1.number_of_sightings, 1);
    assert_eq!(v1.number_of_animals, 3);
    assert_eq!(v1.total_duration_of_all_transects_secs, 3600);
    // One degree of longitude along the equator: close to 111.2 km.
    let km = v1.total_distance_of_all_transects_m as f64 / 1000.0;
    assert!((km - 111.2).abs() < 0.1, "distance was {} km", km);
}

#[test]
fn rollup_counts_only_sightings_and_treats_missing_count_as_zero() {
    let mut store = Store::new();
    store.upsert_vessel(&VesselRecord { id: "V1".to_string(), name: "Aurora".to_string() });
    store.upsert_vessel(&VesselRecord { id: "V2".to_string(), name: "Boreas".to_string() });
    store.upsert_transect(&transect(
        "T1",
        "V1",
        (0, 100),
        (0, 0),
        (0, 0),
        vec![
            observation("OB1", "T1", "Sighting", Some(4)),
            observation("OB2", "T1", "Sighting", None),
            observation("OB3", "T1", "Weather", Some(9)),
        ],
    ));
    store.upsert_transect(&transect(
        "T2",
        "V1",
        (500, 400),
        (0, 0),
        (0, 0),
        vec![observation("OB4", "T2", "Sighting", Some(2))],
    ));
    store.upsert_transect(&transect(
        "T3",
        "V2",
        (10, 30),
        (0, 0),
        (0, 0),
        vec![observation("OB5", "T3", "Sighting", Some(7))],
    ));

    let distances = stored_distances_m(&store);
    let vessels = store.get_all_vessels(&distances);
    assert_eq!(vessels.len(), 2);

    let v1 = vessels.iter().find(|v| v.id == "V1").expect("V1 listed");
    assert_eq!(v1.number_of_transects, 2);
    assert_eq!(v1.number_of_sightings, 3);
    assert_eq!(v1.number_of_animals, 6);
    // The second transect ends before it starts; its negative duration is
    // propagated, not rejected.
    assert_eq!(v1.total_duration_of_all_transects_secs, 0);
    assert_eq!(v1.total_distance_of_all_transects_m, 0);

    let v2 = vessels.iter().find(|v| v.id == "V2").expect("V2 listed");
    assert_eq!(v2.number_of_transects, 1);
    assert_eq!(v2.number_of_sightings, 1);
    assert_eq!(v2.number_of_animals, 7);
    assert_eq!(v2.total_duration_of_all_transects_secs, 20);
}

#[test]
fn vessel_with_no_transects_reports_zeros() {
    let mut store = Store::new();
    store.upsert_vessel(&VesselRecord { id: "V1".to_string(), name: "Aurora".to_string() });

    let vessels = store.get_all_vessels(&Vec::new());
    assert_eq!(vessels.len(), 1);
    assert_eq!(vessels[0].number_of_transects, 0);
    assert_eq!(vessels[0].number_of_sightings, 0);
    assert_eq!(vessels[0].number_of_animals, 0);
    assert_eq!(vessels[0].total_duration_of_all_transects_secs, 0);
    assert_eq!(vessels[0].total_distance_of_all_transects_m, 0);
}

#[test]
fn vessel_reference_rows_upsert_by_id() {
    let mut store = Store::new();
    store.upsert_vessel(&VesselRecord { id: "V1".to_string(), name: "Aurora".to_string() });
    store.upsert_vessel(&VesselRecord { id: "V1".to_string(), name: "Aurora II".to_string() });

    let vessels = store.get_all_vessels(&Vec::new());
    assert_eq!(vessels.len(), 1);
    assert_eq!(vessels[0].name, "Aurora II");
}

#[test]
fn observers_round_trip_in_order() {
    let mut store = Store::new();
    store.upsert_observer(&Observer { id: "O2".to_string(), name: "Blake".to_string() });
    store.upsert_observer(&Observer { id: "O1".to_string(), name: "Ash".to_string() });
    store.upsert_observer(&Observer { id: "O2".to_string(), name: "Blake C.".to_string() });

    let observers = store.get_all_observers();
    assert_eq!(
        observers,
        vec![
            Observer { id: "O2".to_string(), name: "Blake C.".to_string() },
            Observer { id: "O1".to_string(), name: "Ash".to_string() },
        ]
    );
}

#[test]
fn transect_count_matches_the_vessel_listing() {
    let mut store = Store::new();
    store.upsert_vessel(&VesselRecord { id: "V1".to_string(), name: "Aurora".to_string() });
    store.upsert_transect(&transect("T1", "V1", (0, 10), (0, 0), (0, 0), vec![]));
    store.upsert_transect(&transect("T2", "V2", (0, 10), (0, 0), (0, 0), vec![]));
    store.upsert_transect(&transect("T3", "V1", (0, 10), (0, 0), (0, 0), vec![]));

    let distances = stored_distances_m(&store);
    let vessels = store.get_all_vessels(&distances);
    let listing = store.get_transects_for_vessel(&"V1".to_string());
    assert_eq!(vessels[0].number_of_transects, listing.len());
    assert_eq!(listing.len(), 2);
}
