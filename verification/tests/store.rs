//! Repository semantics: round trip, idempotence, not-found, full-field
//! replace, and the no-delete-on-upsert behaviour.

use survey_store::model::{Observation, Transect};
use survey_store::store::Store;

fn observation(id: &str, transect_id: &str, obs_type: &str, count: Option<usize>) -> Observation {
    Observation {
        id: id.to_string(),
        transect_id: transect_id.to_string(),
        obs_type: obs_type.to_string(),
        date: 1500,
        lat_microdeg: 100_000,
        lon_microdeg: 200_000,
        bearing: Some(90),
        count,
        distance_m: Some(250),
        group_type: Some("pod".to_string()),
        beaufort_type: None,
        weather_type: Some("clear".to_string()),
    }
}

fn transect(id: &str, vessel_id: &str, observations: Vec<Observation>) -> Transect {
    Transect {
        id: id.to_string(),
        start_date: 1000,
        end_date: 4600,
        start_lat_microdeg: 0,
        start_lon_microdeg: 0,
        end_lat_microdeg: 0,
        end_lon_microdeg: 1_000_000,
        vessel_id: vessel_id.to_string(),
        bearing: 270,
        observer1_id: "O1".to_string(),
        observer2_id: Some("O2".to_string()),
        observations,
    }
}

#[test]
fn round_trip_returns_equal_transect() {
    let mut store = Store::new();
    let t = transect(
        "T1",
        "V1",
        vec![
            observation("OB1", "T1", "Sighting", Some(3)),
            observation("OB2", "T1", "Weather", None),
        ],
    );
    store.upsert_transect(&t);

    let fetched = store.get_transect_by_id(&"T1".to_string()).expect("stored transect");
    assert_eq!(fetched, t);
}

#[test]
fn upsert_is_idempotent() {
    let mut store = Store::new();
    let t = transect(
        "T1",
        "V1",
        vec![
            observation("OB1", "T1", "Sighting", Some(2)),
            observation("OB2", "T1", "Sighting", Some(5)),
        ],
    );
    store.upsert_transect(&t);
    let once = store.get_all_transects();
    let once_obs = store.get_observations(&"T1".to_string());

    store.upsert_transect(&t);
    let twice = store.get_all_transects();
    let twice_obs = store.get_observations(&"T1".to_string());

    assert_eq!(once, twice);
    assert_eq!(once_obs, twice_obs);
}

#[test]
fn missing_id_is_absent_not_an_error() {
    let mut store = Store::new();
    store.upsert_transect(&transect("T1", "V1", vec![]));

    assert!(store.get_transect_by_id(&"nonexistent".to_string()).is_none());
    assert!(store.get_observations(&"nonexistent".to_string()).is_empty());
}

#[test]
fn zero_observations_round_trips_as_empty_list() {
    let mut store = Store::new();
    store.upsert_transect(&transect("T1", "V1", vec![]));

    let fetched = store.get_transect_by_id(&"T1".to_string()).expect("stored transect");
    assert_eq!(fetched.observations, Vec::<Observation>::new());
}

#[test]
fn upsert_replaces_every_field_of_the_row() {
    let mut store = Store::new();
    store.upsert_transect(&transect("T1", "V1", vec![observation(
        "OB1",
        "T1",
        "Sighting",
        Some(3),
    )]));

    let mut newer = transect("T1", "V9", vec![observation("OB1", "T1", "Weather", None)]);
    newer.start_date = 2000;
    newer.end_date = 2600;
    newer.bearing = 5;
    newer.observer2_id = None;
    store.upsert_transect(&newer);

    let fetched = store.get_transect_by_id(&"T1".to_string()).expect("stored transect");
    assert_eq!(fetched, newer);
    assert_eq!(store.get_all_transects().len(), 1);
}

#[test]
fn upsert_does_not_delete_absent_observations() {
    let mut store = Store::new();
    store.upsert_transect(&transect("T1", "V1", vec![observation(
        "OB1",
        "T1",
        "Sighting",
        Some(3),
    )]));
    store.upsert_transect(&transect("T1", "V1", vec![observation(
        "OB2",
        "T1",
        "Sighting",
        Some(1),
    )]));

    let fetched = store.get_transect_by_id(&"T1".to_string()).expect("stored transect");
    let ids: Vec<&str> = fetched.observations.iter().map(|o| o.id.as_str()).collect();
    assert_eq!(ids, vec!["OB1", "OB2"]);
}

#[test]
fn observations_come_back_in_insertion_order() {
    let mut store = Store::new();
    let t = transect(
        "T1",
        "V1",
        vec![
            observation("OB3", "T1", "Weather", None),
            observation("OB1", "T1", "Sighting", Some(1)),
            observation("OB2", "T1", "Sighting", Some(2)),
        ],
    );
    store.upsert_transect(&t);

    let obs = store.get_observations(&"T1".to_string());
    let ids: Vec<&str> = obs.iter().map(|o| o.id.as_str()).collect();
    assert_eq!(ids, vec!["OB3", "OB1", "OB2"]);
}

#[test]
fn transects_for_vessel_leave_observations_empty() {
    let mut store = Store::new();
    store.upsert_transect(&transect("T1", "V1", vec![observation(
        "OB1",
        "T1",
        "Sighting",
        Some(3),
    )]));
    store.upsert_transect(&transect("T2", "V2", vec![]));

    let for_v1 = store.get_transects_for_vessel(&"V1".to_string());
    assert_eq!(for_v1.len(), 1);
    assert_eq!(for_v1[0].id, "T1");
    assert!(for_v1[0].observations.is_empty());
}

#[test]
fn round_trip_still_holds_when_observations_are_overwritten() {
    let mut store = Store::new();
    store.upsert_transect(&transect("T1", "V1", vec![observation(
        "OB1",
        "T1",
        "Sighting",
        Some(3),
    )]));

    let newer = transect(
        "T1",
        "V1",
        vec![
            observation("OB1", "T1", "Weather", None),
            observation("OB2", "T1", "Sighting", Some(4)),
        ],
    );
    store.upsert_transect(&newer);

    let fetched = store.get_transect_by_id(&"T1".to_string()).expect("stored transect");
    assert_eq!(fetched, newer);
}
