//! The great-circle distance the transport layer feeds into the rollup:
//! geoutils' haversine over a mean Earth radius. Its trigonometry is
//! floating-point work, so it lives outside the verified crate; these
//! tests pin the behaviour the rollup relies on.

use geoutils::Location;

fn km(a: (f64, f64), b: (f64, f64)) -> f64 {
    Location::new(a.0, a.1).haversine_distance_to(&Location::new(b.0, b.1)).meters() / 1000.0
}

#[test]
fn distance_is_symmetric() {
    let a = (56.3, -3.1);
    let b = (-12.75, 101.2);
    assert_eq!(km(a, b), km(b, a));
}

#[test]
fn distance_of_a_point_to_itself_is_zero() {
    let a = (48.8566, 2.3522);
    assert_eq!(km(a, a), 0.0);
}

#[test]
fn one_equatorial_degree_is_about_111_km() {
    let d = km((0.0, 0.0), (0.0, 1.0));
    assert!((d - 111.2).abs() < 0.1, "distance was {} km", d);
}
