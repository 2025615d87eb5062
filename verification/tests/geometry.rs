use plane_projection::LatLon;
use plane_projection::PlaneProjection;
use plane_projection::lon_diff;

fn ll(lat: i64, lon: i64) -> LatLon {
    LatLon::new(lat, lon)
}

fn malmo() -> LatLon {
    // 55.60330902847681 N, 13.001973666557435 E, in microdegrees
    ll(55_603_309, 13_001_974)
}

fn lund() -> LatLon {
    // 55.704141722528554 N, 13.191304107330561 E
    ll(55_704_142, 13_191_304)
}

fn stockholm() -> LatLon {
    // 59.33036105663399 N, 18.058682977850953 E
    ll(59_330_361, 18_058_683)
}

/// Micrometers to whole meters, rounded to nearest.
fn round_m(um: u64) -> u64 {
    (um + 500_000) / 1_000_000
}

#[test]
fn lon_diff_test() {
    assert_eq!(lon_diff(0, 0), 0);
    assert_eq!(lon_diff(100_000_000, 0), 100_000_000);
    assert_eq!(lon_diff(100_000_000, -100_000_000), -160_000_000);
    assert_eq!(lon_diff(177_000_000, -177_000_000), -6_000_000);
    assert_eq!(lon_diff(358_000_000, 0), -2_000_000);
    assert_eq!(lon_diff(0, 358_000_000), 2_000_000);
    assert_eq!(lon_diff(0, -180_000_000), 180_000_000);
    assert_eq!(lon_diff(1_000_000, -180_000_000), -179_000_000);
    assert_eq!(lon_diff(180_000_000, 0), 180_000_000);
    assert_eq!(lon_diff(180_000_000, -1_000_000), -179_000_000);
    assert_eq!(lon_diff(180_000_000, -180_000_000), 0);
}

#[test]
fn distance_test() {
    let proj = PlaneProjection::new(55_650_000);
    assert_eq!(round_m(proj.distance(malmo(), lund())), 16374);

    // The geodesic distance between the two cities is 513_861 m and the best
    // precision from the plane projection comes from the halfway latitude.
    let proj = PlaneProjection::new((malmo().lat + stockholm().lat) / 2);
    assert_eq!(round_m(proj.distance(malmo(), stockholm())), 514_167); // 0.06% error
    let proj = PlaneProjection::new(malmo().lat);
    assert_eq!(round_m(proj.distance(malmo(), stockholm())), 523_227); // 1.8% error
    let proj = PlaneProjection::new(stockholm().lat);
    assert_eq!(round_m(proj.distance(malmo(), stockholm())), 505_212); // 1.7% error
}

#[test]
fn distance_to_segment_test() {
    let proj = PlaneProjection::new(0);
    assert_eq!(proj.distance_to_segment(ll(0, 0), (ll(0, 0), ll(0, 1_000_000))), 0);
    assert_eq!(proj.distance_to_segment(ll(0, 500_000), (ll(0, 0), ll(0, 1_000_000))), 0);
    assert_eq!(proj.distance_to_segment(ll(0, 1_000_000), (ll(0, 0), ll(0, 1_000_000))), 0);
    assert_eq!(
        proj.distance_to_segment(ll(0, 0), (ll(0, 1_000_000), ll(0, 2_000_000))),
        proj.distance(ll(0, 0), ll(0, 1_000_000))
    );
    assert_eq!(
        proj.distance_to_segment(ll(0, 4_500_000), (ll(0, 1_000_000), ll(0, 3_000_000))),
        proj.distance(ll(0, 4_500_000), ll(0, 3_000_000))
    );

    // zero-length segment
    assert_eq!(
        proj.distance_to_segment(ll(1_000_000, 2_000_000), (ll(3_000_000, 3_000_000), ll(3_000_000, 3_000_000))),
        proj.distance(ll(1_000_000, 2_000_000), ll(3_000_000, 3_000_000))
    );

    let proj = PlaneProjection::new(55_650_000);
    assert_eq!(proj.distance_to_segment(malmo(), (lund(), lund())) / 1_000_000, 16373);

    // This is why it's tricky - the point gets projected not onto a straight
    // line in the lat/lon space, but onto a segment in the projected space.
    assert_eq!(
        proj.distance_to_segment(ll(55_678_180, 13_058_790), (malmo(), lund())) / 1_000_000,
        3615
    );
}

#[test]
fn heading_test() {
    let proj = PlaneProjection::new(55_650_000);
    assert_eq!(proj.heading(ll(55_700_000, 13_190_000), ll(55_800_000, 13_190_000)), 0);
    assert_eq!(proj.heading(ll(55_700_000, 13_190_000), ll(55_600_000, 13_190_000)), 180);
    assert_eq!(proj.heading(ll(55_700_000, 13_190_000), ll(55_700_000, 13_290_000)), 90);
    assert_eq!(proj.heading(ll(55_700_000, 13_190_000), ll(55_700_000, 13_090_000)), 270);

    assert_eq!(proj.heading(malmo(), lund()), 46);
    assert_eq!(proj.heading(lund(), malmo()), 180 + 46);
}

#[test]
fn projection_scales_test() {
    let proj = PlaneProjection::new(55_650_000);
    assert_eq!(proj.lat_scale, 111_335);
    assert_eq!(proj.lon_scale, 62_955);
    let equator = PlaneProjection::new(0);
    assert_eq!(equator.lat_scale, 110_574);
    assert_eq!(equator.lon_scale, 111_319);
    // the projection is symmetric in the sign of the reference latitude
    let south = PlaneProjection::new(-55_650_000);
    assert_eq!(south.lat_scale, proj.lat_scale);
    assert_eq!(south.lon_scale, proj.lon_scale);
    // at the pole a degree of longitude has collapsed to nothing
    let pole = PlaneProjection::new(90_000_000);
    assert_eq!(pole.lat_scale, 111_693);
    assert_eq!(pole.lon_scale, 0);
}

#[test]
fn heading_degenerate_test() {
    // coincident points give the conventional 180, and every heading stays
    // inside [0, 360)
    let proj = PlaneProjection::new(55_650_000);
    let p = LatLon::new(55_700_000, 13_190_000);
    assert_eq!(proj.heading(p, p), 180);
    let q = LatLon::new(55_710_000, 13_170_000);
    assert!(proj.heading(p, q) < 360);
    assert!(proj.heading(q, p) < 360);
}

#[test]
fn project_test() {
    let proj = PlaneProjection::new(55_650_000);
    let (x, y) = proj.project(ll(2_000_000, -3_000_000));
    assert_eq!(x, 2_000_000 * 111_335);
    assert_eq!(y, -3_000_000 * 62_955);
}
