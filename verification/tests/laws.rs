use plane_projection::LatLon;
use plane_projection::PlaneProjection;
use plane_projection::lon_diff;

fn ll(lat: i64, lon: i64) -> LatLon {
    LatLon::new(lat, lon)
}

#[test]
fn distance_symmetry_test() {
    let proj = PlaneProjection::new(55_650_000);
    let a = ll(55_603_309, 13_001_974);
    let b = ll(55_704_142, 13_191_304);
    assert_eq!(proj.distance(a, b), proj.distance(b, a));
    assert_eq!(proj.square_distance(a, b), proj.square_distance(b, a));

    // a pair across the antimeridian
    let c = ll(10_000_000, 179_500_000);
    let d = ll(-5_000_000, -179_500_000);
    assert_eq!(proj.distance(c, d), proj.distance(d, c));
}

#[test]
fn distance_zero_test() {
    let proj = PlaneProjection::new(55_650_000);
    for &p in &[ll(0, 0), ll(55_603_309, 13_001_974), ll(-90_000_000, 360_000_000)] {
        assert_eq!(proj.distance(p, p), 0);
        assert_eq!(proj.square_distance(p, p), 0);
    }
}

#[test]
fn lon_diff_range_test() {
    let samples: [i64; 9] = [
        -180_000_000,
        -179_000_000,
        -1,
        0,
        1,
        179_000_000,
        180_000_000,
        359_000_000,
        360_000_000,
    ];
    for &a in &samples {
        for &b in &samples {
            let d = lon_diff(a, b);
            assert!(-180_000_000 <= d && d <= 180_000_000);
            // the result stays congruent to the raw difference, one turn off at most
            let raw = a - b;
            assert!(d == raw || d == raw - 360_000_000 || d == raw + 360_000_000);
        }
    }
}

#[test]
fn heading_reciprocity_test() {
    let proj = PlaneProjection::new(55_650_000);
    let pairs = [
        (ll(55_603_309, 13_001_974), ll(55_704_142, 13_191_304)),
        (ll(55_700_000, 13_190_000), ll(55_800_000, 13_190_000)),
        (ll(55_700_000, 13_190_000), ll(55_700_000, 13_290_000)),
        (ll(10_000_000, 179_500_000), ll(-5_000_000, -179_500_000)),
        (ll(-30_000_000, 20_000_000), ll(40_000_000, -50_000_000)),
    ];
    for &(a, b) in &pairs {
        let h1 = proj.heading(a, b) as u32;
        let h2 = proj.heading(b, a) as u32;
        assert_eq!((h1 + 180) % 360, h2);
    }
}

#[test]
fn segment_projection_boundary_test() {
    let proj = PlaneProjection::new(0);
    // the point projects beyond the far endpoint: the distance is to that
    // endpoint, not to the infinite line through the segment
    let s0 = ll(0, 0);
    let s1 = ll(0, 2_000_000);
    let beyond = ll(1_000_000, 3_000_000);
    assert_eq!(
        proj.distance_to_segment(beyond, (s0, s1)),
        proj.distance(beyond, s1)
    );
    assert!(proj.distance_to_segment(beyond, (s0, s1)) > proj.distance(beyond, ll(0, 3_000_000)));
    // and before the near endpoint: the distance is to the start
    let before = ll(-2_000_000, -1_500_000);
    assert_eq!(
        proj.distance_to_segment(before, (s0, s1)),
        proj.distance(before, s0)
    );
}

#[test]
fn accuracy_bound_test() {
    let malmo = ll(55_603_309, 13_001_974);
    let stockholm = ll(59_330_361, 18_058_683);
    // known geodesic distance between the two, in micrometers
    let geodesic: i64 = 513_861_000_000;
    let err = |reference: i64| -> i64 {
        let proj = PlaneProjection::new(reference);
        let d = proj.distance(malmo, stockholm) as i64;
        (d - geodesic).abs()
    };
    let mid_err = err((malmo.lat + stockholm.lat) / 2);
    // the midpoint reference stays within 0.1% of the geodesic distance
    assert!(mid_err * 1000 < geodesic);
    // and beats either endpoint reference
    assert!(mid_err < err(malmo.lat));
    assert!(mid_err < err(stockholm.lat));
}
