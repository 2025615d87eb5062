//! Geographic coordinates in integer microdegrees, and the longitude
//! difference normalizer that handles the antimeridian wraparound.

use vstd::prelude::*;

verus! {

/// One degree, in microdegrees.
pub const MICRODEGREE_PER_DEGREE: i64 = 1_000_000;

/// Half a turn (180 degrees), in microdegrees.
pub const HALF_TURN: i64 = 180_000_000;

/// A full turn (360 degrees), in microdegrees.
pub const FULL_TURN: i64 = 360_000_000;

/// A geographic coordinate: latitude and longitude in microdegrees.
///
/// `1_000_000` microdegrees are one degree, so one unit of latitude is about
/// 0.11 meters on the ground.
#[derive(Clone, Copy, PartialEq, Eq, Structural, Debug)]
pub struct LatLon {
    /// Latitude in microdegrees, positive north.
    pub lat: i64,
    /// Longitude in microdegrees, positive east.
    pub lon: i64,
}

impl LatLon {
    /// A coordinate the library's geometry accepts: latitude within the poles,
    /// longitude expressed either in [-180, 180] or in [0, 360] convention
    /// (so anywhere in [-180, 360] degrees).
    pub open spec fn valid(self) -> bool {
        &&& -90_000_000 <= self.lat <= 90_000_000
        &&& -180_000_000 <= self.lon <= 360_000_000
    }

    /// Builds a coordinate from latitude and longitude in microdegrees.
    pub fn new(lat: i64, lon: i64) -> (r: LatLon)
        ensures
            r.lat == lat,
            r.lon == lon,
    {
        LatLon { lat, lon }
    }
}

/// The normalized longitude difference `a - b`: the raw difference, with one
/// full turn added or subtracted when it falls outside [-180, 180] degrees.
pub open spec fn lon_diff_spec(a: int, b: int) -> int {
    let d: int = a - b;
    if d > HALF_TURN {
        d - FULL_TURN
    } else if d < -HALF_TURN {
        d + FULL_TURN
    } else {
        d
    }
}

/// Difference between two longitudes in microdegrees, reduced to
/// [-180, 180] degrees: the shortest signed angular difference across the
/// antimeridian.
///
/// A difference of exactly 180 degrees keeps its sign: `lon_diff(a, b)` is
/// `180_000_000` when `a - b` is, and `-180_000_000` when `a - b` is.
/// One wraparound adjustment is all that is ever applied, so the inputs must
/// be plain degree values whose raw difference is at most one and a half
/// turns; any two valid coordinates satisfy that.
pub fn lon_diff(a: i64, b: i64) -> (r: i64)
    requires
        -540_000_000 <= a - b <= 540_000_000,
    ensures
        r == lon_diff_spec(a as int, b as int),
        -180_000_000 <= r <= 180_000_000,
{
    let d: i64 = a - b;
    if d > HALF_TURN {
        d - FULL_TURN
    } else if d < -HALF_TURN {
        d + FULL_TURN
    } else {
        d
    }
}

/// Law: the normalized longitude difference always lies in [-180, 180]
/// degrees, for any raw difference of at most one and a half turns.
pub proof fn lemma_lon_diff_range(a: int, b: int)
    requires
        -540_000_000 <= a - b <= 540_000_000,
    ensures
        -180_000_000 <= lon_diff_spec(a, b) <= 180_000_000,
{
}

/// Law: the normalized longitude difference is antisymmetric,
/// `lon_diff(a, b) == -lon_diff(b, a)`, including at exactly 180 degrees.
pub proof fn lemma_lon_diff_antisymmetric(a: int, b: int)
    requires
        -540_000_000 <= a - b <= 540_000_000,
    ensures
        lon_diff_spec(a, b) == -lon_diff_spec(b, a),
{
}

/// Law: a longitude's normalized difference with itself is zero.
pub proof fn lemma_lon_diff_self(a: int)
    ensures
        lon_diff_spec(a, a) == 0,
{
}

/// Law: measuring two longitudes `p` and `q` in the frame of a third
/// longitude `o` and subtracting gives the direct normalized difference of
/// `p` and `q`, up to sign — so exactly, once squared — provided the frame
/// difference itself does not wrap (stays within half a turn).
pub proof fn lemma_lon_diff_frame(p: int, q: int, o: int)
    requires
        -540_000_000 <= p - o <= 540_000_000,
        -540_000_000 <= q - o <= 540_000_000,
        -540_000_000 <= p - q <= 540_000_000,
        -180_000_000 <= lon_diff_spec(p, o) - lon_diff_spec(q, o) <= 180_000_000,
    ensures
        (lon_diff_spec(p, o) - lon_diff_spec(q, o)) * (lon_diff_spec(p, o) - lon_diff_spec(q, o))
            == lon_diff_spec(p, q) * lon_diff_spec(p, q),
{
    let x: int = lon_diff_spec(p, o) - lon_diff_spec(q, o);
    let c: int = lon_diff_spec(p, q);
    if x == c {
    } else {
        assert(x == -c);
        assert(x * x == c * c) by (nonlinear_arith)
            requires
                x == -c,
        ;
    }
}

} // verus!
