//! The plane projection: two cached integer scale factors per reference
//! latitude, and the distance / segment-distance / heading geometry that
//! they turn into exact Euclidean integer math.

use vstd::prelude::*;
use crate::latlon::LatLon;
use crate::latlon::lon_diff_spec;
use crate::arith::tdiv;
use crate::isqrt::is_isqrt;
use crate::isqrt::isqrt_spec;

verus! {

/// Equatorial radius of the WGS84 ellipsoid, in meters.
pub const EQUATORIAL_RADIUS_M: i64 = 6_378_137;

/// Squared eccentricity of the WGS84 ellipsoid
/// (`flattening * (2 - flattening)` for flattening 1/298.257223563),
/// scaled by `1e9` and rounded to nearest.
pub const SQUARED_ECCENTRICITY_E9: i64 = 6_694_380;

/// A plane projection for fast approximate distance calculations, anchored at
/// a reference latitude of the WGS84 ellipsoid model of the Earth.
///
/// The projection is two integer scale factors, both in meters per degree.
/// They turn differences of coordinates in microdegrees into plane
/// coordinates in micrometers, where all the geometry is plain Euclidean
/// integer math.  A value is immutable after construction and freely
/// copyable.
///
/// Accuracy is set by the reference latitude: about 0.1% on distances under
/// 500 km at latitudes up to 65 degrees, when the reference latitude is
/// near the midpoint of the measured points.
#[derive(Clone, Copy)]
pub struct PlaneProjection {
    /// Meters per degree of latitude at the reference latitude.
    pub lat_scale: i64,
    /// Meters per degree of longitude at the reference latitude.
    pub lon_scale: i64,
}

impl PlaneProjection {
    /// Scale factors any constructed projection satisfies: the latitude scale
    /// of the WGS84 ellipsoid is never far from 111 km per degree, and the
    /// longitude scale shrinks from it toward zero at the poles.
    pub open spec fn wf(self) -> bool {
        &&& 110_000 <= self.lat_scale <= 112_000
        &&& 0 <= self.lon_scale <= 112_000
    }

    /// The pair `(lat_scale, lon_scale)` in meters per degree derived from a
    /// reference latitude in microdegrees: the fixed-point evaluation of the
    /// WGS84 normal-to-meridional radius ratio `w2 = 1 / (1 - e2 (1 - cos2))`
    /// and of the two radii of curvature,
    /// `lon_scale = radians(R w cos)` and `lat_scale = radians(R w w2 (1 - e2))`.
    pub open spec fn scales_spec(lat: int) -> (int, int) {
        let alat: int = if lat < 0 {
            -lat
        } else {
            lat
        };
        let c: int = crate::trig::cos_e9_spec(alat);
        let c2: int = (c * c) / 1_000_000_000;
        let denom: int = 1_000_000_000 - (SQUARED_ECCENTRICITY_E9 * (1_000_000_000 - c2))
            / 1_000_000_000;
        let w2: int = 1_000_000_000_000_000_000int / denom;
        let w: int = isqrt_spec(w2 * 1_000_000_000);
        let s1: int = EQUATORIAL_RADIUS_M * w;
        let lon_s: int = ((s1 * c / 1_000_000_000) * crate::trig::RAD_PER_DEGREE_E9)
            / 1_000_000_000_000_000_000;
        let s2: int = s1 * w2 / 1_000_000_000;
        let s3: int = s2 * (1_000_000_000 - SQUARED_ECCENTRICITY_E9) / 1_000_000_000;
        let lat_s: int = (s3 * crate::trig::RAD_PER_DEGREE_E9) / 1_000_000_000_000_000_000;
        (lat_s, lon_s)
    }

    /// Creates a plane projection anchored at the provided reference latitude
    /// in microdegrees.
    pub fn new(latitude: i64) -> (r: PlaneProjection)
        requires
            -90_000_000 <= latitude <= 90_000_000,
        ensures
            r.lat_scale == Self::scales_spec(latitude as int).0,
            r.lon_scale == Self::scales_spec(latitude as int).1,
            r.wf(),
    {
        let alat: i64 = if latitude < 0 {
            -latitude
        } else {
            latitude
        };
        let c64: u64 = crate::trig::cos_e9(alat);
        let c: u128 = c64 as u128;
        proof {
            assert(c * c <= 1_000_000_000_000_000_000) by (nonlinear_arith)
                requires
                    0 <= c <= 1_000_000_000,
            ;
        }
        let c2: u128 = (c * c) / 1_000_000_000;
        proof {
            vstd::arithmetic::div_mod::lemma_div_is_ordered(
                (c * c) as int,
                1_000_000_000_000_000_000,
                1_000_000_000,
            );
            assert(c2 <= 1_000_000_000);
        }
        let denom: u128 = 1_000_000_000 - ((SQUARED_ECCENTRICITY_E9 as u128) * (1_000_000_000
            - c2)) / 1_000_000_000;
        proof {
            vstd::arithmetic::div_mod::lemma_div_is_ordered(
                ((SQUARED_ECCENTRICITY_E9 as u128) * (1_000_000_000 - c2)) as int,
                6_694_380_000_000_000,
                1_000_000_000,
            );
            assert(993_305_620 <= denom <= 1_000_000_000);
        }
        let w2: u128 = 1_000_000_000_000_000_000 / denom;
        proof {
            vstd::arithmetic::div_mod::lemma_div_is_ordered_by_denominator(
                1_000_000_000_000_000_000,
                993_305_620,
                denom as int,
            );
            vstd::arithmetic::div_mod::lemma_div_is_ordered_by_denominator(
                1_000_000_000_000_000_000,
                denom as int,
                1_000_000_000,
            );
            assert(1_000_000_000 <= w2 <= 1_006_739_496);
        }
        let w: u64 = crate::isqrt::isqrt_u128(w2 * 1_000_000_000);
        proof {
            assert(1_000_000_000 <= w <= 1_003_364_089) by (nonlinear_arith)
                requires
                    (w as int) * (w as int) <= (w2 * 1_000_000_000) as int,
                    ((w2 * 1_000_000_000) as int) < (w as int + 1) * (w as int + 1),
                    1_000_000_000_000_000_000 <= (w2 * 1_000_000_000) as int
                        <= 1_006_739_496_000_000_000,
                    0 <= w,
            ;
        }
        let s1: u128 = (EQUATORIAL_RADIUS_M as u128) * (w as u128);
        proof {
            assert(6_378_137_000_000_000 <= s1 <= 6_399_593_620_522_193);
            assert(s1 * c <= 6_399_593_620_522_193_000_000_000) by (nonlinear_arith)
                requires
                    0 <= s1 <= 6_399_593_620_522_193,
                    0 <= c <= 1_000_000_000,
            ;
        }
        let lon_t: u128 = (s1 * c) / 1_000_000_000;
        proof {
            vstd::arithmetic::div_mod::lemma_div_is_ordered(
                (s1 * c) as int,
                6_399_593_620_522_193_000_000_000,
                1_000_000_000,
            );
            assert(lon_t <= 6_399_593_620_522_193);
            vstd::arithmetic::div_mod::lemma_div_is_ordered(
                (lon_t * (crate::trig::RAD_PER_DEGREE_E9 as u128)) as int,
                6_399_593_620_522_193int * 17_453_293,
                1_000_000_000_000_000_000,
            );
        }
        let lon_scale: u128 = (lon_t * (crate::trig::RAD_PER_DEGREE_E9 as u128))
            / 1_000_000_000_000_000_000;
        proof {
            assert(lon_scale <= 111_693);
        }
        proof {
            assert(6_378_137_000_000_000_000_000_000 <= s1 * w2) by (nonlinear_arith)
                requires
                    6_378_137_000_000_000 <= s1,
                    1_000_000_000 <= w2,
            ;
            vstd::arithmetic::mul::lemma_mul_upper_bound(
                s1 as int,
                6_399_593_620_522_193,
                w2 as int,
                1_006_739_496,
            );
            assert(s1 * w2 <= 6_442_723_656_129_327_837_634_728);
        }
        let s2: u128 = (s1 * (w2 as u128)) / 1_000_000_000;
        proof {
            vstd::arithmetic::div_mod::lemma_div_is_ordered(
                6_378_137_000_000_000_000_000_000int,
                (s1 * w2) as int,
                1_000_000_000,
            );
            vstd::arithmetic::div_mod::lemma_div_is_ordered(
                (s1 * w2) as int,
                6_442_723_656_129_327_837_634_728,
                1_000_000_000,
            );
            assert(6_378_137_000_000_000 <= s2 <= 6_442_723_656_129_327);
        }
        let s3: u128 = (s2 * ((1_000_000_000 - SQUARED_ECCENTRICITY_E9) as u128))
            / 1_000_000_000;
        proof {
            vstd::arithmetic::div_mod::lemma_div_is_ordered(
                6_378_137_000_000_000int * 993_305_620,
                (s2 * 993_305_620) as int,
                1_000_000_000,
            );
            vstd::arithmetic::div_mod::lemma_div_is_ordered(
                (s2 * ((1_000_000_000 - SQUARED_ECCENTRICITY_E9) as u128)) as int,
                6_442_723_656_129_327int * 993_305_620,
                1_000_000_000,
            );
            assert(6_335_439_327_229_940 <= s3 <= 6_399_593_615_740_207);
        }
        let lat_scale: u128 = (s3 * (crate::trig::RAD_PER_DEGREE_E9 as u128))
            / 1_000_000_000_000_000_000;
        proof {
            vstd::arithmetic::div_mod::lemma_div_is_ordered(
                6_335_439_327_229_940int * 17_453_293,
                (s3 * (crate::trig::RAD_PER_DEGREE_E9 as u128)) as int,
                1_000_000_000_000_000_000,
            );
            vstd::arithmetic::div_mod::lemma_div_is_ordered(
                (s3 * (crate::trig::RAD_PER_DEGREE_E9 as u128)) as int,
                6_399_593_615_740_207int * 17_453_293,
                1_000_000_000_000_000_000,
            );
            assert(110_574 <= lat_scale <= 111_693);
        }
        PlaneProjection { lat_scale: lat_scale as i64, lon_scale: lon_scale as i64 }
    }

    /// The north plane coordinate of `a` relative to `o`, in micrometers:
    /// the latitude difference in microdegrees times the meters-per-degree
    /// latitude scale.
    pub open spec fn plane_x(self, a: LatLon, o: LatLon) -> int {
        (a.lat - o.lat) * self.lat_scale
    }

    /// The east plane coordinate of `a` relative to `o`, in micrometers: the
    /// normalized longitude difference in microdegrees times the
    /// meters-per-degree longitude scale.
    pub open spec fn plane_y(self, a: LatLon, o: LatLon) -> int {
        lon_diff_spec(a.lon as int, o.lon as int) * self.lon_scale
    }

    /// The square of the plane distance between `a` and `b`, in square
    /// micrometers.
    pub open spec fn sq_dist_spec(self, a: LatLon, b: LatLon) -> int {
        self.plane_x(a, b) * self.plane_x(a, b) + self.plane_y(a, b) * self.plane_y(a, b)
    }

    /// Projects a coordinate into the plane projection space; the result is
    /// `(north, east)` in micrometers of the raw coordinate values.
    ///
    /// This is for low-level vector math in the projection space; the
    /// built-in methods cover distances and headings.
    pub fn project(&self, ll: LatLon) -> (r: (i64, i64))
        requires
            self.wf(),
            ll.valid(),
        ensures
            r.0 == ll.lat * self.lat_scale,
            r.1 == ll.lon * self.lon_scale,
    {
        proof {
            assert(-10_080_000_000_000 <= (ll.lat as int) * (self.lat_scale as int)
                <= 10_080_000_000_000) by (nonlinear_arith)
                requires
                    -90_000_000 <= ll.lat <= 90_000_000,
                    0 <= self.lat_scale <= 112_000,
            ;
            assert(-40_320_000_000_000 <= (ll.lon as int) * (self.lon_scale as int)
                <= 40_320_000_000_000) by (nonlinear_arith)
                requires
                    -360_000_000 <= ll.lon <= 360_000_000,
                    0 <= self.lon_scale <= 112_000,
            ;
        }
        let x: i64 = (((ll.lat as i128) * (self.lat_scale as i128)) as i64);
        let y: i64 = (((ll.lon as i128) * (self.lon_scale as i128)) as i64);
        (x, y)
    }

    /// Square distance in square micrometers between two coordinates: the
    /// sum of the squared scaled latitude difference and the squared scaled
    /// normalized longitude difference.
    pub fn square_distance(&self, a: LatLon, b: LatLon) -> (r: u128)
        requires
            self.wf(),
            a.valid(),
            b.valid(),
        ensures
            r == self.sq_dist_spec(a, b),
    {
        let dlat: i64 = a.lat - b.lat;
        let yd: i64 = crate::latlon::lon_diff(a.lon, b.lon);
        proof {
            lemma_plane_coord_bounds(dlat as int, self.lat_scale as int);
            lemma_plane_coord_bounds(yd as int, self.lon_scale as int);
        }
        let x: i128 = (dlat as i128) * (self.lat_scale as i128);
        let y: i128 = (yd as i128) * (self.lon_scale as i128);
        proof {
            lemma_square_in_range(x as int, 20_160_000_000_000);
            lemma_square_in_range(y as int, 20_160_000_000_000);
        }
        ((x * x) as u128) + ((y * y) as u128)
    }

    /// Distance in micrometers between two coordinates: the integer square
    /// root of [`Self::square_distance`].
    pub fn distance(&self, a: LatLon, b: LatLon) -> (r: u64)
        requires
            self.wf(),
            a.valid(),
            b.valid(),
        ensures
            r == isqrt_spec(self.sq_dist_spec(a, b)),
            is_isqrt(self.sq_dist_spec(a, b), r as int),
    {
        let sq: u128 = self.square_distance(a, b);
        crate::isqrt::isqrt_u128(sq)
    }

    /// The segment geometry works in a plane frame whose origin is the
    /// segment start, so every extent involved must stay within 16 degrees
    /// (roughly 1800 km) of it; the projection's accuracy domain of 500 km
    /// lies well inside.
    pub open spec fn seg_in_range(self, p: LatLon, s0: LatLon, s1: LatLon) -> bool {
        &&& -16_000_000 <= p.lat - s0.lat <= 16_000_000
        &&& -16_000_000 <= s1.lat - s0.lat <= 16_000_000
        &&& -16_000_000 <= lon_diff_spec(p.lon as int, s0.lon as int) <= 16_000_000
        &&& -16_000_000 <= lon_diff_spec(s1.lon as int, s0.lon as int) <= 16_000_000
    }

    /// The square of the minimum plane distance from `p` to the segment
    /// `[s0, s1]`, in square micrometers.
    ///
    /// All coordinates are translated into the plane frame anchored at `s0`.
    /// A point whose scalar projection falls beyond `s1` measures to `s1`,
    /// one that falls before `s0` measures to `s0`, and one that falls on the
    /// interior measures to the interior projection, its coordinates rounded
    /// toward zero; a zero-length segment measures plain point-to-`s0`
    /// square distance.
    pub open spec fn seg_sq_dist_spec(self, p: LatLon, s0: LatLon, s1: LatLon) -> int {
        let px: int = self.plane_x(p, s0);
        let py: int = self.plane_y(p, s0);
        let sx: int = self.plane_x(s1, s0);
        let sy: int = self.plane_y(s1, s0);
        if sx == 0 && sy == 0 {
            px * px + py * py
        } else {
            let n: int = px * sx + py * sy;
            let d: int = sx * sx + sy * sy;
            if n > d {
                (px - sx) * (px - sx) + (py - sy) * (py - sy)
            } else if n > 0 {
                let qx: int = px - tdiv(sx * n, d);
                let qy: int = py - tdiv(sy * n, d);
                qx * qx + qy * qy
            } else {
                px * px + py * py
            }
        }
    }

    /// Square distance in square micrometers from a point to the segment
    /// `(start, end)`, measured in the plane frame anchored at the segment
    /// start.
    pub fn square_distance_to_segment(&self, point: LatLon, segment: (LatLon, LatLon)) -> (r:
        u128)
        requires
            self.wf(),
            point.valid(),
            segment.0.valid(),
            segment.1.valid(),
            self.seg_in_range(point, segment.0, segment.1),
        ensures
            r == self.seg_sq_dist_spec(point, segment.0, segment.1),
    {
        let s0: LatLon = segment.0;
        let s1: LatLon = segment.1;
        let pdlat: i64 = point.lat - s0.lat;
        let pdlon: i64 = crate::latlon::lon_diff(point.lon, s0.lon);
        let sdlat: i64 = s1.lat - s0.lat;
        let sdlon: i64 = crate::latlon::lon_diff(s1.lon, s0.lon);
        proof {
            lemma_seg_coord_bounds(pdlat as int, self.lat_scale as int);
            lemma_seg_coord_bounds(pdlon as int, self.lon_scale as int);
            lemma_seg_coord_bounds(sdlat as int, self.lat_scale as int);
            lemma_seg_coord_bounds(sdlon as int, self.lon_scale as int);
        }
        let px: i128 = (pdlat as i128) * (self.lat_scale as i128);
        let py: i128 = (pdlon as i128) * (self.lon_scale as i128);
        let sx: i128 = (sdlat as i128) * (self.lat_scale as i128);
        let sy: i128 = (sdlon as i128) * (self.lon_scale as i128);
        if sx != 0 || sy != 0 {
            proof {
                lemma_dot_in_range(px as int, py as int, sx as int, sy as int);
                lemma_dot_in_range(sx as int, sy as int, sx as int, sy as int);
                lemma_square_in_range(sx as int, 1_792_000_000_000);
                lemma_square_in_range(sy as int, 1_792_000_000_000);
                if sx != 0 {
                    lemma_square_positive(sx as int);
                } else {
                    lemma_square_positive(sy as int);
                }
            }
            let n: i128 = px * sx + py * sy;
            let d: i128 = sx * sx + sy * sy;
            if n > d {
                let qx: i128 = px - sx;
                let qy: i128 = py - sy;
                proof {
                    lemma_square_in_range(qx as int, 3_584_000_000_000);
                    lemma_square_in_range(qy as int, 3_584_000_000_000);
                }
                ((qx * qx) as u128) + ((qy * qy) as u128)
            } else if n > 0 {
                proof {
                    lemma_dot_mul_in_range(sx as int, n as int);
                    lemma_dot_mul_in_range(sy as int, n as int);
                }
                let ax: i128 = crate::arith::div_i128(sx * n, d);
                let ay: i128 = crate::arith::div_i128(sy * n, d);
                proof {
                    lemma_proj_adjust_bound(sx as int, n as int, d as int);
                    lemma_proj_adjust_bound(sy as int, n as int, d as int);
                }
                let qx: i128 = px - ax;
                let qy: i128 = py - ay;
                proof {
                    lemma_square_in_range(qx as int, 3_584_000_000_000);
                    lemma_square_in_range(qy as int, 3_584_000_000_000);
                }
                ((qx * qx) as u128) + ((qy * qy) as u128)
            } else {
                proof {
                    lemma_square_in_range(px as int, 1_792_000_000_000);
                    lemma_square_in_range(py as int, 1_792_000_000_000);
                }
                ((px * px) as u128) + ((py * py) as u128)
            }
        } else {
            proof {
                lemma_square_in_range(px as int, 1_792_000_000_000);
                lemma_square_in_range(py as int, 1_792_000_000_000);
            }
            ((px * px) as u128) + ((py * py) as u128)
        }
    }

    /// Distance in micrometers from a point to the segment `(start, end)`:
    /// the integer square root of [`Self::square_distance_to_segment`].
    pub fn distance_to_segment(&self, point: LatLon, segment: (LatLon, LatLon)) -> (r: u64)
        requires
            self.wf(),
            point.valid(),
            segment.0.valid(),
            segment.1.valid(),
            self.seg_in_range(point, segment.0, segment.1),
        ensures
            r == isqrt_spec(self.seg_sq_dist_spec(point, segment.0, segment.1)),
            is_isqrt(self.seg_sq_dist_spec(point, segment.0, segment.1), r as int),
    {
        let sq: u128 = self.square_distance_to_segment(point, segment);
        crate::isqrt::isqrt_u128(sq)
    }

    /// The heading from `a` to `b` in whole degrees, clockwise from north:
    /// with `u` the east and `v` the north plane component of `b` relative
    /// to `a`, the quadrant determined by their signs plus the tabulated
    /// whole-degree arctangent of the ratio within the quadrant.  Two
    /// coincident plane points give 180 by convention.
    pub open spec fn heading_spec(self, a: LatLon, b: LatLon) -> int {
        let u: int = self.plane_y(b, a);
        let v: int = self.plane_x(b, a);
        if u == 0 && v == 0 {
            180
        } else if u >= 0 && v > 0 {
            crate::trig::atan_deg_spec(u, v)
        } else if u > 0 && v <= 0 {
            90 + crate::trig::atan_deg_spec(-v, u)
        } else if u <= 0 && v < 0 {
            180 + crate::trig::atan_deg_spec(-u, -v)
        } else {
            270 + crate::trig::atan_deg_spec(v, -u)
        }
    }

    /// Heading (azimuth) in whole degrees from `a` to `b`, in [0, 360),
    /// measured clockwise from north: 0 is north, 90 is east, 180 is south
    /// and 270 is west.  The fractional part of the exact bearing is
    /// truncated away by the whole-degree arctangent tables.
    pub fn heading(&self, a: LatLon, b: LatLon) -> (r: u16)
        requires
            self.wf(),
            a.valid(),
            b.valid(),
        ensures
            r == self.heading_spec(a, b),
            r < 360,
    {
        let ud: i64 = crate::latlon::lon_diff(b.lon, a.lon);
        let vd: i64 = b.lat - a.lat;
        proof {
            lemma_plane_coord_bounds(ud as int, self.lon_scale as int);
            lemma_plane_coord_bounds(vd as int, self.lat_scale as int);
        }
        let u: i128 = (ud as i128) * (self.lon_scale as i128);
        let v: i128 = (vd as i128) * (self.lat_scale as i128);
        if u == 0 && v == 0 {
            180
        } else if u >= 0 && v > 0 {
            crate::trig::atan_deg(u as u64, v as u64) as u16
        } else if u > 0 && v <= 0 {
            90 + (crate::trig::atan_deg((-v) as u64, u as u64) as u16)
        } else if u <= 0 && v < 0 {
            180 + (crate::trig::atan_deg((-u) as u64, (-v) as u64) as u16)
        } else {
            270 + (crate::trig::atan_deg(v as u64, (-u) as u64) as u16)
        }
    }
}

/// Any scaled coordinate difference of at most 16 degrees stays within
/// 16 degrees times the largest scale factor.
proof fn lemma_seg_coord_bounds(d: int, s: int)
    requires
        -16_000_000 <= d <= 16_000_000,
        0 <= s <= 112_000,
    ensures
        -1_792_000_000_000 <= d * s <= 1_792_000_000_000,
{
    assert(-1_792_000_000_000 <= d * s <= 1_792_000_000_000) by (nonlinear_arith)
        requires
            -16_000_000 <= d <= 16_000_000,
            0 <= s <= 112_000,
    ;
}

/// A dot product of two segment-frame vectors stays within twice the square
/// of the largest component.
proof fn lemma_dot_in_range(ax: int, ay: int, bx: int, by: int)
    requires
        -1_792_000_000_000 <= ax <= 1_792_000_000_000,
        -1_792_000_000_000 <= ay <= 1_792_000_000_000,
        -1_792_000_000_000 <= bx <= 1_792_000_000_000,
        -1_792_000_000_000 <= by <= 1_792_000_000_000,
    ensures
        -3_211_264_000_000_000_000_000_000 <= ax * bx <= 3_211_264_000_000_000_000_000_000,
        -3_211_264_000_000_000_000_000_000 <= ay * by <= 3_211_264_000_000_000_000_000_000,
        -6_422_528_000_000_000_000_000_000 <= ax * bx + ay * by
            <= 6_422_528_000_000_000_000_000_000,
{
    assert(-3_211_264_000_000_000_000_000_000 <= ax * bx <= 3_211_264_000_000_000_000_000_000)
        by (nonlinear_arith)
        requires
            -1_792_000_000_000 <= ax <= 1_792_000_000_000,
            -1_792_000_000_000 <= bx <= 1_792_000_000_000,
    ;
    assert(-3_211_264_000_000_000_000_000_000 <= ay * by <= 3_211_264_000_000_000_000_000_000)
        by (nonlinear_arith)
        requires
            -1_792_000_000_000 <= ay <= 1_792_000_000_000,
            -1_792_000_000_000 <= by <= 1_792_000_000_000,
    ;
}

/// A segment component times a dot product stays within the 128-bit range.
proof fn lemma_dot_mul_in_range(sv: int, n: int)
    requires
        -1_792_000_000_000 <= sv <= 1_792_000_000_000,
        -6_422_528_000_000_000_000_000_000 <= n <= 6_422_528_000_000_000_000_000_000,
    ensures
        -11_509_170_176_000_000_000_000_000_000_000_000_000 <= sv * n
            <= 11_509_170_176_000_000_000_000_000_000_000_000_000,
{
    assert(-11_509_170_176_000_000_000_000_000_000_000_000_000 <= sv * n
        <= 11_509_170_176_000_000_000_000_000_000_000_000_000) by (nonlinear_arith)
        requires
            -1_792_000_000_000 <= sv <= 1_792_000_000_000,
            -6_422_528_000_000_000_000_000_000 <= n <= 6_422_528_000_000_000_000_000_000,
    ;
}

/// The square of a nonzero value is at least one.
proof fn lemma_square_positive(x: int)
    requires
        x != 0,
    ensures
        x * x >= 1,
{
    assert(x * x >= 1) by (nonlinear_arith)
        requires
            x != 0,
    ;
}

/// The square of any value is nonnegative.
proof fn lemma_square_nonneg(x: int)
    ensures
        0 <= x * x,
{
    assert(0 <= x * x) by (nonlinear_arith);
}

/// Law: the square distance — and with it the distance, its integer square
/// root — is symmetric in its two coordinates.
pub proof fn lemma_square_distance_symmetric(proj: PlaneProjection, a: LatLon, b: LatLon)
    requires
        a.valid(),
        b.valid(),
    ensures
        proj.sq_dist_spec(a, b) == proj.sq_dist_spec(b, a),
        isqrt_spec(proj.sq_dist_spec(a, b)) == isqrt_spec(proj.sq_dist_spec(b, a)),
{
    crate::latlon::lemma_lon_diff_antisymmetric(a.lon as int, b.lon as int);
    assert(proj.plane_x(a, b) == -proj.plane_x(b, a)) by (nonlinear_arith);
    assert(proj.plane_y(a, b) == -proj.plane_y(b, a)) by (nonlinear_arith)
        requires
            lon_diff_spec(a.lon as int, b.lon as int) == -lon_diff_spec(
                b.lon as int,
                a.lon as int,
            ),
    ;
    assert(proj.sq_dist_spec(a, b) == proj.sq_dist_spec(b, a)) by (nonlinear_arith)
        requires
            proj.plane_x(a, b) == -proj.plane_x(b, a),
            proj.plane_y(a, b) == -proj.plane_y(b, a),
    ;
}

/// Law: the distance from any coordinate to itself is zero.
pub proof fn lemma_distance_zero(proj: PlaneProjection, a: LatLon)
    ensures
        proj.sq_dist_spec(a, a) == 0,
        isqrt_spec(proj.sq_dist_spec(a, a)) == 0,
{
    crate::latlon::lemma_lon_diff_self(a.lon as int);
    assert(proj.plane_x(a, a) == 0) by (nonlinear_arith);
    assert(proj.plane_y(a, a) == 0) by (nonlinear_arith)
        requires
            lon_diff_spec(a.lon as int, a.lon as int) == 0,
    ;
}

/// Law: a zero-length segment measures exactly as the plain point-to-point
/// distance to its (coincident) endpoints.
pub proof fn lemma_segment_degenerate(proj: PlaneProjection, p: LatLon, s: LatLon)
    ensures
        proj.seg_sq_dist_spec(p, s, s) == proj.sq_dist_spec(p, s),
{
    crate::latlon::lemma_lon_diff_self(s.lon as int);
}

/// Law: a point whose scalar projection falls at or before the segment start
/// measures exactly as the plain distance to the start.
pub proof fn lemma_segment_beyond_start(proj: PlaneProjection, p: LatLon, s0: LatLon, s1: LatLon)
    requires
        proj.plane_x(p, s0) * proj.plane_x(s1, s0) + proj.plane_y(p, s0) * proj.plane_y(s1, s0)
            <= 0,
    ensures
        proj.seg_sq_dist_spec(p, s0, s1) == proj.sq_dist_spec(p, s0),
{
    lemma_square_nonneg(proj.plane_x(s1, s0));
    lemma_square_nonneg(proj.plane_y(s1, s0));
}

/// Law: a point whose scalar projection falls beyond the segment end
/// measures exactly as the plain distance to the end — provided the
/// longitude frame anchored at the start does not wrap around relative to
/// the end (their normalized differences stay within half a turn of each
/// other).
pub proof fn lemma_segment_beyond_end(proj: PlaneProjection, p: LatLon, s0: LatLon, s1: LatLon)
    requires
        p.valid(),
        s0.valid(),
        s1.valid(),
        proj.plane_x(p, s0) * proj.plane_x(s1, s0) + proj.plane_y(p, s0) * proj.plane_y(s1, s0)
            > proj.plane_x(s1, s0) * proj.plane_x(s1, s0) + proj.plane_y(s1, s0) * proj.plane_y(
            s1,
            s0,
        ),
        -180_000_000 <= lon_diff_spec(p.lon as int, s0.lon as int) - lon_diff_spec(
            s1.lon as int,
            s0.lon as int,
        ) <= 180_000_000,
    ensures
        proj.seg_sq_dist_spec(p, s0, s1) == proj.sq_dist_spec(p, s1),
{
    let px: int = proj.plane_x(p, s0);
    let py: int = proj.plane_y(p, s0);
    let sx: int = proj.plane_x(s1, s0);
    let sy: int = proj.plane_y(s1, s0);
    lemma_square_nonneg(sx);
    lemma_square_nonneg(sy);
    assert(!(sx == 0 && sy == 0));
    assert(px - sx == proj.plane_x(p, s1)) by (nonlinear_arith)
        requires
            px == (p.lat - s0.lat) * proj.lat_scale,
            sx == (s1.lat - s0.lat) * proj.lat_scale,
    ;
    let fd: int = lon_diff_spec(p.lon as int, s0.lon as int) - lon_diff_spec(
        s1.lon as int,
        s0.lon as int,
    );
    let c: int = lon_diff_spec(p.lon as int, s1.lon as int);
    crate::latlon::lemma_lon_diff_frame(p.lon as int, s1.lon as int, s0.lon as int);
    assert(py - sy == fd * proj.lon_scale) by (nonlinear_arith)
        requires
            py == lon_diff_spec(p.lon as int, s0.lon as int) * proj.lon_scale,
            sy == lon_diff_spec(s1.lon as int, s0.lon as int) * proj.lon_scale,
            fd == lon_diff_spec(p.lon as int, s0.lon as int) - lon_diff_spec(
                s1.lon as int,
                s0.lon as int,
            ),
    ;
    assert((fd * proj.lon_scale) * (fd * proj.lon_scale) == (c * proj.lon_scale) * (c
        * proj.lon_scale)) by (nonlinear_arith)
        requires
            fd * fd == c * c,
    ;
}

/// Law: cardinal directions come out exactly — due north, south, east and
/// west pairs yield headings of exactly 0, 180, 90 and 270 whole degrees
/// (for east and west the longitude scale must not have collapsed to zero,
/// as it does at the poles).
pub proof fn lemma_heading_cardinal(proj: PlaneProjection, a: LatLon, b: LatLon)
    requires
        proj.wf(),
        proj.lon_scale >= 1,
        a.valid(),
        b.valid(),
    ensures
        a.lon == b.lon && b.lat > a.lat ==> proj.heading_spec(a, b) == 0,
        a.lon == b.lon && b.lat < a.lat ==> proj.heading_spec(a, b) == 180,
        a.lat == b.lat && lon_diff_spec(b.lon as int, a.lon as int) > 0 ==> proj.heading_spec(
            a,
            b,
        ) == 90,
        a.lat == b.lat && lon_diff_spec(b.lon as int, a.lon as int) < 0 ==> proj.heading_spec(
            a,
            b,
        ) == 270,
{
    let u: int = proj.plane_y(b, a);
    let v: int = proj.plane_x(b, a);
    if a.lon == b.lon && b.lat > a.lat {
        crate::latlon::lemma_lon_diff_self(a.lon as int);
        assert(v >= 1) by (nonlinear_arith)
            requires
                v == (b.lat - a.lat) * proj.lat_scale,
                b.lat - a.lat >= 1,
                proj.lat_scale >= 1,
        ;
        crate::trig::lemma_atan_deg_zero(v);
    }
    if a.lon == b.lon && b.lat < a.lat {
        crate::latlon::lemma_lon_diff_self(a.lon as int);
        assert(v <= -1) by (nonlinear_arith)
            requires
                v == (b.lat - a.lat) * proj.lat_scale,
                b.lat - a.lat <= -1,
                proj.lat_scale >= 1,
        ;
        crate::trig::lemma_atan_deg_zero(-v);
    }
    if a.lat == b.lat && lon_diff_spec(b.lon as int, a.lon as int) > 0 {
        assert(v == 0) by (nonlinear_arith)
            requires
                v == (b.lat - a.lat) * proj.lat_scale,
                b.lat == a.lat,
        ;
        assert(u >= 1) by (nonlinear_arith)
            requires
                u == lon_diff_spec(b.lon as int, a.lon as int) * proj.lon_scale,
                lon_diff_spec(b.lon as int, a.lon as int) >= 1,
                proj.lon_scale >= 1,
        ;
        crate::trig::lemma_atan_deg_zero(u);
    }
    if a.lat == b.lat && lon_diff_spec(b.lon as int, a.lon as int) < 0 {
        assert(v == 0) by (nonlinear_arith)
            requires
                v == (b.lat - a.lat) * proj.lat_scale,
                b.lat == a.lat,
        ;
        assert(u <= -1) by (nonlinear_arith)
            requires
                u == lon_diff_spec(b.lon as int, a.lon as int) * proj.lon_scale,
                lon_diff_spec(b.lon as int, a.lon as int) <= -1,
                proj.lon_scale >= 1,
        ;
        crate::trig::lemma_atan_deg_zero(-u);
    }
}

/// Law: the heading always lies in [0, 360) whole degrees.
pub proof fn lemma_heading_range(proj: PlaneProjection, a: LatLon, b: LatLon)
    ensures
        0 <= proj.heading_spec(a, b) < 360,
{
    let u: int = proj.plane_y(b, a);
    let v: int = proj.plane_x(b, a);
    if u == 0 && v == 0 {
    } else if u >= 0 && v > 0 {
        crate::trig::lemma_atan_deg_range(u, v);
    } else if u > 0 && v <= 0 {
        crate::trig::lemma_atan_deg_range(-v, u);
    } else if u <= 0 && v < 0 {
        crate::trig::lemma_atan_deg_range(-u, -v);
    } else {
        crate::trig::lemma_atan_deg_range(v, -u);
    }
}

/// Law: reciprocity — the headings from `a` to `b` and from `b` to `a`
/// differ by exactly 180 degrees modulo 360, whenever the two coordinates do
/// not coincide in the projected plane.
pub proof fn lemma_heading_reciprocal(proj: PlaneProjection, a: LatLon, b: LatLon)
    requires
        a.valid(),
        b.valid(),
        proj.plane_y(b, a) != 0 || proj.plane_x(b, a) != 0,
    ensures
        (proj.heading_spec(a, b) + 180) % 360 == proj.heading_spec(b, a),
{
    let u: int = proj.plane_y(b, a);
    let v: int = proj.plane_x(b, a);
    crate::latlon::lemma_lon_diff_antisymmetric(b.lon as int, a.lon as int);
    assert(proj.plane_y(a, b) == -u) by (nonlinear_arith)
        requires
            lon_diff_spec(a.lon as int, b.lon as int) == -lon_diff_spec(
                b.lon as int,
                a.lon as int,
            ),
            u == lon_diff_spec(b.lon as int, a.lon as int) * proj.lon_scale,
            proj.plane_y(a, b) == lon_diff_spec(a.lon as int, b.lon as int) * proj.lon_scale,
    ;
    assert(proj.plane_x(a, b) == -v) by (nonlinear_arith)
        requires
            v == (b.lat - a.lat) * proj.lat_scale,
            proj.plane_x(a, b) == (a.lat - b.lat) * proj.lat_scale,
    ;
    if u >= 0 && v > 0 {
        crate::trig::lemma_atan_deg_range(u, v);
    } else if u > 0 && v <= 0 {
        crate::trig::lemma_atan_deg_range(-v, u);
    } else if u <= 0 && v < 0 {
        crate::trig::lemma_atan_deg_range(-u, -v);
    } else {
        crate::trig::lemma_atan_deg_range(v, -u);
    }
}

/// An interior scalar projection never moves a coordinate by more than the
/// segment's own extent: for `0 < n <= d`, the truncated `sv * n / d` stays
/// within `|sv|`.
proof fn lemma_proj_adjust_bound(sv: int, n: int, d: int)
    requires
        0 < n <= d,
        -1_792_000_000_000 <= sv <= 1_792_000_000_000,
    ensures
        -1_792_000_000_000 <= tdiv(sv * n, d) <= 1_792_000_000_000,
{
    if sv >= 0 {
        vstd::arithmetic::mul::lemma_mul_nonnegative(sv, n);
        vstd::arithmetic::mul::lemma_mul_inequality(n, d, sv);
        vstd::arithmetic::div_mod::lemma_div_is_ordered(sv * n, sv * d, d);
        vstd::arithmetic::div_mod::lemma_div_by_multiple(sv, d);
        vstd::arithmetic::div_mod::lemma_div_pos_is_pos(sv * n, d);
        assert(0 <= tdiv(sv * n, d) <= sv);
    } else {
        vstd::arithmetic::mul::lemma_mul_strictly_positive(-sv, n);
        vstd::arithmetic::mul::lemma_mul_inequality(n, d, -sv);
        vstd::arithmetic::div_mod::lemma_div_is_ordered((-sv) * n, (-sv) * d, d);
        vstd::arithmetic::div_mod::lemma_div_by_multiple(-sv, d);
        vstd::arithmetic::div_mod::lemma_div_pos_is_pos((-sv) * n, d);
        assert(sv * n == -((-sv) * n)) by (nonlinear_arith);
        assert(sv <= tdiv(sv * n, d) <= 0);
    }
}

/// Any scaled coordinate difference of at most 180 degrees stays within
/// 180 degrees times the largest scale factor.
proof fn lemma_plane_coord_bounds(d: int, s: int)
    requires
        -180_000_000 <= d <= 180_000_000,
        0 <= s <= 112_000,
    ensures
        -20_160_000_000_000 <= d * s <= 20_160_000_000_000,
{
    assert(-20_160_000_000_000 <= d * s <= 20_160_000_000_000) by (nonlinear_arith)
        requires
            -180_000_000 <= d <= 180_000_000,
            0 <= s <= 112_000,
    ;
}

/// The square of a bounded value is nonnegative and bounded by the square of
/// the bound.
proof fn lemma_square_in_range(x: int, m: int)
    requires
        0 <= m,
        -m <= x <= m,
    ensures
        0 <= x * x <= m * m,
{
    assert(0 <= x * x <= m * m) by (nonlinear_arith)
        requires
            0 <= m,
            -m <= x <= m,
    ;
}

} // verus!
