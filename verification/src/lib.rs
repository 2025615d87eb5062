//! Fast approximate planar-projected geodesy on a local tangent plane of the
//! WGS84 ellipsoid, in exact fixed-point arithmetic.
//!
//! A [`PlaneProjection`] caches two integer scale factors (meters per degree of
//! latitude and of longitude at a reference latitude) and turns degree
//! differences into plane coordinates measured in micrometers.  Distances,
//! point-to-segment distances and headings are then plain Euclidean integer
//! math, stated and proved exactly.
//!
//! Units used throughout:
//! - angles: microdegrees (`1_000_000` per degree), signed 64-bit;
//! - scale factors: meters per degree, 64-bit;
//! - plane coordinates and distances: micrometers;
//! - square distances: square micrometers.

pub mod arith;
pub mod latlon;
pub mod isqrt;
pub mod trig;
pub mod projection;

pub use latlon::LatLon;
pub use latlon::lon_diff;
pub use projection::PlaneProjection;
