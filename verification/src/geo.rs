//! Integer point-in-radius test for the nearby search.
//!
//! Coordinates are microdegrees. Distance is measured on the
//! equirectangular projection: the north-south separation in microdegrees
//! of latitude, and the east-west separation scaled by the cosine of the
//! query latitude, approximated by the rational formula
//! `cos d ≈ (32400 − 4d²) / (32400 + d²)` for `d` in whole degrees
//! (Bhaskara I's approximation, exact at 0° and 90°). The fixed search
//! radius of 10 km is 89,932 microdegrees of latitude at 111.195 km per
//! degree.

use vstd::prelude::*;

use crate::worker::{valid_lat, valid_lon};

verus! {

/// The fixed nearby-search radius, 10 km, in microdegrees of latitude.
pub const NEARBY_RADIUS_MICRODEG: u64 = 89932;

/// Absolute difference.
pub open spec fn abs_diff(a: int, b: int) -> int {
    if a >= b {
        a - b
    } else {
        b - a
    }
}

/// East-west separation in microdegrees, the short way around the globe.
pub open spec fn lon_delta_micro(a: int, b: int) -> int {
    let d = abs_diff(a, b);
    if d > 360_000_000 - d {
        360_000_000 - d
    } else {
        d
    }
}

/// Numerator of the cosine approximation at `d` whole degrees.
pub open spec fn cos_num(d: int) -> int {
    32400 - 4 * d * d
}

/// Denominator of the cosine approximation at `d` whole degrees.
pub open spec fn cos_den(d: int) -> int {
    32400 + d * d
}

/// Squared equirectangular distance between the query center
/// `(clat, clon)` and a point `(lat, lon)`, in squared microdegrees of
/// latitude; the east-west leg is scaled by the cosine of the center
/// latitude.
pub open spec fn dist2_micro(clat: int, clon: int, lat: int, lon: int) -> int {
    let dlat = abs_diff(clat, lat);
    let dlon = lon_delta_micro(clon, lon);
    let d = (if clat >= 0 {
        clat
    } else {
        -clat
    }) / 1_000_000;
    let scaled = dlon * cos_num(d) / cos_den(d);
    dlat * dlat + scaled * scaled
}

/// The point lies within the fixed 10 km radius of the center.
pub open spec fn within_radius(clat: int, clon: int, lat: int, lon: int) -> bool {
    dist2_micro(clat, clon, lat, lon) <= NEARBY_RADIUS_MICRODEG * NEARBY_RADIUS_MICRODEG
}

/// Computes the squared distance of the spec above.
pub fn dist2_micro_exec(clat: i64, clon: i64, lat: i64, lon: i64) -> (r: u64)
    requires
        valid_lat(clat as int),
        valid_lon(clon as int),
        valid_lat(lat as int),
        valid_lon(lon as int),
    ensures
        r as int == dist2_micro(clat as int, clon as int, lat as int, lon as int),
{
    let dlat: u64 = if clat >= lat {
        (clat - lat) as u64
    } else {
        (lat - clat) as u64
    };
    let draw: u64 = if clon >= lon {
        (clon - lon) as u64
    } else {
        (lon - clon) as u64
    };
    let dlon: u64 = if draw > 360_000_000 - draw {
        360_000_000 - draw
    } else {
        draw
    };
    let d: u64 = (if clat >= 0 {
        clat
    } else {
        -clat
    } as u64) / 1_000_000;
    proof {
        assert(d <= 90);
        assert(d * d <= 8100) by (nonlinear_arith)
            requires
                d <= 90,
        ;
        assert(4 * d * d <= 32400) by (nonlinear_arith)
            requires
                d <= 90,
        ;
    }
    let num: u64 = 32400 - 4 * d * d;
    let den: u64 = 32400 + d * d;
    proof {
        assert(dlon <= 180_000_000);
        assert(dlon * num <= 180_000_000 * 32400) by (nonlinear_arith)
            requires
                dlon <= 180_000_000,
                num <= 32400,
        ;
        assert(den >= 32400);
    }
    let scaled: u64 = dlon * num / den;
    proof {
        assert((dlon as int * num as int) / (den as int) <= dlon as int) by (nonlinear_arith)
            requires
                num as int <= den as int,
                den as int > 0,
                dlon as int >= 0,
        ;
        assert(scaled as int == (dlon as int * num as int) / (den as int));
        assert(scaled <= dlon);
        assert(dlat <= 180_000_000);
        assert(dlat * dlat <= 180_000_000 * 180_000_000) by (nonlinear_arith)
            requires
                dlat <= 180_000_000,
        ;
        assert(scaled * scaled <= 180_000_000 * 180_000_000) by (nonlinear_arith)
            requires
                scaled <= 180_000_000,
        ;
    }
    dlat * dlat + scaled * scaled
}

/// Reports whether the point lies within the fixed 10 km radius.
pub fn within_radius_exec(clat: i64, clon: i64, lat: i64, lon: i64) -> (r: bool)
    requires
        valid_lat(clat as int),
        valid_lon(clon as int),
        valid_lat(lat as int),
        valid_lon(lon as int),
    ensures
        r == within_radius(clat as int, clon as int, lat as int, lon as int),
{
    dist2_micro_exec(clat, clon, lat, lon) <= NEARBY_RADIUS_MICRODEG * NEARBY_RADIUS_MICRODEG
}

} // verus!
