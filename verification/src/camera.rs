//! Panning the camera: while the cursor is near the edge of the window, the
//! camera moves toward it at a fixed speed.

use crate::scalar::Scalar;
use crate::vector::Vec2;
use vstd::prelude::*;

verus! {

/// How close to the nearer edge of the window the cursor must come, in
/// millionths of a window unit.
pub const EDGE_THRESHOLD_RAW: i64 = 40_000_000;

/// How far the camera moves in one frame, in millionths of a world unit.
pub const CAMERA_SPEED_RAW: i64 = 10_000_000;

/// Half of `x`, rounded toward zero.
pub open spec fn spec_half(x: Scalar) -> Option<Scalar> {
    x.spec_mul(Scalar { raw: 500_000 })
}

/// The smaller of two scalars.
pub open spec fn spec_smaller(a: Scalar, b: Scalar) -> Scalar {
    if a@ <= b@ {
        a
    } else {
        b
    }
}

/// How far the cursor at `cursor` is from the centre of a window of the
/// given size, and how far it may be without the camera moving: half the
/// shorter side less the threshold.
pub open spec fn spec_edge_distances(cursor: Vec2, width: Scalar, height: Scalar) -> Option<
    (Scalar, Scalar),
> {
    match (spec_half(width), spec_half(height)) {
        (Some(half_width), Some(half_height)) => match (
            spec_smaller(half_width, half_height).spec_sub(Scalar { raw: EDGE_THRESHOLD_RAW }),
            cursor.spec_sub(Vec2 { x: half_width, y: half_height }),
        ) {
            (Some(radius), Some(from_centre)) => match from_centre.spec_length() {
                Some(distance) => Some((distance, radius)),
                None => None,
            },
            _ => None,
        },
        _ => None,
    }
}

/// Whether the cursor is near the edge: its distance from the centre is not
/// less than the radius within which the camera rests.
pub open spec fn spec_near_edge(cursor: Vec2, width: Scalar, height: Scalar) -> bool {
    match spec_edge_distances(cursor, width, height) {
        Some((distance, radius)) => distance@ >= radius@,
        None => false,
    }
}

/// The step of the camera toward the cursor: the unit vector from the centre
/// of the view to the cursor, both in world units, times the camera's speed.
pub open spec fn spec_pan_step(cursor: Vec2, centre: Vec2) -> Option<Vec2> {
    match cursor.spec_sub(centre) {
        Some(d) => match d.spec_normalize() {
            Some(unit) => unit.spec_scale(Scalar { raw: CAMERA_SPEED_RAW }),
            None => None,
        },
        None => None,
    }
}

/// Whether the cursor, at `cursor` in a window of the given size, is near
/// enough to the edge for the camera to move.
pub fn near_edge(cursor: Vec2, width: Scalar, height: Scalar) -> (r: bool)
    ensures
        r == spec_near_edge(cursor, width, height),
{
    let half_width = match width.mul(Scalar { raw: 500_000 }) {
        Some(h) => h,
        None => {
            return false;
        },
    };
    let half_height = match height.mul(Scalar { raw: 500_000 }) {
        Some(h) => h,
        None => {
            return false;
        },
    };
    let shorter = if half_width.raw <= half_height.raw {
        half_width
    } else {
        half_height
    };
    let radius = match shorter.sub(Scalar { raw: 40_000_000 }) {
        Some(r) => r,
        None => {
            return false;
        },
    };
    let from_centre = match cursor.sub(Vec2 { x: half_width, y: half_height }) {
        Some(v) => v,
        None => {
            return false;
        },
    };
    match from_centre.length() {
        Some(distance) => distance.raw >= radius.raw,
        None => false,
    }
}

/// The step of the camera toward the cursor, where there is a direction to
/// move in.
pub fn pan_step(cursor: Vec2, centre: Vec2) -> (r: Option<Vec2>)
    ensures
        r == spec_pan_step(cursor, centre),
{
    match cursor.sub(centre) {
        Some(d) => match d.normalize() {
            Some(unit) => unit.scale(Scalar { raw: 10_000_000 }),
            None => None,
        },
        None => None,
    }
}

} // verus!
