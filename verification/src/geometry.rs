//! Integer-grid geometry: bounded points, squared distances, and the
//! capped step that moves a point toward a target.

use vstd::prelude::*;

verus! {

/// Every coordinate of the scene is confined to `[-COORD_LIMIT, COORD_LIMIT]`,
/// so that squared distances fit comfortably in an `i64`.
pub const COORD_LIMIT: i64 = 1048576;

/// A position on the integer grid of the scene.
#[derive(Clone, Copy, Debug, PartialEq, Eq, Structural)]
pub struct Point {
    pub x: i64,
    pub y: i64,
}

/// A point lies within the scene.
pub open spec fn in_bounds(p: Point) -> bool {
    &&& -COORD_LIMIT <= p.x <= COORD_LIMIT
    &&& -COORD_LIMIT <= p.y <= COORD_LIMIT
}

/// The (non-negative) gap between two coordinates on one axis.
pub open spec fn axis_gap(a: int, b: int) -> int {
    if a >= b {
        a - b
    } else {
        b - a
    }
}

/// Squared Euclidean distance between two points.
pub open spec fn dist2(a: Point, b: Point) -> int {
    axis_gap(a.x as int, b.x as int) * axis_gap(a.x as int, b.x as int)
        + axis_gap(a.y as int, b.y as int) * axis_gap(a.y as int, b.y as int)
}

/// Chebyshev distance: the larger of the two axis gaps. A capped step
/// closes each axis gap by up to `speed`, so this is the metric in which
/// a step makes exactly `speed` worth of progress.
pub open spec fn cheb(a: Point, b: Point) -> int {
    let gx = axis_gap(a.x as int, b.x as int);
    let gy = axis_gap(a.y as int, b.y as int);
    if gx >= gy {
        gx
    } else {
        gy
    }
}

/// One coordinate after a step of at most `speed` from `from` toward `to`,
/// snapping to `to` when it is within reach.
pub open spec fn clamp_step(from: int, to: int, speed: int) -> int {
    if to >= from {
        if to - from <= speed {
            to
        } else {
            from + speed
        }
    } else {
        if from - to <= speed {
            to
        } else {
            from - speed
        }
    }
}

/// The point after one capped step from `p` toward `dest`.
pub open spec fn step_point(p: Point, dest: Point, speed: int) -> Point {
    Point {
        x: clamp_step(p.x as int, dest.x as int, speed) as i64,
        y: clamp_step(p.y as int, dest.y as int, speed) as i64,
    }
}

/// Squared Euclidean distance, computed on bounded points.
pub fn dist2_i64(a: Point, b: Point) -> (r: i64)
    requires
        in_bounds(a),
        in_bounds(b),
    ensures
        r == dist2(a, b),
{
    let gx: i64 = if a.x >= b.x {
        a.x - b.x
    } else {
        b.x - a.x
    };
    let gy: i64 = if a.y >= b.y {
        a.y - b.y
    } else {
        b.y - a.y
    };
    proof {
        assert(gx * gx <= 2097152 * 2097152 && gx * gx >= 0) by (nonlinear_arith)
            requires
                0 <= gx <= 2097152,
        ;
        assert(gy * gy <= 2097152 * 2097152 && gy * gy >= 0) by (nonlinear_arith)
            requires
                0 <= gy <= 2097152,
        ;
    }
    gx * gx + gy * gy
}

/// One capped step from `p` toward `dest`: each coordinate moves by at
/// most `speed` toward the target, snapping onto it when within reach.
pub fn step_toward(p: Point, dest: Point, speed: i64) -> (r: Point)
    requires
        in_bounds(p),
        in_bounds(dest),
        1 <= speed <= COORD_LIMIT,
    ensures
        r == step_point(p, dest, speed as int),
        in_bounds(r),
        (r == dest) <==> cheb(p, dest) <= speed,
{
    let x: i64 = if dest.x >= p.x {
        if dest.x - p.x <= speed {
            dest.x
        } else {
            p.x + speed
        }
    } else {
        if p.x - dest.x <= speed {
            dest.x
        } else {
            p.x - speed
        }
    };
    let y: i64 = if dest.y >= p.y {
        if dest.y - p.y <= speed {
            dest.y
        } else {
            p.y + speed
        }
    } else {
        if p.y - dest.y <= speed {
            dest.y
        } else {
            p.y - speed
        }
    };
    Point { x, y }
}

/// A capped step never leaves the scene, and it makes strict progress:
/// while the target is not yet reached, the squared distance to it
/// strictly shrinks, and the Chebyshev distance shrinks by exactly
/// `speed` (to zero once the target is within reach).
pub proof fn lemma_step_progress(p: Point, dest: Point, speed: int)
    requires
        in_bounds(p),
        in_bounds(dest),
        1 <= speed <= COORD_LIMIT,
    ensures
        in_bounds(step_point(p, dest, speed)),
        cheb(p, dest) <= speed ==> step_point(p, dest, speed) == dest,
        cheb(p, dest) > speed ==> cheb(step_point(p, dest, speed), dest) == cheb(p, dest) - speed,
        p != dest ==> dist2(step_point(p, dest, speed), dest) < dist2(p, dest),
{
    let r = step_point(p, dest, speed);
    let gx = axis_gap(p.x as int, dest.x as int);
    let gy = axis_gap(p.y as int, dest.y as int);
    let gx2 = axis_gap(r.x as int, dest.x as int);
    let gy2 = axis_gap(r.y as int, dest.y as int);
    assert(gx2 == if gx <= speed { 0int } else { gx - speed });
    assert(gy2 == if gy <= speed { 0int } else { gy - speed });
    if p != dest {
        assert(gx2 <= gx && gy2 <= gy && (gx2 < gx || gy2 < gy));
        assert(gx2 * gx2 + gy2 * gy2 < gx * gx + gy * gy) by (nonlinear_arith)
            requires
                0 <= gx2 <= gx,
                0 <= gy2 <= gy,
                gx2 < gx || gy2 < gy,
        ;
    }
}

} // verus!
