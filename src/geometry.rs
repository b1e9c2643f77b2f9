//! Fixed-point vectors, the viewport, motion, the edge bounce and the
//! collision boxes.

use vstd::prelude::*;

verus! {

/// Positions are held in billionths of a pixel.
pub const NANOS_PER_PIXEL: i64 = 1_000_000_000;

/// Distance from each screen edge past which a body is turned back.
pub const MARGIN: i64 = 8_000_000_000;

/// Width and height of a bullet's collision box.
pub const BULLET_SIZE: i64 = 16_000_000_000;

/// Width and height of an enemy's collision box.
pub const ENEMY_SIZE: i64 = 32_000_000_000;

/// Width and height of the player's collision box.
pub const PLAYER_SIZE: i64 = 32_000_000_000;

/// Largest magnitude of a velocity component, in thousandths of a pixel per
/// second.
pub const MAX_SPEED: i64 = 200_000;

/// A pair of fixed-point coordinates: a position (billionths of a pixel) or
/// a velocity (thousandths of a pixel per second).
#[derive(Clone, Copy, Debug, PartialEq, Eq, Structural)]
pub struct Vector2 {
    pub x: i64,
    pub y: i64,
}

/// The drawable area, in whole pixels.
#[derive(Clone, Copy, Debug, PartialEq, Eq, Structural)]
pub struct Viewport {
    pub width: u32,
    pub height: u32,
}

impl Viewport {
    /// The right edge, in billionths of a pixel.
    pub open spec fn right(self) -> int {
        self.width as int * NANOS_PER_PIXEL
    }

    /// The bottom edge, in billionths of a pixel.
    pub open spec fn bottom(self) -> int {
        self.height as int * NANOS_PER_PIXEL
    }
}

/// Both components of a velocity lie within the speed limit.
pub open spec fn speed_ok(v: Vector2) -> bool {
    -MAX_SPEED <= v.x <= MAX_SPEED && -MAX_SPEED <= v.y <= MAX_SPEED
}

/// An integer forced into the range of `i64`.
pub open spec fn clamp64(a: int) -> i64 {
    if a > i64::MAX {
        i64::MAX
    } else if a < i64::MIN {
        i64::MIN
    } else {
        a as i64
    }
}

/// One coordinate after moving at speed `v` for `dt` microseconds.
pub open spec fn shifted(p: i64, v: i64, dt: u32) -> i64 {
    clamp64(p + v * dt)
}

/// A position after moving at velocity `v` for `dt` microseconds.
pub open spec fn moved(p: Vector2, v: Vector2, dt: u32) -> Vector2 {
    Vector2 { x: shifted(p.x, v.x, dt), y: shifted(p.y, v.y, dt) }
}

pub open spec fn magnitude(a: i64) -> i64 {
    if a < 0 {
        (-a) as i64
    } else {
        a
    }
}

/// The position lies within the margin on all four sides.
pub open spec fn inside(p: Vector2, view: Viewport) -> bool {
    MARGIN <= p.y <= view.bottom() - MARGIN && MARGIN <= p.x <= view.right() - MARGIN
}

/// The velocity after the edge check at position `p`. Each axis is checked
/// on its own: where `p` lies beyond the margin of an edge, the matching
/// component is pointed back into the screen; all else stays.
pub open spec fn bounced(p: Vector2, v: Vector2, view: Viewport) -> Vector2 {
    Vector2 {
        x: if p.x < MARGIN {
            magnitude(v.x)
        } else if p.x > view.right() - MARGIN {
            (-magnitude(v.x)) as i64
        } else {
            v.x
        },
        y: if p.y < MARGIN {
            magnitude(v.y)
        } else if p.y > view.bottom() - MARGIN {
            (-magnitude(v.y)) as i64
        } else {
            v.y
        },
    }
}

/// A bullet at `b` overlaps an enemy at `e`. The bullet's box reaches 16
/// pixels right and down of its position, the enemy's 32.
pub open spec fn bullet_hits(b: Vector2, e: Vector2) -> bool {
    b.x < e.x + ENEMY_SIZE && b.x + BULLET_SIZE > e.x && b.y < e.y + ENEMY_SIZE && BULLET_SIZE
        + b.y > e.y
}

/// The player at `p` overlaps an enemy at `e`; both boxes are 32 pixels.
pub open spec fn player_hits(p: Vector2, e: Vector2) -> bool {
    p.x < e.x + ENEMY_SIZE && p.x + PLAYER_SIZE > e.x && p.y < e.y + ENEMY_SIZE && PLAYER_SIZE
        + p.y > e.y
}

fn shift(p: i64, v: i64, dt: u32) -> (r: i64)
    requires
        -MAX_SPEED <= v <= MAX_SPEED,
    ensures
        r == shifted(p, v, dt),
{
    let t = dt as i64;
    assert(-MAX_SPEED * 0x1_0000_0000 <= v * t <= MAX_SPEED * 0x1_0000_0000) by (nonlinear_arith)
        requires
            -MAX_SPEED <= v <= MAX_SPEED,
            0 <= t < 0x1_0000_0000,
    ;
    let d: i64 = v * t;
    match p.checked_add(d) {
        Some(s) => s,
        None => if d > 0 {
            i64::MAX
        } else {
            i64::MIN
        },
    }
}

/// Moves a position at velocity `v` for `dt` microseconds, saturating at the
/// range of `i64`.
pub fn advance(p: Vector2, v: Vector2, dt: u32) -> (r: Vector2)
    requires
        speed_ok(v),
    ensures
        r == moved(p, v, dt),
{
    Vector2 { x: shift(p.x, v.x, dt), y: shift(p.y, v.y, dt) }
}

fn abs_speed(a: i64) -> (r: i64)
    requires
        -MAX_SPEED <= a <= MAX_SPEED,
    ensures
        r == magnitude(a),
        0 <= r <= MAX_SPEED,
{
    if a < 0 {
        -a
    } else {
        a
    }
}

/// The edge check: the velocity that a body at `p` moving at `v` leaves with.
pub fn bounce(p: Vector2, v: Vector2, view: Viewport) -> (r: Vector2)
    requires
        speed_ok(v),
    ensures
        r == bounced(p, v, view),
        speed_ok(r),
{
    let right: i64 = view.width as i64 * NANOS_PER_PIXEL;
    let bottom: i64 = view.height as i64 * NANOS_PER_PIXEL;
    let x = if p.x < MARGIN {
        abs_speed(v.x)
    } else if p.x > right - MARGIN {
        -abs_speed(v.x)
    } else {
        v.x
    };
    let y = if p.y < MARGIN {
        abs_speed(v.y)
    } else if p.y > bottom - MARGIN {
        -abs_speed(v.y)
    } else {
        v.y
    };
    Vector2 { x, y }
}

/// Whether a bullet at `b` overlaps an enemy at `e`.
pub fn bullet_overlaps(b: Vector2, e: Vector2) -> (r: bool)
    ensures
        r == bullet_hits(b, e),
{
    let (bx, by, ex, ey) = (b.x as i128, b.y as i128, e.x as i128, e.y as i128);
    bx < ex + ENEMY_SIZE as i128 && bx + BULLET_SIZE as i128 > ex && by < ey + ENEMY_SIZE as i128
        && BULLET_SIZE as i128 + by > ey
}

/// Whether the player at `p` overlaps an enemy at `e`.
pub fn player_overlaps(p: Vector2, e: Vector2) -> (r: bool)
    ensures
        r == player_hits(p, e),
{
    let (px, py, ex, ey) = (p.x as i128, p.y as i128, e.x as i128, e.y as i128);
    px < ex + ENEMY_SIZE as i128 && px + PLAYER_SIZE as i128 > ex && py < ey + ENEMY_SIZE as i128
        && PLAYER_SIZE as i128 + py > ey
}

} // verus!
