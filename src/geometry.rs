use vstd::prelude::*;

verus! {

/// An axis-aligned rectangle: top-left corner and size.
#[derive(Clone, Copy, Debug, PartialEq, Eq, Structural)]
pub struct Rect {
    pub x: i64,
    pub y: i64,
    pub w: i64,
    pub h: i64,
}

/// Two rectangles overlap when they share at least a point, borders included.
pub open spec fn rects_overlap(a: Rect, b: Rect) -> bool {
    &&& a.x <= b.x + b.w
    &&& a.x + a.w >= b.x
    &&& a.y <= b.y + b.h
    &&& a.y + a.h >= b.y
}

/// A point lies in a rectangle, borders included.
pub open spec fn rect_holds(r: Rect, px: int, py: int) -> bool {
    &&& r.x <= px <= r.x + r.w
    &&& r.y <= py <= r.y + r.h
}

/// `v` brought into the range of `i64`.
pub open spec fn clamp_i64(v: int) -> int {
    if v > i64::MAX {
        i64::MAX as int
    } else if v < i64::MIN {
        i64::MIN as int
    } else {
        v
    }
}

/// Distance covered in `dt_ms` milliseconds at `speed` thousandths of a unit per second.
pub open spec fn travel(speed: int, dt_ms: int) -> int {
    speed * dt_ms / 1000
}

impl Rect {
    pub fn new(x: i64, y: i64, w: i64, h: i64) -> (r: Rect)
        ensures
            r == (Rect { x, y, w, h }),
    {
        Rect { x, y, w, h }
    }

    pub fn overlaps(&self, other: &Rect) -> (r: bool)
        ensures
            r == rects_overlap(*self, *other),
    {
        (self.x as i128) <= (other.x as i128) + (other.w as i128)
            && (self.x as i128) + (self.w as i128) >= (other.x as i128)
            && (self.y as i128) <= (other.y as i128) + (other.h as i128)
            && (self.y as i128) + (self.h as i128) >= (other.y as i128)
    }

    pub fn contains(&self, px: i64, py: i64) -> (r: bool)
        ensures
            r == rect_holds(*self, px as int, py as int),
    {
        (self.x as i128) <= (px as i128) && (px as i128) <= (self.x as i128) + (self.w as i128)
            && (self.y as i128) <= (py as i128) && (py as i128) <= (self.y as i128) + (self.h
            as i128)
    }
}

/// `p + d`, held at the bounds of `i64` instead of overflowing.
pub fn shift(p: i64, d: i64) -> (r: i64)
    ensures
        r == clamp_i64(p + d),
{
    let s: i128 = p as i128 + d as i128;
    if s > i64::MAX as i128 {
        i64::MAX
    } else if s < i64::MIN as i128 {
        i64::MIN
    } else {
        s as i64
    }
}

/// Distance covered in `dt_ms` milliseconds at `speed`, rounded towards zero.
pub fn travel_of(speed: u64, dt_ms: u32) -> (r: u128)
    ensures
        r == travel(speed as int, dt_ms as int),
{
    proof {
        assert(speed as int * dt_ms as int <= u64::MAX as int * u32::MAX as int) by (nonlinear_arith)
            requires speed as int <= u64::MAX as int, dt_ms as int <= u32::MAX as int, speed >= 0, dt_ms >= 0;
    }
    (speed as u128) * (dt_ms as u128) / 1000
}

/// The largest `r` with `r * r <= n`.
pub fn isqrt(n: u64) -> (r: u64)
    ensures
        r * r <= n,
        n < (r + 1) * (r + 1),
{
    let mut lo: u64 = 0;
    let mut hi: u64 = 4294967296;
    proof {
        assert(n < 4294967296 * 4294967296);
    }
    while lo + 1 < hi
        invariant
            lo < hi <= 4294967296,
            lo * lo <= n,
            n < hi * hi,
        decreases hi - lo,
    {
        let mid: u64 = lo + (hi - lo) / 2;
        proof {
            assert(mid * mid <= 4294967296 * 4294967296) by (nonlinear_arith)
                requires mid <= 4294967296;
        }
        if (mid as u128) * (mid as u128) <= n as u128 {
            lo = mid;
        } else {
            hi = mid;
        }
    }
    proof {
        assert(hi == lo + 1);
    }
    lo
}

} // verus!
