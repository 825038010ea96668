use vstd::prelude::*;

verus! {

/// Half a turn, in millionths of a degree: the unit of every angle.
pub const HALF_TURN: i64 = 180_000_000;

/// A full turn, in millionths of a degree.
pub const FULL_TURN: i64 = 360_000_000;

/// Largest magnitude of a coordinate that the library accepts.
pub const COORD_LIMIT: i64 = 1_000_000_000_000;

/// A point of the plane, in thousandths of a world unit.
#[derive(Clone, Copy, Debug, PartialEq, Eq, Structural)]
pub struct Point {
    pub x: i64,
    pub y: i64,
}

impl Point {
    pub open spec fn in_bounds(self) -> bool {
        -COORD_LIMIT <= self.x <= COORD_LIMIT && -COORD_LIMIT <= self.y <= COORD_LIMIT
    }

    pub open spec fn new_spec(x: i64, y: i64) -> Point {
        Point { x, y }
    }

    #[verifier::when_used_as_spec(new_spec)]
    pub fn new(x: i64, y: i64) -> (r: Point)
        ensures
            r == Point::new_spec(x, y),
    {
        Point { x, y }
    }
}

/// An angle lies in the half-open interval (-half turn, half turn].
pub open spec fn is_normal_angle(a: int) -> bool {
    -HALF_TURN < a <= HALF_TURN
}

/// Brings an angle that lies within one turn of the normal range back into it.
pub open spec fn wrap_angle(a: int) -> int {
    if a > HALF_TURN {
        a - FULL_TURN
    } else if a <= -HALF_TURN {
        a + FULL_TURN
    } else {
        a
    }
}

pub fn normalize_angle(a: i64) -> (r: i64)
    requires
        -FULL_TURN - HALF_TURN < a <= FULL_TURN + HALF_TURN,
    ensures
        r == wrap_angle(a as int),
        is_normal_angle(r as int),
{
    if a > HALF_TURN {
        a - FULL_TURN
    } else if a <= -HALF_TURN {
        a + FULL_TURN
    } else {
        a
    }
}

/// `r` is the largest natural number whose square does not exceed `n`.
pub open spec fn is_floor_sqrt(n: int, r: int) -> bool {
    0 <= r && r * r <= n < (r + 1) * (r + 1)
}

/// The integer square root of `n`, rounded down.
pub open spec fn floor_sqrt(n: int) -> int {
    choose|r: int| is_floor_sqrt(n, r)
}

/// Exclusive bound on the square roots that `isqrt` searches; its square exceeds
/// every squared distance between two points in bounds.
pub const SQRT_CEILING: u128 = 4_398_046_511_104;

pub proof fn lemma_floor_sqrt_unique(n: int, a: int, b: int)
    requires
        is_floor_sqrt(n, a),
        is_floor_sqrt(n, b),
    ensures
        a == b,
{
    if a < b {
        assert((a + 1) * (a + 1) <= b * b) by (nonlinear_arith)
            requires
                0 <= a,
                a + 1 <= b,
        ;
    } else if b < a {
        assert((b + 1) * (b + 1) <= a * a) by (nonlinear_arith)
            requires
                0 <= b,
                b + 1 <= a,
        ;
    }
}

/// Integer square root, rounded down, by bisection.
pub fn isqrt(n: u128) -> (r: u128)
    requires
        n < SQRT_CEILING * SQRT_CEILING,
    ensures
        is_floor_sqrt(n as int, r as int),
        r == floor_sqrt(n as int),
        r < SQRT_CEILING,
{
    let mut lo: u128 = 0;
    let mut hi: u128 = SQRT_CEILING;
    while hi - lo > 1
        invariant
            lo < hi <= SQRT_CEILING,
            lo * lo <= n < hi * hi,
        decreases hi - lo,
    {
        let mid: u128 = lo + (hi - lo) / 2;
        assert(mid * mid <= SQRT_CEILING * SQRT_CEILING) by (nonlinear_arith)
            requires
                mid <= SQRT_CEILING,
        ;
        if mid * mid <= n {
            lo = mid;
        } else {
            hi = mid;
        }
    }
    assert(is_floor_sqrt(n as int, lo as int));
    proof {
        let c = floor_sqrt(n as int);
        assert(is_floor_sqrt(n as int, c));
        lemma_floor_sqrt_unique(n as int, c, lo as int);
    }
    lo
}

} // verus!
