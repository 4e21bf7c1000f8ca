//! Fixed-point plane geometry: points, integer square roots, unit
//! directions and the player's cone of sight.
use vstd::prelude::*;

verus! {

/// Length of a unit direction vector.
pub const UNIT: i64 = 1000;

/// Largest magnitude of a component that `unit_direction` accepts.
pub const DIRECTION_INPUT_LIMIT: i64 = 1_000_000;

/// A point or a vector of the plane.
#[derive(Clone, Copy, Debug, PartialEq, Eq, Structural)]
pub struct Point {
    pub x: i64,
    pub y: i64,
}

impl Point {
    pub fn new(x: i64, y: i64) -> (r: Point)
        ensures
            r.x == x,
            r.y == y,
    {
        Point { x, y }
    }
}

/// `r` is the integer square root of `n`.
pub open spec fn is_root(n: int, r: int) -> bool {
    0 <= r && r * r <= n && n < (r + 1) * (r + 1)
}

/// The integer square root of `n`, counted up from that of `n - 1`.
pub open spec fn root_of(n: nat) -> nat
    decreases n,
{
    if n == 0 {
        0
    } else {
        let r = root_of((n - 1) as nat);
        if (r + 1) * (r + 1) <= n {
            r + 1
        } else {
            r
        }
    }
}

pub proof fn lemma_root_of(n: nat)
    ensures
        is_root(n as int, root_of(n) as int),
    decreases n,
{
    if n > 0 {
        lemma_root_of((n - 1) as nat);
        let r = root_of((n - 1) as nat);
        if (r + 1) * (r + 1) <= n {
            assert((r + 1) * (r + 1) == n);
            assert((r + 2) * (r + 2) > n) by (nonlinear_arith)
                requires
                    (r + 1) * (r + 1) == n,
            ;
        }
    }
}

pub proof fn lemma_root_unique(n: int, a: int, b: int)
    requires
        is_root(n, a),
        is_root(n, b),
    ensures
        a == b,
{
    if a < b {
        assert((a + 1) * (a + 1) <= b * b) by (nonlinear_arith)
            requires
                0 <= a,
                a + 1 <= b,
        ;
    } else if b < a {
        assert((b + 1) * (b + 1) <= a * a) by (nonlinear_arith)
            requires
                0 <= b,
                b + 1 <= a,
        ;
    }
}

/// Integer square root by bisection.
pub fn isqrt(n: u64) -> (r: u64)
    ensures
        r as nat == root_of(n as nat),
{
    let mut lo: u64 = 0;
    let mut hi: u64 = 0x1_0000_0000;
    assert(n < hi * hi);
    while hi - lo > 1
        invariant
            lo < hi <= 0x1_0000_0000,
            lo * lo <= n,
            n < hi * hi,
        decreases hi - lo,
    {
        let mid: u64 = lo + (hi - lo) / 2;
        assert(mid * mid <= 0x1_0000_0000 * 0x1_0000_0000) by (nonlinear_arith)
            requires
                mid <= 0x1_0000_0000,
        ;
        let sq: u128 = (mid as u128) * (mid as u128);
        if sq <= n as u128 {
            lo = mid;
        } else {
            hi = mid;
        }
    }
    proof {
        lemma_root_of(n as nat);
        lemma_root_unique(n as int, lo as int, root_of(n as nat) as int);
    }
    lo
}


/// Quotient of `a` by a positive `d`, rounded toward zero.
pub open spec fn quot(a: int, d: int) -> int {
    if a >= 0 {
        a / d
    } else {
        -((-a) / d)
    }
}

/// `a / d` rounded toward zero, for a positive `d`.
pub fn quot_toward_zero(a: i128, d: i128) -> (r: i128)
    requires
        d > 0,
        a > i128::MIN,
    ensures
        r == quot(a as int, d as int),
{
    if a >= 0 {
        a / d
    } else {
        let m: i128 = -a;
        let q: i128 = m / d;
        proof {
            vstd::arithmetic::div_mod::lemma_div_pos_is_pos(m as int, d as int);
            vstd::arithmetic::div_mod::lemma_div_is_ordered_by_denominator(m as int, 1, d as int);
        }
        -q
    }
}

/// A quotient toward zero is no larger in magnitude than its bound
/// divided by the same positive denominator.
pub proof fn lemma_quot_bounded(a: int, bound: int, d: int)
    requires
        -bound <= a <= bound,
        d > 0,
    ensures
        -(bound / d) <= quot(a, d) <= bound / d,
{
    if a >= 0 {
        vstd::arithmetic::div_mod::lemma_div_is_ordered(a, bound, d);
        vstd::arithmetic::div_mod::lemma_div_pos_is_pos(a, d);
    } else {
        vstd::arithmetic::div_mod::lemma_div_is_ordered(-a, bound, d);
        vstd::arithmetic::div_mod::lemma_div_pos_is_pos(-a, d);
    }
}

/// Both components of `p` lie within `[-limit, limit]`.
pub open spec fn within(p: Point, limit: int) -> bool {
    -limit <= p.x <= limit && -limit <= p.y <= limit
}

/// A direction: components no longer than a unit.
pub open spec fn is_direction(p: Point) -> bool {
    within(p, UNIT as int)
}

/// A direction of unit length, up to rounding: its squared length is
/// within half a percent of `UNIT * UNIT`.
pub open spec fn is_unit(p: Point) -> bool {
    is_direction(p) && 995_000 <= p.x * p.x + p.y * p.y <= 1_005_000
}

/// Components rounded down from an exact unit vector have a squared length
/// close to that of a unit.
proof fn lemma_unit_norm(a: int, b: int, n: int, len: int, q: int, p: int)
    requires
        0 <= a,
        0 <= b,
        a * a + b * b == 1_000_000 * n,
        len >= 1000,
        len * len <= n,
        n < (len + 1) * (len + 1),
        0 <= q <= 1000,
        0 <= p <= 1000,
        q * len <= a < (q + 1) * len,
        p * len <= b < (p + 1) * len,
    ensures
        995_000 <= q * q + p * p <= 1_005_000,
{
    let l2 = len * len;
    assert(q * q * l2 <= a * a) by (nonlinear_arith)
        requires
            0 <= q * len <= a,
            l2 == len * len,
    ;
    assert(p * p * l2 <= b * b) by (nonlinear_arith)
        requires
            0 <= p * len <= b,
            l2 == len * len,
    ;
    assert((q * q + p * p) * l2 == q * q * l2 + p * p * l2) by (nonlinear_arith);
    assert(1_000_000 * n < 1_005_000 * l2) by (nonlinear_arith)
        requires
            n < (len + 1) * (len + 1),
            len >= 1000,
            l2 == len * len,
    ;
    assert(q * q + p * p <= 1_005_000) by (nonlinear_arith)
        requires
            (q * q + p * p) * l2 <= 1_000_000 * n,
            1_000_000 * n < 1_005_000 * l2,
            l2 > 0,
    {
        assert((q * q + p * p) * l2 < 1_005_000 * l2);
    }
    assert(a * a < (q + 1) * (q + 1) * l2) by (nonlinear_arith)
        requires
            0 <= a < (q + 1) * len,
            l2 == len * len,
    ;
    assert(b * b < (p + 1) * (p + 1) * l2) by (nonlinear_arith)
        requires
            0 <= b < (p + 1) * len,
            l2 == len * len,
    ;
    assert(((q + 1) * (q + 1) + (p + 1) * (p + 1)) * l2 == (q + 1) * (q + 1) * l2 + (p + 1) * (p
        + 1) * l2) by (nonlinear_arith);
    assert(1_000_000 < (q + 1) * (q + 1) + (p + 1) * (p + 1)) by (nonlinear_arith)
        requires
            1_000_000 * l2 <= 1_000_000 * n,
            1_000_000 * n < ((q + 1) * (q + 1) + (p + 1) * (p + 1)) * l2,
            l2 > 0,
    {
        assert(1_000_000 * l2 < ((q + 1) * (q + 1) + (p + 1) * (p + 1)) * l2);
    }
    assert(995_000 <= q * q + p * p) by (nonlinear_arith)
        requires
            1_000_000 < (q + 1) * (q + 1) + (p + 1) * (p + 1),
            0 <= q <= 1000,
            0 <= p <= 1000,
    ;
}

/// Squared length of `UNIT * v`.
pub open spec fn scaled_norm2(v: Point) -> int {
    UNIT * UNIT * (v.x * v.x + v.y * v.y)
}

/// `v` scaled to unit length, each component rounded toward zero; the zero
/// vector points along the x axis.
pub open spec fn unit_of(v: Point) -> Point {
    if v.x == 0 && v.y == 0 {
        Point { x: UNIT, y: 0 }
    } else {
        let len = root_of(scaled_norm2(v) as nat) as int;
        Point {
            x: quot(v.x * UNIT * UNIT, len) as i64,
            y: quot(v.y * UNIT * UNIT, len) as i64,
        }
    }
}

/// Magnitude of one component of a unit vector: `a * UNIT * UNIT / len`,
/// where `a * UNIT <= len`.
fn scaled_component(a: u64, len: u64) -> (r: u64)
    requires
        a <= DIRECTION_INPUT_LIMIT,
        0 < len,
        (a as int) * UNIT <= len,
    ensures
        r == (a as int) * UNIT * UNIT / (len as int),
        r <= UNIT,
        r * len <= (a as int) * UNIT * UNIT < (r + 1) * len,
{
    let num: u64 = a * 1_000_000;
    let r = num / len;
    proof {
        vstd::arithmetic::div_mod::lemma_fundamental_div_mod(num as int, len as int);
        vstd::arithmetic::div_mod::lemma_mod_pos_bound(num as int, len as int);
        assert(r * len <= num < (r + 1) * len) by (nonlinear_arith)
            requires
                num == len * r + num % len,
                0 <= num % len < len,
        ;
    }
    assert(r <= 1000) by (nonlinear_arith)
        requires
            r == num / len,
            num == a * 1_000_000,
            a * 1000 <= len,
            0 < len,
    {
        assert(num <= len * 1000);
        vstd::arithmetic::div_mod::lemma_div_is_ordered(num as int, (len * 1000) as int, len as int);
        vstd::arithmetic::div_mod::lemma_div_multiples_vanish(1000, len as int);
    }
    r
}

/// The direction of `v` as a vector of unit length.
pub fn unit_direction(v: Point) -> (r: Point)
    requires
        within(v, DIRECTION_INPUT_LIMIT as int),
    ensures
        r == unit_of(v),
        is_unit(r),
{
    if v.x == 0 && v.y == 0 {
        assert(1000 * 1000 + 0 * 0 == 1_000_000);
        return Point { x: UNIT, y: 0 };
    }
    let ax: u64 = if v.x < 0 { (-v.x) as u64 } else { v.x as u64 };
    let ay: u64 = if v.y < 0 { (-v.y) as u64 } else { v.y as u64 };
    let sx: u64 = ax * 1000;
    let sy: u64 = ay * 1000;
    assert(sx * sx <= 1_000_000_000 * 1_000_000_000) by (nonlinear_arith)
        requires
            sx <= 1_000_000_000,
    ;
    assert(sy * sy <= 1_000_000_000 * 1_000_000_000) by (nonlinear_arith)
        requires
            sy <= 1_000_000_000,
    ;
    let n: u64 = sx * sx + sy * sy;
    assert(ax * ax == v.x * v.x) by (nonlinear_arith)
        requires
            ax == v.x || ax == -v.x,
    ;
    assert(ay * ay == v.y * v.y) by (nonlinear_arith)
        requires
            ay == v.y || ay == -v.y,
    ;
    assert(n == scaled_norm2(v)) by (nonlinear_arith)
        requires
            n == sx * sx + sy * sy,
            sx == ax * 1000,
            sy == ay * 1000,
            ax * ax == v.x * v.x,
            ay * ay == v.y * v.y,
    ;
    let len = isqrt(n);
    proof {
        lemma_root_of(n as nat);
        assert(sx * sx <= n && sy * sy <= n);
        assert(sx <= len) by (nonlinear_arith)
            requires
                sx * sx <= n,
                n < (len + 1) * (len + 1),
        ;
        assert(sy <= len) by (nonlinear_arith)
            requires
                sy * sy <= n,
                n < (len + 1) * (len + 1),
        ;
        assert(ax > 0 || ay > 0);
        assert(len > 0);
    }
    let mx = scaled_component(ax, len);
    let my = scaled_component(ay, len);
    proof {
        assert(n >= 1_000_000) by (nonlinear_arith)
            requires
                n == sx * sx + sy * sy,
                sx == ax * 1000,
                sy == ay * 1000,
                ax >= 1 || ay >= 1,
        ;
        assert(len >= 1000) by (nonlinear_arith)
            requires
                n >= 1_000_000,
                n < (len + 1) * (len + 1),
                len >= 0,
        ;
        assert((sx * 1000) * (sx * 1000) + (sy * 1000) * (sy * 1000) == 1_000_000 * n)
            by (nonlinear_arith)
            requires
                n == sx * sx + sy * sy,
        ;
        lemma_unit_norm(
            sx * 1000,
            sy * 1000,
            n as int,
            len as int,
            mx as int,
            my as int,
        );
    }
    let x: i64 = if v.x < 0 { -(mx as i64) } else { mx as i64 };
    let y: i64 = if v.y < 0 { -(my as i64) } else { my as i64 };
    proof {
        assert(x * x + y * y == mx * mx + my * my) by (nonlinear_arith)
            requires
                x == mx || x == -mx,
                y == my || y == -my,
        ;
        assert(v.x * UNIT * UNIT == v.x * 1_000_000);
        assert(v.y * UNIT * UNIT == v.y * 1_000_000);
    }
    Point { x, y }
}


/// Largest magnitude of a coordinate that the cone test accepts.
pub const COORD_LIMIT: i64 = 100_000_000_000;

/// How far the player sees: 150 world units.
pub const FOV_REACH: i64 = 150_000;

/// Squared cosine of the cone's half angle (a tenth of a half turn), in
/// ten-millionths.
pub const HALF_ANGLE_COS_SQ: i128 = 9_045_085;

/// Denominator of `HALF_ANGLE_COS_SQ`.
pub const COS_SQ_SCALE: i128 = 10_000_000;

/// The player's cone of sight: its apex, the direction it opens toward,
/// and how far it reaches. The half angle is fixed by `HALF_ANGLE_COS_SQ`.
#[derive(Clone, Copy, Debug, PartialEq, Eq, Structural)]
pub struct FieldOfView {
    pub origin: Point,
    pub facing: Point,
    pub reach: i64,
}

/// `a * b`, with both factors bounded, is bounded by the product of the bounds.
proof fn lemma_mul_bounded(a: int, b: int, ba: int, bb: int)
    requires
        -ba <= a <= ba,
        -bb <= b <= bb,
    ensures
        -(ba * bb) <= a * b <= ba * bb,
{
    assert(-(ba * bb) <= a * b <= ba * bb) by (nonlinear_arith)
        requires
            -ba <= a <= ba,
            -bb <= b <= bb,
    ;
}

impl FieldOfView {
    pub open spec fn wf(&self) -> bool {
        within(self.origin, COORD_LIMIT as int) && is_direction(self.facing) && 0 <= self.reach
            <= COORD_LIMIT
    }

    /// The cone at `origin`, opening toward `look`, with the configured reach.
    pub fn new(origin: Point, look: Point) -> (r: FieldOfView)
        requires
            within(origin, COORD_LIMIT as int),
            within(look, DIRECTION_INPUT_LIMIT as int),
        ensures
            r == (FieldOfView { origin, facing: unit_of(look), reach: FOV_REACH }),
            r.wf(),
    {
        FieldOfView { origin, facing: unit_direction(look), reach: FOV_REACH }
    }

    /// `p` is nearer than the reach to the apex, and the angle between
    /// `p - origin` and the facing is less than the half angle: the dot
    /// product is positive and its square exceeds the squared cosine times
    /// the product of the squared lengths. Both bounds are strict.
    pub open spec fn covers(&self, p: Point) -> bool {
        let dx = p.x - self.origin.x;
        let dy = p.y - self.origin.y;
        let dist2 = dx * dx + dy * dy;
        let dot = dx * self.facing.x + dy * self.facing.y;
        let facing2 = self.facing.x * self.facing.x + self.facing.y * self.facing.y;
        &&& dist2 < self.reach * self.reach
        &&& dot > 0
        &&& COS_SQ_SCALE * (dot * dot) > HALF_ANGLE_COS_SQ * (dist2 * facing2)
    }

    /// Whether `p` lies inside the cone.
    pub fn contains(&self, p: Point) -> (r: bool)
        requires
            self.wf(),
            within(p, COORD_LIMIT as int),
        ensures
            r == self.covers(p),
    {
        let dx: i128 = p.x as i128 - self.origin.x as i128;
        let dy: i128 = p.y as i128 - self.origin.y as i128;
        let fx: i128 = self.facing.x as i128;
        let fy: i128 = self.facing.y as i128;
        let reach: i128 = self.reach as i128;
        proof {
            lemma_mul_bounded(dx as int, dx as int, 200_000_000_000, 200_000_000_000);
            lemma_mul_bounded(dy as int, dy as int, 200_000_000_000, 200_000_000_000);
            lemma_mul_bounded(dx as int, fx as int, 200_000_000_000, 1000);
            lemma_mul_bounded(dy as int, fy as int, 200_000_000_000, 1000);
            lemma_mul_bounded(fx as int, fx as int, 1000, 1000);
            lemma_mul_bounded(fy as int, fy as int, 1000, 1000);
            lemma_mul_bounded(reach as int, reach as int, 100_000_000_000, 100_000_000_000);
        }
        let dist2: i128 = dx * dx + dy * dy;
        let dot: i128 = dx * fx + dy * fy;
        let facing2: i128 = fx * fx + fy * fy;
        if dist2 >= reach * reach || dot <= 0 {
            return false;
        }
        proof {
            lemma_mul_bounded(dot as int, dot as int, 400_000_000_000_000, 400_000_000_000_000);
            lemma_mul_bounded(dist2 as int, facing2 as int, 80_000_000_000_000_000_000_000, 2_000_000);
        }
        let lhs: i128 = COS_SQ_SCALE * (dot * dot);
        let rhs: i128 = HALF_ANGLE_COS_SQ * (dist2 * facing2);
        lhs > rhs
    }
}

} // verus!
