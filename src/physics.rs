use vstd::prelude::*;

verus! {

/// Fixed-point scale: every length, speed, mass, force or time is counted in
/// thousandths, so `1000` stands for one whole unit.
pub const UNIT: i64 = 1000;

/// `a / b` rounded toward zero, the way a fixed-point product is narrowed.
pub open spec fn quot(a: int, b: int) -> int {
    if a >= 0 {
        a / b
    } else {
        -((-a) / b)
    }
}

/// The fixed-point product of two quantities.
pub open spec fn fx_mul(a: int, b: int) -> int {
    quot(a * b, UNIT as int)
}

/// Whether `r` is the square root of `n` rounded down.
pub open spec fn is_floor_sqrt(r: int, n: int) -> bool {
    r >= 0 && r * r <= n < (r + 1) * (r + 1)
}

/// The squared length of a vector.
pub open spec fn norm_sq(v: Vector) -> int {
    v.x * v.x + v.y * v.y
}

/// Whether `w` is `v` with both components multiplied by `num / den`, each
/// rounded toward zero.
pub open spec fn scaled_by(v: Vector, w: Vector, num: int, den: int) -> bool {
    w.x == quot(v.x * num, den) && w.y == quot(v.y * num, den)
}

/// Whether a mathematical integer fits in an `i64`.
pub open spec fn fits(v: int) -> bool {
    i64::MIN <= v <= i64::MAX
}

/// The product of two `i64` values is well inside the `i128` range.
proof fn lemma_product_range(a: int, b: int)
    requires
        fits(a),
        fits(b),
    ensures
        -0x4000_0000_0000_0000_0000_0000_0000_0000 <= a * b <= 0x4000_0000_0000_0000_0000_0000_0000_0000,
{
    assert(-0x4000_0000_0000_0000_0000_0000_0000_0000 <= a * b <= 0x4000_0000_0000_0000_0000_0000_0000_0000) by (nonlinear_arith)
        requires
            i64::MIN <= a <= i64::MAX,
            i64::MIN <= b <= i64::MAX,
    ;
}

/// Two rounded-down components whose increments reach past one unit of
/// length are themselves at least `UNIT - 2` long.
proof fn lemma_rounding_shortfall(p: int, q: int)
    requires
        p >= 0,
        q >= 0,
        (p + 1) * (p + 1) + (q + 1) * (q + 1) > 1000 * 1000,
    ensures
        p * p + q * q >= 998 * 998,
{
    if p * p + q * q < 998 * 998 {
        assert((p + 1) * (p + 1) + (q + 1) * (q + 1) == p * p + q * q + 2 * (p + q) + 2) by (nonlinear_arith);
        assert(p + q >= 1998);
        assert((p + q) * (p + q) <= 2 * (p * p + q * q)) by (nonlinear_arith);
        assert((p + q) * (p + q) >= 1998 * 1998) by (nonlinear_arith)
            requires
                p + q >= 1998,
        ;
    }
}

/// The components `p`, `q` of a vector of length `sqrt(n) / s`, scaled by
/// `c / m` and rounded down, where `m` is `sqrt(n)` rounded down and
/// `c = s * UNIT`: the result is one unit long up to two thousandths.
proof fn lemma_unit_length(ax: int, ay: int, c: int, n: int, m: int, p: int, q: int)
    requires
        ax >= 0,
        ay >= 0,
        c > 0,
        m >= 500,
        m * m <= n < (m + 1) * (m + 1),
        (ax * ax + ay * ay) * (c * c) == n * (1000 * 1000),
        p >= 0,
        q >= 0,
        m * p <= ax * c < m * (p + 1),
        m * q <= ay * c < m * (q + 1),
    ensures
        998 * 998 <= p * p + q * q <= 1002 * 1002,
{
    assert((m * p) * (m * p) <= (ax * c) * (ax * c)) by (nonlinear_arith)
        requires
            0 <= m * p <= ax * c,
    ;
    assert((m * q) * (m * q) <= (ay * c) * (ay * c)) by (nonlinear_arith)
        requires
            0 <= m * q <= ay * c,
    ;
    assert((ax * c) * (ax * c) < (m * (p + 1)) * (m * (p + 1))) by (nonlinear_arith)
        requires
            0 <= ax * c < m * (p + 1),
    ;
    assert((ay * c) * (ay * c) < (m * (q + 1)) * (m * (q + 1))) by (nonlinear_arith)
        requires
            0 <= ay * c < m * (q + 1),
    ;
    let s = n * (1000 * 1000);
    assert((ax * c) * (ax * c) + (ay * c) * (ay * c) == s) by (nonlinear_arith)
        requires
            (ax * ax + ay * ay) * (c * c) == s,
    ;
    // Upper bound.
    assert((m * m) * (p * p + q * q) <= s) by (nonlinear_arith)
        requires
            (m * p) * (m * p) + (m * q) * (m * q) <= s,
    ;
    assert(s < (m + 1) * (m + 1) * (1000 * 1000)) by (nonlinear_arith)
        requires
            s == n * (1000 * 1000),
            n < (m + 1) * (m + 1),
    ;
    assert((m + 1) * 1000 <= 1002 * m);
    assert((m + 1) * (m + 1) * (1000 * 1000) <= (m * m) * (1002 * 1002)) by (nonlinear_arith)
        requires
            0 <= (m + 1) * 1000 <= 1002 * m,
    ;
    assert(p * p + q * q < 1002 * 1002) by (nonlinear_arith)
        requires
            m > 0,
            (m * m) * (p * p + q * q) < (m * m) * (1002 * 1002),
    ;
    // Lower bound.
    assert(s < (m * m) * ((p + 1) * (p + 1) + (q + 1) * (q + 1))) by (nonlinear_arith)
        requires
            (ax * c) * (ax * c) + (ay * c) * (ay * c) == s,
            (ax * c) * (ax * c) < (m * (p + 1)) * (m * (p + 1)),
            (ay * c) * (ay * c) < (m * (q + 1)) * (m * (q + 1)),
    ;
    assert((m * m) * (1000 * 1000) <= s) by (nonlinear_arith)
        requires
            s == n * (1000 * 1000),
            m * m <= n,
    ;
    assert((p + 1) * (p + 1) + (q + 1) * (q + 1) > 1000 * 1000) by (nonlinear_arith)
        requires
            m > 0,
            (m * m) * (1000 * 1000) < (m * m) * ((p + 1) * (p + 1) + (q + 1) * (q + 1)),
    ;
    lemma_rounding_shortfall(p, q);
}

/// `quot(a, m)` is `a / m` rounded toward zero: its size times `m` lies within
/// one `m` below the size of `a`.
proof fn lemma_quot_bounds(a: int, m: int)
    requires
        m > 0,
    ensures
        quot(a, m) * a >= 0,
        a == 0 ==> quot(a, m) == 0,
        ({
            let p = if quot(a, m) >= 0 { quot(a, m) } else { -quot(a, m) };
            let aa = if a >= 0 { a } else { -a };
            p >= 0 && m * p <= aa < m * (p + 1)
        }),
{
    let aa = if a >= 0 { a } else { -a };
    vstd::arithmetic::div_mod::lemma_fundamental_div_mod(aa, m);
    vstd::arithmetic::div_mod::lemma_mod_pos_bound(aa, m);
    vstd::arithmetic::div_mod::lemma_div_pos_is_pos(aa, m);
    assert(m * (aa / m + 1) == m * (aa / m) + m) by (nonlinear_arith);
    if a < 0 {
        assert(quot(a, m) * a == (aa / m) * aa) by (nonlinear_arith)
            requires
                quot(a, m) == -(aa / m),
                a == -aa,
        ;
        assert((aa / m) * aa >= 0) by (nonlinear_arith)
            requires
                aa / m >= 0,
                aa >= 0,
        ;
    } else {
        assert((aa / m) * aa >= 0) by (nonlinear_arith)
            requires
                aa / m >= 0,
                aa >= 0,
        ;
    }
}

/// Divides toward zero; `b` is positive.
fn div_toward_zero(a: i128, b: i128) -> (r: i128)
    requires
        a > i128::MIN,
        b > 0,
    ensures
        r == quot(a as int, b as int),
{
    if a >= 0 {
        a / b
    } else {
        -((-a) / b)
    }
}

/// What can go wrong with a physical quantity.
#[derive(Debug, Clone, Copy, PartialEq, Eq, Structural)]
pub enum PhysicsError {
    /// A mass of zero or below.
    NonPositiveMass,
    /// A direction asked of the zero vector.
    ZeroMagnitude,
    /// A result that does not fit the fixed-point range.
    Overflow,
}

/// The square root of `n` rounded down, by bisection.
fn floor_sqrt(n: u128) -> (r: u128)
    ensures
        r * r <= n < (r + 1) * (r + 1),
{
    let mut lo: u128 = 0;
    let mut hi: u128 = 0x1_0000_0000_0000_0000;
    assert(n < hi * hi);
    while hi - lo > 1
        invariant
            lo < hi <= 0x1_0000_0000_0000_0000,
            lo * lo <= n < hi * hi,
        decreases hi - lo,
    {
        let mid = lo + (hi - lo) / 2;
        assert(mid * mid <= 0xffff_ffff_ffff_ffff * 0xffff_ffff_ffff_ffff) by (nonlinear_arith)
            requires
                0 <= mid < 0x1_0000_0000_0000_0000,
        ;
        if mid * mid <= n {
            lo = mid;
        } else {
            hi = mid;
        }
    }
    lo
}

/// A two-dimensional vector of fixed-point components.
#[derive(Debug, Clone, Copy, PartialEq, Eq, Structural)]
pub struct Vector {
    pub x: i64,
    pub y: i64,
}

impl Vector {
    pub open spec fn new_spec() -> Self {
        Vector { x: 0, y: 0 }
    }

    /// The zero vector.
    #[verifier::when_used_as_spec(new_spec)]
    pub fn new() -> (r: Self)
        ensures
            r == Self::new_spec(),
    {
        Self { x: 0, y: 0 }
    }

    pub fn get_x(&self) -> (r: i64)
        ensures
            r == self.x,
    {
        self.x
    }

    pub fn get_y(&self) -> (r: i64)
        ensures
            r == self.y,
    {
        self.y
    }

    /// The length of the vector, rounded down.
    pub fn get_magnitude(&self) -> (r: u64)
        ensures
            is_floor_sqrt(r as int, norm_sq(*self)),
    {
        proof {
            lemma_product_range(self.x as int, self.x as int);
            lemma_product_range(self.y as int, self.y as int);
            assert(0 <= self.x * self.x) by (nonlinear_arith);
            assert(0 <= self.y * self.y) by (nonlinear_arith);
        }
        let xx = (self.x as i128) * (self.x as i128);
        let yy = (self.y as i128) * (self.y as i128);
        let n = (xx as u128) + (yy as u128);
        let r = floor_sqrt(n);
        proof {
            if r > u64::MAX {
                assert(r * r > 0x8000_0000_0000_0000_0000_0000_0000_0000) by (nonlinear_arith)
                    requires
                        r > u64::MAX,
                ;
            }
        }
        r as u64
    }

    /// Scales the vector to one unit of length, keeping its direction: both
    /// components are multiplied by one factor and rounded toward zero, and
    /// the result is one unit long up to two thousandths. The zero vector has
    /// no direction.
    pub fn normalize(&mut self) -> (r: Result<(), PhysicsError>)
        ensures
            old(self).x == 0 && old(self).y == 0 ==> r == Err::<(), PhysicsError>(
                PhysicsError::ZeroMagnitude,
            ) && *final(self) == *old(self),
            !(old(self).x == 0 && old(self).y == 0) ==> {
                &&& r is Ok
                &&& (UNIT - 2) * (UNIT - 2) <= norm_sq(*final(self)) <= (UNIT + 2) * (UNIT + 2)
                &&& exists|num: int, den: int|
                    num > 0 && den > 0 && #[trigger] scaled_by(*old(self), *final(self), num, den)
            },
    {
        if self.x == 0 && self.y == 0 {
            return Err(PhysicsError::ZeroMagnitude);
        }
        proof {
            lemma_product_range(self.x as int, self.x as int);
            lemma_product_range(self.y as int, self.y as int);
            assert(0 <= self.x * self.x) by (nonlinear_arith);
            assert(0 <= self.y * self.y) by (nonlinear_arith);
            assert(self.x * self.x + self.y * self.y >= 1) by (nonlinear_arith)
                requires
                    self.x != 0 || self.y != 0,
            ;
        }
        let n = ((self.x as i128) * (self.x as i128)) as u128 + ((self.y as i128) * (
        self.y as i128)) as u128;
        // Below this bound the length is taken in millionths, so that small
        // vectors keep their precision; above it whole units are precise.
        let fine = n <= 0x10_0000_0000_0000_0000_0000_0000;
        let nn: u128 = if fine {
            n * 1_000_000
        } else {
            n
        };
        let c: i128 = if fine {
            1_000_000
        } else {
            1000
        };
        let m = floor_sqrt(nn);
        proof {
            assert(nn <= 0x8000_0000_0000_0000_0000_0000_0000_0000);
            if m >= 0x1_0000_0000_0000_0000 {
                assert(m * m >= 0x1_0000_0000_0000_0000_0000_0000_0000_0000) by (nonlinear_arith)
                    requires
                        m >= 0x1_0000_0000_0000_0000,
                ;
            }
            assert(m < 0x1_0000_0000_0000_0000);
            assert(nn >= 1_000_000);
            if m < 1000 {
                assert((m + 1) * (m + 1) <= 1000 * 1000) by (nonlinear_arith)
                    requires
                        0 <= m < 1000,
                ;
            }
            assert(m >= 1000);
            lemma_product_range(self.x as int, 1_000_000);
            lemma_product_range(self.y as int, 1_000_000);
        }
        let nx = div_toward_zero((self.x as i128) * c, m as i128);
        let ny = div_toward_zero((self.y as i128) * c, m as i128);
        proof {
            let ax: int = if self.x >= 0 { self.x as int } else { -self.x };
            let ay: int = if self.y >= 0 { self.y as int } else { -self.y };
            lemma_quot_bounds(self.x * c, m as int);
            lemma_quot_bounds(self.y * c, m as int);
            let p: int = if nx >= 0 { nx as int } else { -nx };
            let q: int = if ny >= 0 { ny as int } else { -ny };
            assert(ax * c == (if self.x * c >= 0 { self.x * c } else { -(self.x * c) })) by (nonlinear_arith)
                requires
                    c > 0,
                    ax == (if self.x >= 0 { self.x as int } else { -self.x }),
            ;
            assert(ay * c == (if self.y * c >= 0 { self.y * c } else { -(self.y * c) })) by (nonlinear_arith)
                requires
                    c > 0,
                    ay == (if self.y >= 0 { self.y as int } else { -self.y }),
            ;
            assert(ax * ax + ay * ay == n) by (nonlinear_arith)
                requires
                    ax == (if self.x >= 0 { self.x as int } else { -self.x }),
                    ay == (if self.y >= 0 { self.y as int } else { -self.y }),
                    n == self.x * self.x + self.y * self.y,
            ;
            assert((ax * ax + ay * ay) * (c * c) == nn * (1000 * 1000)) by (nonlinear_arith)
                requires
                    ax * ax + ay * ay == n,
                    fine ==> nn == n * 1_000_000 && c == 1_000_000,
                    !fine ==> nn == n && c == 1000,
            ;
            lemma_unit_length(ax, ay, c as int, nn as int, m as int, p, q);
            assert(nx * nx == p * p) by (nonlinear_arith)
                requires
                    p == (if nx >= 0 { nx as int } else { -nx }),
            ;
            assert(ny * ny == q * q) by (nonlinear_arith)
                requires
                    q == (if ny >= 0 { ny as int } else { -ny }),
            ;
            assert(p <= 1002) by (nonlinear_arith)
                requires
                    p >= 0,
                    p * p <= 1002 * 1002,
                    p * p + q * q <= 1002 * 1002,
                    q * q >= 0,
            ;
            assert(q <= 1002) by (nonlinear_arith)
                requires
                    q >= 0,
                    q * q <= 1002 * 1002,
                    p * p + q * q <= 1002 * 1002,
                    p * p >= 0,
            ;
        }
        let old_v = Ghost(*self);
        self.x = nx as i64;
        self.y = ny as i64;
        proof {
            assert(scaled_by(old_v@, *self, c as int, m as int));
        }
        Ok(())
    }

    /// Adds `x` and `y` to the components.
    pub fn add(&mut self, x: i64, y: i64)
        requires
            fits(old(self).x + x),
            fits(old(self).y + y),
        ensures
            final(self).x == old(self).x + x,
            final(self).y == old(self).y + y,
    {
        self.x = self.x + x;
        self.y = self.y + y;
    }

    /// Multiplies both components by a fixed-point scalar.
    pub fn mul(&mut self, scalar: i64)
        requires
            fits(fx_mul(old(self).x as int, scalar as int)),
            fits(fx_mul(old(self).y as int, scalar as int)),
        ensures
            final(self).x == fx_mul(old(self).x as int, scalar as int),
            final(self).y == fx_mul(old(self).y as int, scalar as int),
    {
        proof {
            lemma_product_range(self.x as int, scalar as int);
            lemma_product_range(self.y as int, scalar as int);
        }
        let nx = div_toward_zero((self.x as i128) * (scalar as i128), UNIT as i128);
        let ny = div_toward_zero((self.y as i128) * (scalar as i128), UNIT as i128);
        self.x = nx as i64;
        self.y = ny as i64;
    }

    pub fn add_vector(&mut self, other: Vector)
        requires
            fits(old(self).x + other.x),
            fits(old(self).y + other.y),
        ensures
            final(self).x == old(self).x + other.x,
            final(self).y == old(self).y + other.y,
    {
        self.add(other.x, other.y)
    }

    pub fn sub_vector(&mut self, other: Vector)
        requires
            fits(old(self).x - other.x),
            fits(old(self).y - other.y),
        ensures
            final(self).x == old(self).x - other.x,
            final(self).y == old(self).y - other.y,
    {
        self.x = self.x - other.x;
        self.y = self.y - other.y;
    }
}

/// A physical system handle; it carries no state of its own.
pub struct Physics {}

/// A force field acting on a body; it contributes no force of its own.
pub struct Field {}

/// The sum of the `x` components of a list of forces.
pub open spec fn sum_x(s: Seq<Vector>) -> int
    decreases s.len(),
{
    if s.len() == 0 {
        0
    } else {
        sum_x(s.drop_last()) + s.last().x
    }
}

/// The sum of the `y` components of a list of forces.
pub open spec fn sum_y(s: Seq<Vector>) -> int
    decreases s.len(),
{
    if s.len() == 0 {
        0
    } else {
        sum_y(s.drop_last()) + s.last().y
    }
}

/// Half a time step of acceleration added to a velocity.
pub open spec fn kick(v: int, a: int, dt: int) -> int {
    v + quot(a * dt, 2 * UNIT)
}

/// The acceleration that a total force gives a mass.
pub open spec fn accel_of(f: int, m: int) -> int {
    quot(f * UNIT, m)
}

/// One velocity-Verlet step along one axis, from position `p`, velocity `v`
/// and acceleration `a` under total force `f`: the new position, velocity and
/// acceleration. The position advances by the half-kicked velocity itself.
pub open spec fn axis_step(p: int, v: int, a: int, f: int, m: int, dt: int) -> (int, int, int) {
    let v1 = kick(v, a, dt);
    let a1 = accel_of(f, m);
    (p + v1, kick(v1, a1, dt), a1)
}

/// Whether every quantity of one axis step fits an `i64`.
pub open spec fn axis_fits(p: int, v: int, a: int, f: int, m: int, dt: int) -> bool {
    let v1 = kick(v, a, dt);
    let r = axis_step(p, v, a, f, m, dt);
    fits(v1) && fits(r.0) && fits(r.1) && fits(r.2)
}

/// The position, velocity, acceleration and mass of a body.
pub struct Kinetics {
    pos: Vector,
    vel: Vector,
    accel: Vector,
    mass: i64,
}

impl Kinetics {
    pub closed spec fn spec_position(&self) -> Vector {
        self.pos
    }

    pub closed spec fn spec_velocity(&self) -> Vector {
        self.vel
    }

    pub closed spec fn spec_acceleration(&self) -> Vector {
        self.accel
    }

    pub closed spec fn spec_mass(&self) -> int {
        self.mass as int
    }

    /// The mass is positive.
    pub open spec fn wf(&self) -> bool {
        self.spec_mass() > 0
    }

    /// Whether a step under `forces` over `dt` stays within range.
    pub open spec fn step_fits(&self, forces: Seq<Vector>, dt: int) -> bool {
        &&& axis_fits(
            self.spec_position().x as int,
            self.spec_velocity().x as int,
            self.spec_acceleration().x as int,
            sum_x(forces),
            self.spec_mass(),
            dt,
        )
        &&& axis_fits(
            self.spec_position().y as int,
            self.spec_velocity().y as int,
            self.spec_acceleration().y as int,
            sum_y(forces),
            self.spec_mass(),
            dt,
        )
    }

    /// Whether `next` is this state advanced one step under `forces` over `dt`.
    pub open spec fn stepped(&self, forces: Seq<Vector>, dt: int, next: Kinetics) -> bool {
        let sx = axis_step(
            self.spec_position().x as int,
            self.spec_velocity().x as int,
            self.spec_acceleration().x as int,
            sum_x(forces),
            self.spec_mass(),
            dt,
        );
        let sy = axis_step(
            self.spec_position().y as int,
            self.spec_velocity().y as int,
            self.spec_acceleration().y as int,
            sum_y(forces),
            self.spec_mass(),
            dt,
        );
        &&& next.spec_position().x == sx.0
        &&& next.spec_velocity().x == sx.1
        &&& next.spec_acceleration().x == sx.2
        &&& next.spec_position().y == sy.0
        &&& next.spec_velocity().y == sy.1
        &&& next.spec_acceleration().y == sy.2
        &&& next.spec_mass() == self.spec_mass()
    }

    /// A body at rest at the origin; the mass must be positive.
    pub fn new(mass: i64) -> (r: Result<Self, PhysicsError>)
        ensures
            mass <= 0 ==> r == Err::<Self, PhysicsError>(PhysicsError::NonPositiveMass),
            mass > 0 ==> (r matches Ok(k) && k.wf() && k.spec_mass() == mass && k.spec_position()
                == Vector::new_spec() && k.spec_velocity() == Vector::new_spec()
                && k.spec_acceleration() == Vector::new_spec()),
    {
        if mass <= 0 {
            return Err(PhysicsError::NonPositiveMass);
        }
        Ok(Self { pos: Vector::new(), vel: Vector::new(), accel: Vector::new(), mass })
    }

    pub fn position(&self) -> (r: Vector)
        ensures
            r == self.spec_position(),
    {
        self.pos
    }

    pub fn velocity(&self) -> (r: Vector)
        ensures
            r == self.spec_velocity(),
    {
        self.vel
    }

    pub fn acceleration(&self) -> (r: Vector)
        ensures
            r == self.spec_acceleration(),
    {
        self.accel
    }

    pub fn mass(&self) -> (r: i64)
        ensures
            r == self.spec_mass(),
    {
        self.mass
    }

    /// Advances the body by one velocity-Verlet step of length `dt` under the
    /// sum of `applied_forces`: half a step of velocity from the previous
    /// acceleration, the position moved by that velocity, the acceleration
    /// taken anew from the forces, and the second half step of velocity from
    /// it. When a quantity would leave the range, nothing changes.
    pub fn update(&mut self, applied_forces: Vec<Vector>, field: Field, dt: i64) -> (r: Result<
        (),
        PhysicsError,
    >)
        requires
            old(self).wf(),
        ensures
            final(self).wf(),
            r is Ok <==> old(self).step_fits(applied_forces@, dt as int),
            r is Ok ==> old(self).stepped(applied_forces@, dt as int, *final(self)),
            r is Err ==> r == Err::<(), PhysicsError>(PhysicsError::Overflow) && *final(self)
                == *old(self),
    {
        self.verlet_integrate(applied_forces, field, dt)
    }

    fn verlet_integrate(&mut self, applied_forces: Vec<Vector>, field: Field, dt: i64) -> (r: Result<
        (),
        PhysicsError,
    >)
        requires
            old(self).wf(),
        ensures
            final(self).wf(),
            r is Ok <==> old(self).step_fits(applied_forces@, dt as int),
            r is Ok ==> old(self).stepped(applied_forces@, dt as int, *final(self)),
            r is Err ==> r == Err::<(), PhysicsError>(PhysicsError::Overflow) && *final(self)
                == *old(self),
    {
        let forces = Ghost(applied_forces@);
        let v1x = match kicked(self.vel.x, self.accel.x, dt) {
            Some(v) => v,
            None => return Err(PhysicsError::Overflow),
        };
        let v1y = match kicked(self.vel.y, self.accel.y, dt) {
            Some(v) => v,
            None => return Err(PhysicsError::Overflow),
        };
        let px = match self.pos.x.checked_add(v1x) {
            Some(p) => p,
            None => return Err(PhysicsError::Overflow),
        };
        let py = match self.pos.y.checked_add(v1y) {
            Some(p) => p,
            None => return Err(PhysicsError::Overflow),
        };
        let a1 = match self.get_accleration(applied_forces, field) {
            Ok(a) => a,
            Err(e) => return Err(e),
        };
        let v2x = match kicked(v1x, a1.x, dt) {
            Some(v) => v,
            None => return Err(PhysicsError::Overflow),
        };
        let v2y = match kicked(v1y, a1.y, dt) {
            Some(v) => v,
            None => return Err(PhysicsError::Overflow),
        };
        self.pos = Vector { x: px, y: py };
        self.accel = a1;
        self.vel = Vector { x: v2x, y: v2y };
        Ok(())
    }

    /// The acceleration that the summed forces give this body.
    fn get_accleration(&self, applied_forces: Vec<Vector>, _field: Field) -> (r: Result<
        Vector,
        PhysicsError,
    >)
        requires
            self.wf(),
        ensures
            r is Ok <==> fits(accel_of(sum_x(applied_forces@), self.spec_mass())) && fits(
                accel_of(sum_y(applied_forces@), self.spec_mass()),
            ),
            r matches Ok(a) ==> a.x == accel_of(sum_x(applied_forces@), self.spec_mass())
                && a.y == accel_of(sum_y(applied_forces@), self.spec_mass()),
            r is Err ==> r == Err::<Vector, PhysicsError>(PhysicsError::Overflow),
    {
        let (tx, ty) = total_force(&applied_forces);
        if tx > TOTAL_LIMIT || tx < -TOTAL_LIMIT || ty > TOTAL_LIMIT || ty < -TOTAL_LIMIT {
            proof {
                lemma_large_total(tx as int, self.mass as int);
                lemma_large_total(ty as int, self.mass as int);
            }
            return Err(PhysicsError::Overflow);
        }
        proof {
            assert(-TOTAL_LIMIT * 1000 <= tx * 1000 <= TOTAL_LIMIT * 1000) by (nonlinear_arith)
                requires
                    -TOTAL_LIMIT <= tx <= TOTAL_LIMIT,
            ;
            assert(-TOTAL_LIMIT * 1000 <= ty * 1000 <= TOTAL_LIMIT * 1000) by (nonlinear_arith)
                requires
                    -TOTAL_LIMIT <= ty <= TOTAL_LIMIT,
            ;
        }
        let ax = div_toward_zero(tx * (UNIT as i128), self.mass as i128);
        let ay = div_toward_zero(ty * (UNIT as i128), self.mass as i128);
        if ax < i64::MIN as i128 || ax > i64::MAX as i128 || ay < i64::MIN as i128 || ay
            > i64::MAX as i128 {
            return Err(PhysicsError::Overflow);
        }
        Ok(Vector { x: ax as i64, y: ay as i64 })
    }
}

/// A body at rest, with no acceleration left from an earlier step, keeps its
/// position and velocity through a step without forces, whatever the step's
/// length.
pub proof fn law_rest_without_forces(k: Kinetics, dt: int, next: Kinetics)
    requires
        k.wf(),
        k.spec_velocity() == Vector::new_spec(),
        k.spec_acceleration() == Vector::new_spec(),
        k.stepped(Seq::empty(), dt, next),
    ensures
        k.step_fits(Seq::empty(), dt),
        next.spec_position() == k.spec_position(),
        next.spec_velocity() == k.spec_velocity(),
{
    let e = Seq::<Vector>::empty();
    assert(sum_x(e) == 0 && sum_y(e) == 0);
    assert(quot(0 * dt, 2 * UNIT) == 0);
    assert(quot(0 * UNIT, k.spec_mass()) == 0);
}

/// The velocity gained along one axis over `n` steps under a steady force.
proof fn lemma_axis_steady(v0: int, a: int, dt: int, n: nat, v: int)
    requires
        (a * dt) % (2 * UNIT as int) == 0,
        v == v0 + n * (2 * quot(a * dt, 2 * UNIT)),
    ensures
        kick(kick(v, a, dt), a, dt) == v0 + (n + 1) * (2 * quot(a * dt, 2 * UNIT)),
{
    assert(v0 + (n + 1) * (2 * quot(a * dt, 2 * UNIT)) == v0 + n * (2 * quot(a * dt, 2 * UNIT))
        + 2 * quot(a * dt, 2 * UNIT)) by (nonlinear_arith);
}

/// Twice a rounded half step is a whole step when nothing is rounded away.
proof fn lemma_whole_step(a: int, dt: int, n: int)
    requires
        (a * dt) % (2 * UNIT as int) == 0,
        n >= 0,
    ensures
        n * (2 * quot(a * dt, 2 * UNIT)) == fx_mul(a, n * dt),
{
    let q = (a * dt) / (2 * UNIT as int);
    vstd::arithmetic::div_mod::lemma_fundamental_div_mod(a * dt, 2 * UNIT as int);
    assert(a * dt == 2000 * q);
    assert(quot(a * dt, 2 * UNIT) == q) by {
        if a * dt < 0 {
            vstd::arithmetic::div_mod::lemma_div_multiples_vanish(-q, 2000);
            assert(-(a * dt) == 2000 * (-q));
        }
    };
    assert(a * (n * dt) == 1000 * (2 * n * q)) by (nonlinear_arith)
        requires
            a * dt == 2000 * q,
    ;
    let w = 2 * n * q;
    assert(quot(1000 * w, 1000) == w) by {
        vstd::arithmetic::div_mod::lemma_div_multiples_vanish(w, 1000);
        vstd::arithmetic::div_mod::lemma_div_multiples_vanish(-w, 1000);
        assert(-(1000 * w) == 1000 * (-w));
    };
    assert(n * (2 * q) == w) by (nonlinear_arith)
        requires
            w == 2 * n * q,
    ;
}

/// The state after `n` steps of a steady run: same mass and acceleration,
/// and two exact half kicks gained per step.
proof fn lemma_steady_prefix(ks: Seq<Kinetics>, forces: Seq<Vector>, dt: int, n: int)
    requires
        0 <= n < ks.len(),
        forall|i: int| 0 <= i < ks.len() - 1 ==> #[trigger] ks[i].stepped(forces, dt, ks[i + 1]),
        ks[0].spec_acceleration().x == accel_of(sum_x(forces), ks[0].spec_mass()),
        ks[0].spec_acceleration().y == accel_of(sum_y(forces), ks[0].spec_mass()),
        (ks[0].spec_acceleration().x * dt) % (2 * UNIT as int) == 0,
        (ks[0].spec_acceleration().y * dt) % (2 * UNIT as int) == 0,
    ensures
        ks[n].spec_mass() == ks[0].spec_mass(),
        ks[n].spec_acceleration() == ks[0].spec_acceleration(),
        ks[n].spec_velocity().x == ks[0].spec_velocity().x + n * (2 * quot(
            ks[0].spec_acceleration().x * dt,
            2 * UNIT,
        )),
        ks[n].spec_velocity().y == ks[0].spec_velocity().y + n * (2 * quot(
            ks[0].spec_acceleration().y * dt,
            2 * UNIT,
        )),
    decreases n,
{
    if n > 0 {
        lemma_steady_prefix(ks, forces, dt, n - 1);
        let i = n - 1;
        assert(ks[i].stepped(forces, dt, ks[i + 1]));
        let a = ks[0].spec_acceleration();
        lemma_axis_steady(
            ks[0].spec_velocity().x as int,
            a.x as int,
            dt,
            (n - 1) as nat,
            ks[n - 1].spec_velocity().x as int,
        );
        lemma_axis_steady(
            ks[0].spec_velocity().y as int,
            a.y as int,
            dt,
            (n - 1) as nat,
            ks[n - 1].spec_velocity().y as int,
        );
    }
}

/// Under a steady force, velocity grows as the closed form `F/m * (n*dt)`:
/// for a run of `n` steps with the same forces and step length, starting with
/// the acceleration that those forces give, the velocity after the run is the
/// starting velocity plus `F/m * (n*dt)` on each axis. The starting
/// acceleration must already be `F/m` (a body that starts without
/// acceleration gains only half of its first step) and `F/m * dt` must split
/// into two exact fixed-point halves.
pub proof fn law_steady_force(ks: Seq<Kinetics>, forces: Seq<Vector>, dt: int)
    requires
        ks.len() >= 1,
        ks[0].wf(),
        forall|i: int| 0 <= i < ks.len() - 1 ==> #[trigger] ks[i].stepped(forces, dt, ks[i + 1]),
        ks[0].spec_acceleration().x == accel_of(sum_x(forces), ks[0].spec_mass()),
        ks[0].spec_acceleration().y == accel_of(sum_y(forces), ks[0].spec_mass()),
        (ks[0].spec_acceleration().x * dt) % (2 * UNIT as int) == 0,
        (ks[0].spec_acceleration().y * dt) % (2 * UNIT as int) == 0,
    ensures
        ks.last().spec_velocity().x == ks[0].spec_velocity().x + fx_mul(
            accel_of(sum_x(forces), ks[0].spec_mass()),
            (ks.len() - 1) * dt,
        ),
        ks.last().spec_velocity().y == ks[0].spec_velocity().y + fx_mul(
            accel_of(sum_y(forces), ks[0].spec_mass()),
            (ks.len() - 1) * dt,
        ),
{
    let m = ks[0].spec_mass();
    let ax = accel_of(sum_x(forces), m);
    let ay = accel_of(sum_y(forces), m);
    lemma_steady_prefix(ks, forces, dt, ks.len() - 1);
    lemma_whole_step(ax, dt, ks.len() - 1);
    lemma_whole_step(ay, dt, ks.len() - 1);
}

/// From a body without acceleration, a run of `n` steps under steady forces
/// gains `F/m * (n*dt)` less the half kick that the first step takes from the
/// missing acceleration, that is `F/m * ((n - 1/2) * dt)`; `F/m * dt` must
/// split into two exact fixed-point halves.
pub proof fn law_steady_force_from_rest(ks: Seq<Kinetics>, forces: Seq<Vector>, dt: int)
    requires
        ks.len() >= 2,
        ks[0].wf(),
        forall|i: int| 0 <= i < ks.len() - 1 ==> #[trigger] ks[i].stepped(forces, dt, ks[i + 1]),
        ks[0].spec_acceleration() == Vector::new_spec(),
        (accel_of(sum_x(forces), ks[0].spec_mass()) * dt) % (2 * UNIT as int) == 0,
        (accel_of(sum_y(forces), ks[0].spec_mass()) * dt) % (2 * UNIT as int) == 0,
    ensures
        ks.last().spec_velocity().x == ks[0].spec_velocity().x + fx_mul(
            accel_of(sum_x(forces), ks[0].spec_mass()),
            (ks.len() - 1) * dt,
        ) - quot(accel_of(sum_x(forces), ks[0].spec_mass()) * dt, 2 * UNIT),
        ks.last().spec_velocity().y == ks[0].spec_velocity().y + fx_mul(
            accel_of(sum_y(forces), ks[0].spec_mass()),
            (ks.len() - 1) * dt,
        ) - quot(accel_of(sum_y(forces), ks[0].spec_mass()) * dt, 2 * UNIT),
{
    let m = ks[0].spec_mass();
    let ax = accel_of(sum_x(forces), m);
    let ay = accel_of(sum_y(forces), m);
    let i: int = 0;
    assert(ks[i].stepped(forces, dt, ks[i + 1]));
    assert(quot(0 * dt, 2 * UNIT) == 0);
    let rest = ks.skip(1);
    assert forall|j: int| 0 <= j < rest.len() - 1 implies #[trigger] rest[j].stepped(forces, dt, rest[j + 1]) by {
        let k = j + 1;
        assert(ks[k].stepped(forces, dt, ks[k + 1]));
    }
    assert(rest[0] == ks[1]);
    assert(rest.last() == ks.last());
    law_steady_force(rest, forces, dt);
    lemma_whole_step(ax, dt, ks.len() - 2);
    lemma_whole_step(ax, dt, ks.len() - 1);
    lemma_whole_step(ay, dt, ks.len() - 2);
    lemma_whole_step(ay, dt, ks.len() - 1);
    assert((ks.len() - 1) * (2 * quot(ax * dt, 2 * UNIT)) == (ks.len() - 2) * (2 * quot(ax * dt, 2 * UNIT)) + 2 * quot(ax * dt, 2 * UNIT)) by (nonlinear_arith);
    assert((ks.len() - 1) * (2 * quot(ay * dt, 2 * UNIT)) == (ks.len() - 2) * (2 * quot(ay * dt, 2 * UNIT)) + 2 * quot(ay * dt, 2 * UNIT)) by (nonlinear_arith);
}

/// The velocity `v` after half a step of acceleration `a`, if it fits.
fn kicked(v: i64, a: i64, dt: i64) -> (r: Option<i64>)
    ensures
        r is Some <==> fits(kick(v as int, a as int, dt as int)),
        r matches Some(w) ==> w == kick(v as int, a as int, dt as int),
{
    proof {
        lemma_product_range(a as int, dt as int);
    }
    let h = div_toward_zero((a as i128) * (dt as i128), 2 * (UNIT as i128));
    let w = (v as i128) + h;
    if w < i64::MIN as i128 || w > i64::MAX as i128 {
        None
    } else {
        Some(w as i64)
    }
}

/// A total force beyond which no positive `i64` mass keeps the acceleration
/// within range.
const TOTAL_LIMIT: i128 = 0x200000000000000000000000000000;

/// A total force beyond the limit gives an acceleration out of range.
proof fn lemma_large_total(t: int, m: int)
    requires
        0 < m <= i64::MAX,
    ensures
        (t > TOTAL_LIMIT || t < -TOTAL_LIMIT) ==> !fits(accel_of(t, m)),
{
    if t > TOTAL_LIMIT || t < -TOTAL_LIMIT {
        let at: int = if t >= 0 { t } else { -t };
        let big: int = (i64::MAX + 2) * m;
        assert(at * UNIT >= big) by (nonlinear_arith)
            requires
                at > 0x200000000000000000000000000000,
                0 < m <= 0x7fff_ffff_ffff_ffff,
                big == (0x7fff_ffff_ffff_ffff + 2) * m,
        ;
        vstd::arithmetic::div_mod::lemma_div_is_ordered(big, at * UNIT, m);
        vstd::arithmetic::div_mod::lemma_div_by_multiple(i64::MAX + 2, m);
        if t < 0 {
            assert(-(t * UNIT) == at * UNIT);
        }
    }
}

/// The summed forces, per axis.
fn total_force(forces: &Vec<Vector>) -> (r: (i128, i128))
    ensures
        r.0 == sum_x(forces@),
        r.1 == sum_y(forces@),
{
    let mut tx: i128 = 0;
    let mut ty: i128 = 0;
    let mut i: usize = 0;
    assert(forces@.take(0) =~= Seq::<Vector>::empty());
    while i < forces.len()
        invariant
            0 <= i <= forces@.len(),
            tx == sum_x(forces@.take(i as int)),
            ty == sum_y(forces@.take(i as int)),
            -(i * 0x8000_0000_0000_0000) <= tx <= i * 0x8000_0000_0000_0000,
            -(i * 0x8000_0000_0000_0000) <= ty <= i * 0x8000_0000_0000_0000,
        decreases forces@.len() - i,
    {
        let f = forces[i];
        proof {
            assert(forces@.take(i + 1).drop_last() =~= forces@.take(i as int));
            assert(forces@.take(i + 1).last() == f);
            assert(i + 1 <= 0xffff_ffff_ffff_ffff);
            assert((i + 1) * 0x8000_0000_0000_0000 <= 0xffff_ffff_ffff_ffff * 0x8000_0000_0000_0000) by (nonlinear_arith)
                requires
                    i + 1 <= 0xffff_ffff_ffff_ffff,
            ;
            assert((i + 1) * 0x8000_0000_0000_0000 == i * 0x8000_0000_0000_0000 + 0x8000_0000_0000_0000) by (nonlinear_arith);
        }
        tx = tx + f.x as i128;
        ty = ty + f.y as i128;
        i = i + 1;
    }
    assert(forces@.take(forces@.len() as int) =~= forces@);
    (tx, ty)
}

} // verus!
