//! Bodies and their pairwise physics.
//!
//! A `Particle` is a point mass with velocity, position, a display color and
//! a tombstone flag.  This module gives the pure pair computations: distance,
//! radius, gravitational force, relative speed, the merge test, the inelastic
//! merge itself, and the semi-implicit Euler integration step.  Each
//! executable function returns exactly the value of its specification
//! counterpart.

use vstd::prelude::*;

verus! {

use crate::fixed::FX_MAX;
use crate::fixed::FX_MIN;
use crate::fixed::FX_SCALE;
use crate::fixed::fx_add;
use crate::fixed::fx_div;
use crate::fixed::fx_mul;
use crate::fixed::fx_sqrt;
use crate::fixed::fx_sub;
use crate::fixed::clamp_fx;
use crate::fixed::ilog10;
use crate::fixed::isqrt_u128;
use crate::fixed::lemma_pow10_le_bound_sq;
use crate::fixed::mag2;
use crate::fixed::pow10;
use crate::fixed::spec_fx_add;
use crate::fixed::spec_fx_div;
use crate::fixed::spec_fx_mul;
use crate::fixed::spec_fx_sqrt;
use crate::fixed::spec_fx_sub;
use crate::fixed::sqrt_floor;
use vstd::arithmetic::div_mod::lemma_fundamental_div_mod;
use vstd::arithmetic::mul::lemma_mul_upper_bound;

/// A body below this mass does not act as a gravitational source, and a pair
/// with neither body above it is never tested for a merge.
pub const MASS_CUTOFF: i64 = 50 * FX_SCALE;

/// Overlapping bodies merge only when they close faster than this.
pub const REL_SPEED_CUTOFF: i64 = 160 * FX_SCALE;

/// Scalar value of one radius step: the radius grid is a tenth of a
/// simulation unit, one half-decade of mass (`log10(mass^2)` moves by one
/// per step, and the radius is `log10(mass) / 5`).
pub const RADIUS_STEP: i64 = 100_000;

/// An RGBA color with eight bits per channel.
#[derive(Clone, Copy, PartialEq, Eq, Structural, Debug)]
pub struct Color {
    pub red: u8,
    pub green: u8,
    pub blue: u8,
    pub alpha: u8,
}

/// The color that marks a body which has undergone a notable merge.
pub open spec fn spec_highlight() -> Color {
    Color { red: 255, green: 255, blue: 0, alpha: 255 }
}

/// Returns the merge highlight color.
pub fn highlight_color() -> (c: Color)
    ensures
        c == spec_highlight(),
{
    Color { red: 255, green: 255, blue: 0, alpha: 255 }
}

/// A point mass.  `to_destroy` is the tombstone flag: a body absorbed by a
/// merge keeps its slot until the end of the tick and is then dropped.
#[derive(Clone, Copy, Debug)]
pub struct Particle {
    pub mass: i64,
    pub vx: i64,
    pub vy: i64,
    pub x: i64,
    pub y: i64,
    pub color: Color,
    pub to_destroy: bool,
}

/// A body is well formed when its mass is positive and every scalar field
/// lies in the symmetric representable range, which all clamped arithmetic
/// preserves.
pub open spec fn fx_ok(p: Particle) -> bool {
    &&& p.mass >= 1
    &&& p.vx >= FX_MIN
    &&& p.vy >= FX_MIN
    &&& p.x >= FX_MIN
    &&& p.y >= FX_MIN
}

impl PartialEq for Particle {
    /// Bodies compare by physical state and color; the tombstone flag is
    /// bookkeeping and takes no part.
    fn eq(&self, other: &Self) -> (r: bool) {
        self.x == other.x && self.y == other.y && self.vx == other.vx && self.vy == other.vy
            && self.mass == other.mass && self.color == other.color
    }
}

impl vstd::std_specs::cmp::PartialEqSpecImpl for Particle {
    open spec fn obeys_eq_spec() -> bool {
        true
    }

    open spec fn eq_spec(&self, other: &Self) -> bool {
        self.x == other.x && self.y == other.y && self.vx == other.vx && self.vy == other.vy
            && self.mass == other.mass && self.color == other.color
    }
}

/// Radius of a body of mass `m`: `log10(m) / 5`, floored to the radius grid
/// of a tenth of a unit.  The base-ten logarithm of the squared scalar mass
/// is computed exactly (`lemma_radius_characterization`); the twelve
/// subtracted half-decades undo the fixed-point scale of `m * m`.  A finer
/// grid is out of reach of exact integer arithmetic: the logarithm is
/// transcendental, and deciding its floor on a grid of `g` steps per decade
/// compares `m` raised to the power `g` against powers of ten.
pub open spec fn spec_radius(m: int) -> int
    recommends
        m >= 1,
{
    (ilog10((m * m) as nat) - 12) * (RADIUS_STEP as int)
}

/// What the radius computes, exactly: the squared scalar mass lies between
/// consecutive powers of ten whose exponent the radius carries, so the
/// radius is the floor of `log10(mass) / 5` on the half-decade grid.
pub proof fn lemma_radius_characterization(m: int)
    requires
        m >= 1,
    ensures
        spec_radius(m) == (ilog10((m * m) as nat) - 12) * (RADIUS_STEP as int),
        pow10(ilog10((m * m) as nat)) <= (m * m) as nat,
        ((m * m) as nat) < pow10(ilog10((m * m) as nat) + 1),
{
    assert(m * m >= 1) by (nonlinear_arith)
        requires
            m >= 1,
    ;
    crate::fixed::lemma_ilog10_bounds((m * m) as nat);
}

/// Floored square root of the squared length of `(u, v)`, on the raw
/// integers, clamped into the scalar range: exact to one scalar step, and
/// zero only for the zero vector.
pub open spec fn spec_magnitude(u: int, v: int) -> int {
    clamp_fx(sqrt_floor((u * u + v * v) as nat) as int)
}

pub open spec fn spec_distance(a: Particle, b: Particle) -> int {
    spec_magnitude(spec_fx_sub(b.x as int, a.x as int), spec_fx_sub(b.y as int, a.y as int))
}

pub open spec fn spec_rel_speed(a: Particle, b: Particle) -> int {
    spec_magnitude(spec_fx_sub(b.vx as int, a.vx as int), spec_fx_sub(b.vy as int, a.vy as int))
}

/// The magnitude of a vector of scalars is zero exactly when the vector is.
pub proof fn lemma_magnitude_zero_iff(u: int, v: int)
    requires
        crate::fixed::FX_MIN <= u <= FX_MAX as int,
        crate::fixed::FX_MIN <= v <= FX_MAX as int,
    ensures
        spec_magnitude(u, v) == 0 <==> (u == 0 && v == 0),
{
    let n = (u * u + v * v) as nat;
    assert(u * u >= 0 && v * v >= 0) by (nonlinear_arith);
    crate::fixed::lemma_sqrt_floor_bounds(n);
    if u == 0 && v == 0 {
        assert(n == 0);
        assert(sqrt_floor(n) * sqrt_floor(n) <= 0);
        assert(sqrt_floor(n) == 0) by (nonlinear_arith)
            requires
                sqrt_floor(n) * sqrt_floor(n) <= 0,
        ;
    }
    if spec_magnitude(u, v) == 0 {
        assert(sqrt_floor(n) == 0);
        assert(n < 1) by (nonlinear_arith)
            requires
                n < (sqrt_floor(n) + 1) * (sqrt_floor(n) + 1),
                sqrt_floor(n) == 0,
        ;
        assert(u == 0 && v == 0) by (nonlinear_arith)
            requires
                u * u + v * v == 0,
        ;
    }
}

/// Two bodies are at distance zero exactly when their positions coincide.
pub proof fn lemma_distance_zero_iff(a: Particle, b: Particle)
    ensures
        spec_distance(a, b) == 0 <==> (a.x == b.x && a.y == b.y),
{
    lemma_magnitude_zero_iff(
        spec_fx_sub(b.x as int, a.x as int),
        spec_fx_sub(b.y as int, a.y as int),
    );
}

/// The gravitational force `b` exerts on `a`.  It is zero when `b` is below
/// the significance cutoff, when the bodies overlap, and when they are too
/// close for the squared distance to resolve; otherwise it is
/// `a.mass * b.mass / d^2`, decomposed along the separation vector.
pub open spec fn spec_force(a: Particle, b: Particle) -> (int, int) {
    if b.mass < MASS_CUTOFF {
        (0, 0)
    } else {
        let d = spec_distance(a, b);
        if spec_fx_add(spec_radius(a.mass as int), spec_radius(b.mass as int)) > d {
            (0, 0)
        } else {
            let d2 = spec_fx_mul(d, d);
            if d2 == 0 {
                (0, 0)
            } else {
                let dx = spec_fx_sub(b.x as int, a.x as int);
                let dy = spec_fx_sub(b.y as int, a.y as int);
                let f = spec_fx_div(spec_fx_mul(a.mass as int, b.mass as int), d2);
                (spec_fx_div(spec_fx_mul(f, dx), d), spec_fx_div(spec_fx_mul(f, dy), d))
            }
        }
    }
}

/// A pair merges when at least one body is above the mass cutoff, the bodies
/// overlap, and they close faster than the relative-speed cutoff.
pub open spec fn spec_merge_cond(a: Particle, b: Particle) -> bool {
    &&& (a.mass > MASS_CUTOFF || b.mass > MASS_CUTOFF)
    &&& spec_distance(a, b) < spec_fx_add(spec_radius(a.mass as int), spec_radius(b.mass as int))
    &&& spec_rel_speed(a, b) > REL_SPEED_CUTOFF
}

pub open spec fn spec_momentum_x(a: Particle, b: Particle) -> int {
    spec_fx_add(
        spec_fx_mul(a.mass as int, a.vx as int),
        spec_fx_mul(b.mass as int, b.vx as int),
    )
}

pub open spec fn spec_momentum_y(a: Particle, b: Particle) -> int {
    spec_fx_add(
        spec_fx_mul(a.mass as int, a.vy as int),
        spec_fx_mul(b.mass as int, b.vy as int),
    )
}

/// Inelastic merge of `b` into `a`: `b` is tombstoned, `a` takes the combined
/// mass, the momentum-conserving velocity, and the highlight color if either
/// body carried it.  Positions are untouched.
pub open spec fn spec_merge(a: Particle, b: Particle) -> (Particle, Particle) {
    let m = spec_fx_add(a.mass as int, b.mass as int);
    let vx = spec_fx_div(spec_momentum_x(a, b), m);
    let vy = spec_fx_div(spec_momentum_y(a, b), m);
    let color = if a.color == spec_highlight() || b.color == spec_highlight() {
        spec_highlight()
    } else {
        a.color
    };
    (
        Particle {
            mass: m as i64,
            vx: vx as i64,
            vy: vy as i64,
            x: a.x,
            y: a.y,
            color,
            to_destroy: a.to_destroy,
        },
        Particle {
            mass: b.mass,
            vx: b.vx,
            vy: b.vy,
            x: b.x,
            y: b.y,
            color: b.color,
            to_destroy: true,
        },
    )
}

/// Semi-implicit Euler step: the velocity takes the acceleration of the
/// accumulated force over the current mass, then the position moves by the
/// updated velocity.
pub open spec fn spec_integrate(p: Particle, fxv: int, fyv: int, dt: int) -> Particle
    recommends
        p.mass >= 1,
{
    let vx = spec_fx_add(p.vx as int, spec_fx_mul(spec_fx_div(fxv, p.mass as int), dt));
    let vy = spec_fx_add(p.vy as int, spec_fx_mul(spec_fx_div(fyv, p.mass as int), dt));
    let x = spec_fx_add(p.x as int, spec_fx_mul(vx, dt));
    let y = spec_fx_add(p.y as int, spec_fx_mul(vy, dt));
    Particle {
        mass: p.mass,
        vx: vx as i64,
        vy: vy as i64,
        x: x as i64,
        y: y as i64,
        color: p.color,
        to_destroy: p.to_destroy,
    }
}

/// A planet seeded on a circular orbit of radius `r` around a star of mass
/// `star_mass`: the orbital speed is `sqrt((star_mass + mass) / r)`, aimed
/// along the tangent at angle `theta` from the star's position `(gx, gy)`,
/// and `direction` (one or minus one for the two senses) scales the velocity.
/// The caller supplies `sin_t` and `cos_t`, the scalar sine and cosine of
/// `theta`.
pub open spec fn spec_orbit_particle(
    star_mass: int,
    mass: int,
    r: int,
    sin_t: int,
    cos_t: int,
    direction: int,
    gx: int,
    gy: int,
    color: Color,
) -> Particle {
    let v = spec_fx_sqrt(spec_fx_div(spec_fx_add(star_mass, mass), r));
    Particle {
        mass: mass as i64,
        vx: spec_fx_mul(spec_fx_mul(sin_t, v), direction) as i64,
        vy: spec_fx_mul(spec_fx_mul(cos_t, v), direction) as i64,
        x: spec_fx_add(gx, spec_fx_mul(cos_t, r)) as i64,
        y: spec_fx_add(gy, spec_fx_sub(0, spec_fx_mul(sin_t, r))) as i64,
        color,
        to_destroy: false,
    }
}

/// Build the planet that `spec_orbit_particle` describes.
pub fn orbit_particle(
    star_mass: i64,
    mass: i64,
    r: i64,
    sin_t: i64,
    cos_t: i64,
    direction: i64,
    gx: i64,
    gy: i64,
    color: Color,
) -> (p: Particle)
    requires
        star_mass >= 1,
        mass >= 1,
        r >= 1,
    ensures
        p == spec_orbit_particle(
            star_mass as int,
            mass as int,
            r as int,
            sin_t as int,
            cos_t as int,
            direction as int,
            gx as int,
            gy as int,
            color,
        ),
        fx_ok(p),
{
    let v = fx_sqrt(fx_div(fx_add(star_mass, mass), r));
    Particle {
        mass,
        vx: fx_mul(fx_mul(sin_t, v), direction),
        vy: fx_mul(fx_mul(cos_t, v), direction),
        x: fx_add(gx, fx_mul(cos_t, r)),
        y: fx_add(gy, fx_sub(0, fx_mul(sin_t, r))),
        color,
        to_destroy: false,
    }
}

/// The floored square root of the squared length of `(a, b)`, clamped to
/// the scalar range: the shared body of the distance and relative speed.
fn magnitude(a: i64, b: i64) -> (r: i64)
    ensures
        r as int == spec_magnitude(a as int, b as int),
{
    let n = mag2(a, b);
    let s = isqrt_u128(n);
    if s > FX_MAX as u128 {
        FX_MAX
    } else {
        s as i64
    }
}

impl Particle {
    /// Display and collision radius, `log10(mass) / 5` on the half-decade
    /// grid (see `spec_radius`).
    pub fn radius(&self) -> (r: i64)
        requires
            self.mass >= 1,
        ensures
            r as int == spec_radius(self.mass as int),
    {
        proof {
            lemma_mul_upper_bound(
                self.mass as int,
                0x8000_0000_0000_0000,
                self.mass as int,
                0x8000_0000_0000_0000,
            );
            assert(pow10(0) == 1);
        }
        let p: u128 = (self.mass as u128) * (self.mass as u128);
        proof {
            assert(p >= 1) by (nonlinear_arith)
                requires
                    p as int == (self.mass as int) * (self.mass as int),
                    self.mass >= 1,
            ;
        }
        let mut t: u128 = p;
        let mut k: u32 = 0;
        while t >= 10
            invariant
                p as int == (self.mass as int) * (self.mass as int),
                p < 170141183460469231731687303715884105728,
                t >= 1,
                k <= 38,
                ilog10(p as nat) == k + ilog10(t as nat),
                pow10(k as nat) * (t as nat) <= p as nat,
            decreases t,
        {
            proof {
                lemma_fundamental_div_mod(t as int, 10);
                assert(pow10((k + 1) as nat) * ((t / 10) as nat) <= pow10(k as nat) * (
                t as nat)) by (nonlinear_arith)
                    requires
                        pow10((k + 1) as nat) == 10 * pow10(k as nat),
                        10 * ((t / 10) as int) <= t as int,
                        t / 10 >= 0,
                ;
                assert(pow10((k + 1) as nat) * ((t / 10) as nat) >= pow10(
                    (k + 1) as nat,
                )) by (nonlinear_arith)
                    requires
                        t / 10 >= 1,
                ;
                lemma_pow10_le_bound_sq((k + 1) as nat, p as nat);
            }
            t = t / 10;
            k = k + 1;
        }
        proof {
            assert(ilog10(t as nat) == 0);
        }
        (k as i64 - 12) * RADIUS_STEP
    }

    /// Euclidean distance between the positions of `self` and `other`,
    /// exact to one scalar step and zero only at coincident positions.
    pub fn distance_to(&self, other: &Particle) -> (r: i64)
        ensures
            r as int == spec_distance(*self, *other),
    {
        magnitude(fx_sub(other.x, self.x), fx_sub(other.y, self.y))
    }

    /// Magnitude of the velocity difference between `self` and `other`.
    pub fn rel_speed_to(&self, other: &Particle) -> (r: i64)
        ensures
            r as int == spec_rel_speed(*self, *other),
    {
        magnitude(fx_sub(other.vx, self.vx), fx_sub(other.vy, self.vy))
    }

    /// The gravitational force `other` exerts on `self`.
    pub fn force_from(&self, other: &Particle) -> (r: (i64, i64))
        requires
            self.mass >= 1,
            other.mass >= 1,
        ensures
            r.0 as int == spec_force(*self, *other).0,
            r.1 as int == spec_force(*self, *other).1,
    {
        if other.mass < MASS_CUTOFF {
            return (0, 0);
        }
        let d = self.distance_to(other);
        if fx_add(self.radius(), other.radius()) > d {
            return (0, 0);
        }
        let d2 = fx_mul(d, d);
        if d2 == 0 {
            return (0, 0);
        }
        proof {
            crate::fixed::lemma_fx_mul_by_zero(0);
        }
        let dx = fx_sub(other.x, self.x);
        let dy = fx_sub(other.y, self.y);
        let f = fx_div(fx_mul(self.mass, other.mass), d2);
        (fx_div(fx_mul(f, dx), d), fx_div(fx_mul(f, dy), d))
    }

    /// Whether `self` and `other` meet the merge conditions.
    pub fn should_merge(&self, other: &Particle) -> (r: bool)
        requires
            self.mass >= 1,
            other.mass >= 1,
        ensures
            r == spec_merge_cond(*self, *other),
    {
        if !(self.mass > MASS_CUTOFF || other.mass > MASS_CUTOFF) {
            return false;
        }
        let d = self.distance_to(other);
        let overlap = d < fx_add(self.radius(), other.radius());
        overlap && self.rel_speed_to(other) > REL_SPEED_CUTOFF
    }

    /// Merge `other` into `self`, returning the absorbing body and the
    /// tombstoned absorbed body.
    pub fn merge_with(&self, other: &Particle) -> (r: (Particle, Particle))
        requires
            self.mass >= 1,
            other.mass >= 1,
        ensures
            r.0 == spec_merge(*self, *other).0,
            r.1 == spec_merge(*self, *other).1,
            r.0.mass >= 1,
            r.1 == (Particle { to_destroy: true, ..*other }),
    {
        let m = fx_add(self.mass, other.mass);
        let px = fx_add(fx_mul(self.mass, self.vx), fx_mul(other.mass, other.vx));
        let py = fx_add(fx_mul(self.mass, self.vy), fx_mul(other.mass, other.vy));
        let hl = highlight_color();
        let color = if self.color == hl || other.color == hl {
            hl
        } else {
            self.color
        };
        let a = Particle {
            mass: m,
            vx: fx_div(px, m),
            vy: fx_div(py, m),
            x: self.x,
            y: self.y,
            color,
            to_destroy: self.to_destroy,
        };
        let b = Particle { to_destroy: true, ..*other };
        (a, b)
    }

    /// Advance `self` one step under the accumulated force `(fxv, fyv)` over
    /// the effective time delta `dt`.
    pub fn integrate(&self, fxv: i64, fyv: i64, dt: i64) -> (r: Particle)
        requires
            self.mass >= 1,
        ensures
            r == spec_integrate(*self, fxv as int, fyv as int, dt as int),
            r.mass == self.mass,
    {
        let vx = fx_add(self.vx, fx_mul(fx_div(fxv, self.mass), dt));
        let vy = fx_add(self.vy, fx_mul(fx_div(fyv, self.mass), dt));
        let x = fx_add(self.x, fx_mul(vx, dt));
        let y = fx_add(self.y, fx_mul(vy, dt));
        Particle { mass: self.mass, vx, vy, x, y, color: self.color, to_destroy: self.to_destroy }
    }
}

} // verus!
