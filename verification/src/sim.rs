//! The simulation: a population of bodies and the per-tick update.
//!
//! One tick visits every live body `a` in index order; for every other live
//! body `b` it accumulates the force `b` exerts on `a` and, when the pair
//! meets the merge conditions, merges `b` into `a` and tombstones `b`.  When
//! `a` has seen all others it is integrated under the accumulated force; the
//! mass dividing that force is `a`'s mass at integration time, so a body
//! that absorbed others earlier in the same pass is integrated with its
//! combined mass.
//! After all bodies are processed the population is compacted: tombstoned
//! bodies are dropped, survivors keep their relative order.
//!
//! The whole tick is specified by the pure function `spec_tick`, built from
//! `spec_inner` (one body's pass over the others), `spec_outer` (the pass
//! over all bodies) and `spec_compact`; `Simulation::update` returns exactly
//! that value.

use vstd::prelude::*;

verus! {

use crate::fixed::fx_mul;
use crate::fixed::spec_fx_add;
use crate::fixed::spec_fx_mul;
use crate::particle::Color;
use crate::particle::Particle;
use crate::particle::fx_ok;
use crate::particle::spec_force;
use crate::particle::spec_integrate;
use crate::particle::spec_merge;
use crate::particle::spec_merge_cond;

/// Every body in the sequence is well formed.
pub open spec fn wf_seq(s: Seq<Particle>) -> bool {
    forall|k: int| 0 <= k < s.len() ==> fx_ok(#[trigger] s[k])
}

/// One body's pass over all others, starting at slot `j`.  `a` is the
/// current state of the body at slot `i` (its slot holds a stale copy while
/// the pass runs), `fx` and `fy` the force accumulated so far.  Returns the
/// other bodies, the final state of `a`, and the accumulated force.
pub open spec fn spec_inner(
    s: Seq<Particle>,
    i: int,
    j: int,
    a: Particle,
    fx: int,
    fy: int,
    n: int,
) -> (Seq<Particle>, Particle, int, int)
    decreases n - j,
{
    if j >= n {
        (s, a, fx, fy)
    } else if j == i || s[j].to_destroy {
        spec_inner(s, i, j + 1, a, fx, fy, n)
    } else {
        let df = spec_force(a, s[j]);
        let fx2 = spec_fx_add(fx, df.0);
        let fy2 = spec_fx_add(fy, df.1);
        if spec_merge_cond(a, s[j]) {
            let m = spec_merge(a, s[j]);
            spec_inner(s.update(j, m.1), i, j + 1, m.0, fx2, fy2, n)
        } else {
            spec_inner(s, i, j + 1, a, fx2, fy2, n)
        }
    }
}

/// The pass over all bodies, starting at slot `i`; `n` is the population
/// size at the start of the tick and `dt` the effective time delta.
pub open spec fn spec_outer(s: Seq<Particle>, i: int, dt: int, n: int) -> Seq<Particle>
    decreases n - i,
{
    if i >= n {
        s
    } else if s[i].to_destroy {
        spec_outer(s, i + 1, dt, n)
    } else {
        let st = spec_inner(s, i, 0, s[i], 0, 0, n);
        let a2 = spec_integrate(st.1, st.2, st.3, dt);
        spec_outer(st.0.update(i, a2), i + 1, dt, n)
    }
}

/// Drop every tombstoned body, keeping the survivors in order.
pub open spec fn spec_compact(s: Seq<Particle>) -> Seq<Particle>
    decreases s.len(),
{
    if s.len() == 0 {
        Seq::empty()
    } else {
        let rest = spec_compact(s.drop_last());
        if s.last().to_destroy {
            rest
        } else {
            rest.push(s.last())
        }
    }
}

/// One full tick over the population `s` with effective time delta `dt`.
pub open spec fn spec_tick(s: Seq<Particle>, dt: int) -> Seq<Particle> {
    spec_compact(spec_outer(s, 0, dt, s.len() as int))
}

/// The gravity simulation: the exclusively owned population of bodies.
pub struct Simulation {
    particles: Vec<Particle>,
}

impl View for Simulation {
    type V = Seq<Particle>;

    closed spec fn view(&self) -> Seq<Particle> {
        self.particles@
    }
}

impl Simulation {
    /// All bodies are well formed; established at seeding and preserved by
    /// every tick.
    pub open spec fn wf(&self) -> bool {
        wf_seq(self@)
    }

    /// An empty simulation.
    pub fn new() -> (s: Simulation)
        ensures
            s@ == Seq::<Particle>::empty(),
            s.wf(),
    {
        Simulation { particles: Vec::new() }
    }

    /// Seed one body.  The mass must be positive (the radius of a massless
    /// body is undefined) and the scalars representable.
    pub fn add_particle(&mut self, mass: i64, vx: i64, vy: i64, x: i64, y: i64, color: Color)
        requires
            old(self).wf(),
            mass >= 1,
            vx > i64::MIN,
            vy > i64::MIN,
            x > i64::MIN,
            y > i64::MIN,
        ensures
            final(self)@ == old(self)@.push(
                Particle { mass, vx, vy, x, y, color, to_destroy: false },
            ),
            final(self).wf(),
    {
        self.particles.push(Particle { mass, vx, vy, x, y, color, to_destroy: false });
    }

    /// Read-only view of the population, for display.
    pub fn particles(&self) -> (r: &Vec<Particle>)
        ensures
            r@ == self@,
    {
        &self.particles
    }

    /// Number of bodies.
    pub fn len(&self) -> (n: usize)
        ensures
            n == self@.len(),
    {
        self.particles.len()
    }

    /// Advance the simulation one tick by the effective time delta
    /// `dt * time_scale`.
    pub fn update(&mut self, dt: i64, time_scale: i64)
        requires
            old(self).wf(),
        ensures
            final(self)@ == spec_tick(old(self)@, spec_fx_mul(dt as int, time_scale as int)),
            final(self).wf(),
    {
        let dt_eff = fx_mul(dt, time_scale);
        let ghost s0 = self.particles@;
        let n = self.particles.len();
        let mut i: usize = 0;
        while i < n
            invariant
                i <= n,
                n == s0.len(),
                self.particles@.len() == n,
                wf_seq(self.particles@),
                spec_outer(self.particles@, i as int, dt_eff as int, n as int) == spec_outer(
                    s0,
                    0,
                    dt_eff as int,
                    n as int,
                ),
            decreases n - i,
        {
            let a0 = self.particles[i];
            if !a0.to_destroy {
                let ghost s_in = self.particles@;
                let mut a = a0;
                let mut fx: i64 = 0;
                let mut fy: i64 = 0;
                let mut j: usize = 0;
                while j < n
                    invariant
                        j <= n,
                        i < n,
                        n == self.particles@.len(),
                        wf_seq(self.particles@),
                        a.mass >= 1,
                        spec_inner(
                            self.particles@,
                            i as int,
                            j as int,
                            a,
                            fx as int,
                            fy as int,
                            n as int,
                        ) == spec_inner(s_in, i as int, 0, a0, 0, 0, n as int),
                    decreases n - j,
                {
                    if j != i {
                        let b = self.particles[j];
                        if !b.to_destroy {
                            let ghost s_j = self.particles@;
                            let (tfx, tfy) = a.force_from(&b);
                            let fx2 = crate::fixed::fx_add(fx, tfx);
                            let fy2 = crate::fixed::fx_add(fy, tfy);
                            if a.should_merge(&b) {
                                let (a2, b2) = a.merge_with(&b);
                                self.particles[j] = b2;
                                proof {
                                    assert(spec_inner(
                                        s_j,
                                        i as int,
                                        j as int,
                                        a,
                                        fx as int,
                                        fy as int,
                                        n as int,
                                    ) == spec_inner(
                                        s_j.update(j as int, b2),
                                        i as int,
                                        j as int + 1,
                                        a2,
                                        fx2 as int,
                                        fy2 as int,
                                        n as int,
                                    ));
                                }
                                a = a2;
                            }
                            fx = fx2;
                            fy = fy2;
                        }
                    }
                    j = j + 1;
                }
                let a3 = a.integrate(fx, fy, dt_eff);
                let ghost s_mid = self.particles@;
                self.particles[i] = a3;
                proof {
                    assert(spec_inner(s_mid, i as int, n as int, a, fx as int, fy as int, n as int)
                        == (s_mid, a, fx as int, fy as int));
                    assert(spec_outer(s_in, i as int, dt_eff as int, n as int) == spec_outer(
                        s_mid.update(i as int, a3),
                        i as int + 1,
                        dt_eff as int,
                        n as int,
                    ));
                }
            }
            i = i + 1;
        }
        let ghost sp = self.particles@;
        let mut survivors: Vec<Particle> = Vec::new();
        let mut k: usize = 0;
        while k < n
            invariant
                k <= n,
                n == sp.len(),
                self.particles@ == sp,
                wf_seq(sp),
                wf_seq(survivors@),
                survivors@ == spec_compact(sp.subrange(0, k as int)),
            decreases n - k,
        {
            let p = self.particles[k];
            proof {
                let s1 = sp.subrange(0, k as int + 1);
                assert(s1.drop_last() =~= sp.subrange(0, k as int));
                assert(s1.last() == sp[k as int]);
            }
            if !p.to_destroy {
                survivors.push(p);
            }
            k = k + 1;
        }
        proof {
            assert(sp.subrange(0, n as int) =~= sp);
        }
        self.particles = survivors;
    }
}

} // verus!
