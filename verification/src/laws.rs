//! Global laws of the simulation, stated and proved once over the
//! specification functions that the executable code is verified against.

use vstd::prelude::*;

verus! {

use crate::fixed::FX_MAX;
use crate::fixed::FX_SCALE;
use crate::fixed::abs_int;
use crate::fixed::lemma_fx_div_remainder;
use crate::fixed::lemma_fx_mul_by_zero;
use crate::fixed::spec_fx_mul;
use crate::particle::MASS_CUTOFF;
use crate::particle::Particle;
use crate::particle::fx_ok;
use crate::particle::spec_force;
use crate::particle::spec_integrate;
use crate::particle::spec_merge;
use crate::particle::spec_momentum_x;
use crate::particle::spec_momentum_y;
use crate::sim::spec_compact;
use crate::sim::spec_inner;
use crate::sim::spec_outer;
use crate::sim::spec_tick;
use crate::sim::wf_seq;

/// Symmetry of gravitational attraction below the cutoff: when both bodies
/// are below the significance cutoff, neither exerts any force on the other.
pub proof fn lemma_force_symmetry_below_cutoff(a: Particle, b: Particle)
    requires
        a.mass < MASS_CUTOFF,
        b.mass < MASS_CUTOFF,
    ensures
        spec_force(a, b) == (0int, 0int),
        spec_force(b, a) == (0int, 0int),
{
}

/// Momentum conservation on merge: the merged body carries the combined
/// mass, the absorbed body is tombstoned, and the merged velocity times the
/// combined mass equals the combined momentum up to the fixed-point division
/// remainder, which is below one scalar step of the combined mass.
pub proof fn lemma_merge_conserves_momentum(a: Particle, b: Particle)
    requires
        a.mass >= 1,
        b.mass >= 1,
        a.mass + b.mass <= FX_MAX as int,
        abs_int(spec_momentum_x(a, b)) * (FX_SCALE as int) <= FX_MAX as int,
        abs_int(spec_momentum_y(a, b)) * (FX_SCALE as int) <= FX_MAX as int,
    ensures
        spec_merge(a, b).0.mass == a.mass + b.mass,
        spec_merge(a, b).1.to_destroy,
        abs_int(
            spec_merge(a, b).0.vx * (a.mass + b.mass) - spec_momentum_x(a, b) * (FX_SCALE as int),
        ) < a.mass + b.mass,
        abs_int(
            spec_merge(a, b).0.vy * (a.mass + b.mass) - spec_momentum_y(a, b) * (FX_SCALE as int),
        ) < a.mass + b.mass,
{
    let m = a.mass + b.mass;
    lemma_fx_div_remainder(spec_momentum_x(a, b), m);
    lemma_fx_div_remainder(spec_momentum_y(a, b), m);
}

/// A zero effective time delta moves nothing: integration under `dt == 0`
/// returns the body unchanged, whatever force was accumulated.
pub proof fn lemma_integrate_zero_dt(p: Particle, fxv: int, fyv: int)
    requires
        fx_ok(p),
    ensures
        spec_integrate(p, fxv, fyv, 0) == p,
{
    lemma_fx_mul_by_zero(crate::fixed::spec_fx_div(fxv, p.mass as int));
    lemma_fx_mul_by_zero(crate::fixed::spec_fx_div(fyv, p.mass as int));
    lemma_fx_mul_by_zero(p.vx as int);
    lemma_fx_mul_by_zero(p.vy as int);
}

proof fn lemma_compact_filter_aux(s: Seq<Particle>, pred: spec_fn(Particle) -> bool)
    requires
        forall|p: Particle| #[trigger] pred(p) == !p.to_destroy,
    ensures
        spec_compact(s) == s.filter(pred),
    decreases s.len(),
{
    reveal(Seq::filter);
    if s.len() > 0 {
        lemma_compact_filter_aux(s.drop_last(), pred);
    }
}

/// Compaction correctness: compaction is exactly the filter that keeps the
/// bodies not marked removed, in their order and with their final state.
pub proof fn lemma_compaction_is_filter(s: Seq<Particle>)
    ensures
        spec_compact(s) == s.filter(|p: Particle| !p.to_destroy),
{
    lemma_compact_filter_aux(s, |p: Particle| !p.to_destroy);
}

/// No self-interaction: a population of one body accumulates no force and
/// never merges; the tick only integrates the body.
pub proof fn lemma_no_self_interaction(p: Particle, dt: int)
    requires
        !p.to_destroy,
    ensures
        spec_tick(seq![p], dt) == seq![spec_integrate(p, 0, 0, dt)],
{
    let s = seq![p];
    let a2 = spec_integrate(p, 0, 0, dt);
    assert(spec_inner(s, 0, 1, p, 0, 0, 1) == (s, p, 0int, 0int));
    assert(spec_inner(s, 0, 0, p, 0, 0, 1) == (s, p, 0int, 0int));
    let s2 = s.update(0, a2);
    assert(spec_outer(s2, 1, dt, 1) == s2);
    assert(spec_outer(s, 0, dt, 1) == s2);
    assert(s2.drop_last() =~= Seq::<Particle>::empty());
    assert(spec_compact(s2.drop_last()) == Seq::<Particle>::empty());
    assert(!a2.to_destroy);
    assert(s2.last() == a2);
    assert(spec_compact(s2) =~= seq![a2]);
    assert(spec_tick(s, dt) == spec_compact(s2));
}

/// Merge bookkeeping does not depend on the time delta: for a population of
/// two live bodies that meet the merge conditions, any tick — a zero-delta
/// one included — tombstones and drops the second body, and the survivor is
/// the merged body (combined mass, momentum-conserving velocity) integrated
/// under the force the pair exchanged; its position is untouched when the
/// delta is zero.
pub proof fn lemma_two_body_merge(a: Particle, b: Particle, dt: int)
    requires
        fx_ok(a),
        fx_ok(b),
        !a.to_destroy,
        !b.to_destroy,
        crate::particle::spec_merge_cond(a, b),
    ensures
        spec_tick(seq![a, b], dt).len() == 1,
        spec_tick(seq![a, b], dt)[0] == spec_integrate(
            spec_merge(a, b).0,
            spec_force(a, b).0,
            spec_force(a, b).1,
            dt,
        ),
        dt == 0 ==> spec_tick(seq![a, b], dt)[0].x == a.x && spec_tick(seq![a, b], dt)[0].y
            == a.y,
{
    let s = seq![a, b];
    let df = spec_force(a, b);
    let m = spec_merge(a, b);
    assert(crate::fixed::spec_fx_add(0, df.0) == df.0 && crate::fixed::spec_fx_add(0, df.1)
        == df.1);
    let s1 = s.update(1, m.1);
    assert(spec_inner(s1, 0, 2, m.0, df.0, df.1, 2) == (s1, m.0, df.0, df.1));
    assert(spec_inner(s, 0, 1, a, 0, 0, 2) == (s1, m.0, df.0, df.1));
    assert(spec_inner(s, 0, 0, a, 0, 0, 2) == (s1, m.0, df.0, df.1));
    let a2 = spec_integrate(m.0, df.0, df.1, dt);
    let s2 = s1.update(0, a2);
    assert(s2[1] == m.1 && m.1.to_destroy);
    assert(spec_outer(s2, 2, dt, 2) == s2);
    assert(spec_outer(s2, 1, dt, 2) == s2);
    assert(spec_outer(s, 0, dt, 2) == s2);
    assert(s2.len() == 2 && s2.last() == m.1);
    let s3 = s2.drop_last();
    assert(s3 =~= seq![a2]);
    assert(s3.drop_last() =~= Seq::<Particle>::empty());
    assert(spec_compact(s3.drop_last()) == Seq::<Particle>::empty());
    assert(!a2.to_destroy);
    assert(spec_compact(s3) =~= seq![a2]);
    assert(spec_compact(s2) == spec_compact(s3));
    assert(spec_tick(s, dt) == spec_compact(s2));
    if dt == 0 {
        assert(fx_ok(m.0));
        lemma_integrate_zero_dt(m.0, df.0, df.1);
        assert(m.0.x == a.x && m.0.y == a.y);
    }
}

/// Contribution of one body to the total mass: tombstoned bodies have
/// already passed their mass to their absorber and count zero.
pub open spec fn mass_contrib(p: Particle) -> int {
    if p.to_destroy {
        0
    } else {
        p.mass as int
    }
}

/// Total mass of the live bodies of a population.
pub open spec fn sum_active_mass(s: Seq<Particle>) -> int
    decreases s.len(),
{
    if s.len() == 0 {
        0
    } else {
        sum_active_mass(s.drop_last()) + mass_contrib(s.last())
    }
}

proof fn lemma_sum_update(s: Seq<Particle>, k: int, p: Particle)
    requires
        0 <= k < s.len(),
    ensures
        sum_active_mass(s.update(k, p)) == sum_active_mass(s) - mass_contrib(s[k])
            + mass_contrib(p),
    decreases s.len(),
{
    if k == s.len() - 1 {
        assert(s.update(k, p).drop_last() =~= s.drop_last());
    } else {
        assert(s.update(k, p).drop_last() =~= s.drop_last().update(k, p));
        lemma_sum_update(s.drop_last(), k, p);
    }
}

proof fn lemma_sum_nonneg(s: Seq<Particle>)
    requires
        wf_seq(s),
    ensures
        sum_active_mass(s) >= 0,
    decreases s.len(),
{
    if s.len() > 0 {
        assert(wf_seq(s.drop_last())) by {
            assert(forall|k: int|
                0 <= k < s.drop_last().len() ==> s.drop_last()[k] == s[k]);
        }
        lemma_sum_nonneg(s.drop_last());
    }
}

proof fn lemma_sum_at_least(s: Seq<Particle>, k: int)
    requires
        wf_seq(s),
        0 <= k < s.len(),
    ensures
        sum_active_mass(s) >= mass_contrib(s[k]),
    decreases s.len(),
{
    assert(wf_seq(s.drop_last())) by {
        assert(forall|q: int| 0 <= q < s.drop_last().len() ==> s.drop_last()[q] == s[q]);
    }
    if k == s.len() - 1 {
        lemma_sum_nonneg(s.drop_last());
    } else {
        lemma_sum_at_least(s.drop_last(), k);
    }
}

proof fn lemma_sum_two(s: Seq<Particle>, i: int, j: int)
    requires
        wf_seq(s),
        0 <= i < s.len(),
        0 <= j < s.len(),
        i != j,
    ensures
        sum_active_mass(s) >= mass_contrib(s[i]) + mass_contrib(s[j]),
{
    let dead = Particle { to_destroy: true, ..s[i] };
    let s1 = s.update(i, dead);
    lemma_sum_update(s, i, dead);
    assert(wf_seq(s1));
    lemma_sum_at_least(s1, j);
}

proof fn lemma_inner_props(s: Seq<Particle>, i: int, j: int, a: Particle, fx: int, fy: int, n: int)
    requires
        n == s.len(),
        0 <= i < n,
        0 <= j,
        wf_seq(s),
        fx_ok(a),
        !a.to_destroy,
    ensures
        spec_inner(s, i, j, a, fx, fy, n).0.len() == n,
        wf_seq(spec_inner(s, i, j, a, fx, fy, n).0),
        fx_ok(spec_inner(s, i, j, a, fx, fy, n).1),
        !spec_inner(s, i, j, a, fx, fy, n).1.to_destroy,
        spec_inner(s, i, j, a, fx, fy, n).1.x == a.x,
        spec_inner(s, i, j, a, fx, fy, n).1.y == a.y,
        spec_inner(s, i, j, a, fx, fy, n).0[i] == s[i],
        forall|k: int|
            0 <= k < n ==> (#[trigger] spec_inner(s, i, j, a, fx, fy, n).0[k]).x == s[k].x
                && spec_inner(s, i, j, a, fx, fy, n).0[k].y == s[k].y,
    decreases n - j,
{
    if j >= n {
    } else if j == i || s[j].to_destroy {
        lemma_inner_props(s, i, j + 1, a, fx, fy, n);
    } else {
        let df = spec_force(a, s[j]);
        let fx2 = crate::fixed::spec_fx_add(fx, df.0);
        let fy2 = crate::fixed::spec_fx_add(fy, df.1);
        if crate::particle::spec_merge_cond(a, s[j]) {
            let m = spec_merge(a, s[j]);
            assert(fx_ok(m.0));
            assert(fx_ok(m.1));
            assert(wf_seq(s.update(j, m.1)));
            lemma_inner_props(s.update(j, m.1), i, j + 1, m.0, fx2, fy2, n);
        } else {
            lemma_inner_props(s, i, j + 1, a, fx2, fy2, n);
        }
    }
}

proof fn lemma_inner_mass(s: Seq<Particle>, i: int, j: int, a: Particle, fx: int, fy: int, n: int)
    requires
        n == s.len(),
        0 <= i < n,
        0 <= j,
        wf_seq(s),
        fx_ok(a),
        !a.to_destroy,
        sum_active_mass(s.update(i, a)) <= FX_MAX as int,
    ensures
        sum_active_mass(
            spec_inner(s, i, j, a, fx, fy, n).0.update(i, spec_inner(s, i, j, a, fx, fy, n).1),
        ) == sum_active_mass(s.update(i, a)),
    decreases n - j,
{
    if j >= n {
    } else if j == i || s[j].to_destroy {
        lemma_inner_mass(s, i, j + 1, a, fx, fy, n);
    } else {
        let df = spec_force(a, s[j]);
        let fx2 = crate::fixed::spec_fx_add(fx, df.0);
        let fy2 = crate::fixed::spec_fx_add(fy, df.1);
        if crate::particle::spec_merge_cond(a, s[j]) {
            let m = spec_merge(a, s[j]);
            let u = s.update(i, a);
            assert(wf_seq(u));
            lemma_sum_two(u, i, j);
            assert(u[j] == s[j]);
            assert(mass_contrib(u[i]) + mass_contrib(u[j]) == a.mass + s[j].mass);
            assert(m.0.mass == a.mass + s[j].mass);
            let s1 = s.update(j, m.1);
            assert(wf_seq(s1));
            assert(fx_ok(m.0));
            // the measure of the recursive state equals the measure of this one
            lemma_sum_update(s, i, a);
            lemma_sum_update(s, j, m.1);
            assert(s1.update(i, m.0) =~= u.update(j, m.1).update(i, m.0));
            lemma_sum_update(u, j, m.1);
            lemma_sum_update(u.update(j, m.1), i, m.0);
            assert(u.update(j, m.1)[i] == a);
            assert(sum_active_mass(s1.update(i, m.0)) == sum_active_mass(u));
            lemma_inner_mass(s1, i, j + 1, m.0, fx2, fy2, n);
        } else {
            lemma_inner_mass(s, i, j + 1, a, fx2, fy2, n);
        }
    }
}

proof fn lemma_outer_mass(s: Seq<Particle>, i: int, dt: int, n: int)
    requires
        n == s.len(),
        0 <= i,
        wf_seq(s),
        sum_active_mass(s) <= FX_MAX as int,
    ensures
        spec_outer(s, i, dt, n).len() == n,
        wf_seq(spec_outer(s, i, dt, n)),
        sum_active_mass(spec_outer(s, i, dt, n)) == sum_active_mass(s),
    decreases n - i,
{
    if i >= n {
    } else if s[i].to_destroy {
        lemma_outer_mass(s, i + 1, dt, n);
    } else {
        let st = spec_inner(s, i, 0, s[i], 0, 0, n);
        lemma_inner_props(s, i, 0, s[i], 0, 0, n);
        assert(s.update(i, s[i]) =~= s);
        lemma_inner_mass(s, i, 0, s[i], 0, 0, n);
        let a2 = spec_integrate(st.1, st.2, st.3, dt);
        assert(a2.mass == st.1.mass && a2.to_destroy == st.1.to_destroy);
        assert(fx_ok(a2));
        let s2 = st.0.update(i, a2);
        lemma_sum_update(st.0, i, st.1);
        lemma_sum_update(st.0, i, a2);
        assert(mass_contrib(a2) == mass_contrib(st.1));
        assert(sum_active_mass(s2) == sum_active_mass(s));
        assert(wf_seq(s2));
        lemma_outer_mass(s2, i + 1, dt, n);
    }
}

proof fn lemma_compact_mass(s: Seq<Particle>)
    ensures
        sum_active_mass(spec_compact(s)) == sum_active_mass(s),
        forall|k: int| 0 <= k < spec_compact(s).len() ==> !(#[trigger] spec_compact(s)[k]).to_destroy,
    decreases s.len(),
{
    if s.len() > 0 {
        lemma_compact_mass(s.drop_last());
        let rest = spec_compact(s.drop_last());
        if !s.last().to_destroy {
            assert(rest.push(s.last()).drop_last() =~= rest);
        }
    }
}

/// Mass conservation: one tick neither creates nor destroys mass.  The live
/// mass of the population after a tick equals the live mass before it, for
/// any time delta, as long as the total does not saturate the scalar range.
pub proof fn lemma_mass_conservation(s: Seq<Particle>, dt: int)
    requires
        wf_seq(s),
        sum_active_mass(s) <= FX_MAX as int,
    ensures
        sum_active_mass(spec_tick(s, dt)) == sum_active_mass(s),
        forall|k: int| 0 <= k < spec_tick(s, dt).len() ==> !(#[trigger] spec_tick(s, dt)[k]).to_destroy,
{
    lemma_outer_mass(s, 0, dt, s.len() as int);
    lemma_compact_mass(spec_outer(s, 0, dt, s.len() as int));
}

/// With zero net force, integration leaves the velocity as it is and only
/// moves the position by the velocity over the time delta.
pub proof fn lemma_integrate_zero_force(p: Particle, dt: int)
    requires
        fx_ok(p),
    ensures
        spec_integrate(p, 0, 0, dt).vx == p.vx,
        spec_integrate(p, 0, 0, dt).vy == p.vy,
        spec_integrate(p, 0, 0, dt).mass == p.mass,
        spec_integrate(p, 0, 0, dt).color == p.color,
        spec_integrate(p, 0, 0, dt).to_destroy == p.to_destroy,
        spec_integrate(p, 0, 0, dt).x as int == crate::fixed::spec_fx_add(
            p.x as int,
            spec_fx_mul(p.vx as int, dt),
        ),
        spec_integrate(p, 0, 0, dt).y as int == crate::fixed::spec_fx_add(
            p.y as int,
            spec_fx_mul(p.vy as int, dt),
        ),
{
    crate::fixed::lemma_fx_div_zero_dividend(p.mass as int);
    lemma_fx_mul_by_zero(dt);
}

/// Every body of the population is below the significance cutoff.
pub open spec fn all_below_cutoff(s: Seq<Particle>) -> bool {
    forall|k: int| 0 <= k < s.len() ==> (#[trigger] s[k]).mass < MASS_CUTOFF
}

proof fn lemma_inner_below_cutoff(
    s: Seq<Particle>,
    i: int,
    j: int,
    a: Particle,
    fx: int,
    fy: int,
    n: int,
)
    requires
        n == s.len(),
        0 <= j,
        all_below_cutoff(s),
        a.mass < MASS_CUTOFF,
        crate::fixed::clamp_fx(fx) == fx,
        crate::fixed::clamp_fx(fy) == fy,
    ensures
        spec_inner(s, i, j, a, fx, fy, n) == (s, a, fx, fy),
    decreases n - j,
{
    if j < n && j != i && !s[j].to_destroy {
        assert(spec_force(a, s[j]) == (0int, 0int));
        assert(!crate::particle::spec_merge_cond(a, s[j]));
        lemma_inner_below_cutoff(s, i, j + 1, a, fx, fy, n);
    } else if j < n {
        lemma_inner_below_cutoff(s, i, j + 1, a, fx, fy, n);
    }
}

proof fn lemma_outer_below_cutoff(s: Seq<Particle>, i: int, dt: int, n: int)
    requires
        n == s.len(),
        0 <= i,
        wf_seq(s),
        all_below_cutoff(s),
    ensures
        spec_outer(s, i, dt, n).len() == n,
        forall|k: int|
            0 <= k < i || (0 <= k < n && s[k].to_destroy) ==> #[trigger] spec_outer(
                s,
                i,
                dt,
                n,
            )[k] == s[k],
        forall|k: int|
            i <= k < n && !s[k].to_destroy ==> #[trigger] spec_outer(s, i, dt, n)[k]
                == spec_integrate(s[k], 0, 0, dt),
    decreases n - i,
{
    if i >= n {
    } else if s[i].to_destroy {
        lemma_outer_below_cutoff(s, i + 1, dt, n);
    } else {
        lemma_inner_below_cutoff(s, i, 0, s[i], 0, 0, n);
        let a2 = spec_integrate(s[i], 0, 0, dt);
        lemma_integrate_zero_force(s[i], dt);
        let s2 = s.update(i, a2);
        assert(wf_seq(s2));
        assert(all_below_cutoff(s2));
        lemma_outer_below_cutoff(s2, i + 1, dt, n);
    }
}

proof fn lemma_compact_identity(s: Seq<Particle>)
    requires
        forall|k: int| 0 <= k < s.len() ==> !(#[trigger] s[k]).to_destroy,
    ensures
        spec_compact(s) == s,
    decreases s.len(),
{
    if s.len() > 0 {
        assert(forall|k: int|
            0 <= k < s.drop_last().len() ==> s.drop_last()[k] == s[k]);
        lemma_compact_identity(s.drop_last());
        assert(spec_compact(s.drop_last()).push(s.last()) =~= s);
    }
}

/// A population entirely below the significance cutoff exerts no force and
/// never merges: one tick integrates every body under zero force, so
/// velocities never change, and a body at rest never moves.
pub proof fn lemma_below_cutoff_population_coasts(s: Seq<Particle>, dt: int)
    requires
        wf_seq(s),
        all_below_cutoff(s),
        forall|k: int| 0 <= k < s.len() ==> !(#[trigger] s[k]).to_destroy,
    ensures
        spec_tick(s, dt).len() == s.len(),
        forall|k: int|
            0 <= k < s.len() ==> #[trigger] spec_tick(s, dt)[k] == spec_integrate(s[k], 0, 0, dt),
        forall|k: int|
            0 <= k < s.len() ==> (#[trigger] spec_tick(s, dt)[k]).vx == s[k].vx && spec_tick(
                s,
                dt,
            )[k].vy == s[k].vy,
        forall|k: int|
            0 <= k < s.len() && s[k].vx == 0 && s[k].vy == 0 ==> (#[trigger] spec_tick(
                s,
                dt,
            )[k]).x == s[k].x && spec_tick(s, dt)[k].y == s[k].y,
{
    let n = s.len() as int;
    lemma_outer_below_cutoff(s, 0, dt, n);
    let r = spec_outer(s, 0, dt, n);
    assert(forall|k: int| 0 <= k < n ==> !(#[trigger] r[k]).to_destroy) by {
        assert(forall|k: int|
            0 <= k < n ==> #[trigger] r[k] == spec_integrate(s[k], 0, 0, dt));
    }
    lemma_compact_identity(r);
    assert(forall|k: int| 0 <= k < n ==> fx_ok(#[trigger] s[k]));
    assert forall|k: int| 0 <= k < n implies (#[trigger] spec_tick(s, dt)[k]).vx == s[k].vx
        && spec_tick(s, dt)[k].vy == s[k].vy by {
        lemma_integrate_zero_force(s[k], dt);
    }
    assert forall|k: int|
        0 <= k < n && s[k].vx == 0 && s[k].vy == 0 implies (#[trigger] spec_tick(s, dt)[k]).x
        == s[k].x && spec_tick(s, dt)[k].y == s[k].y by {
        lemma_integrate_zero_force(s[k], dt);
        lemma_fx_mul_by_zero(dt);
    }
}

/// No self-interaction, structurally: a body's pass over the others never
/// touches the body's own slot, so it is never paired with itself.
pub proof fn lemma_pass_skips_own_slot(s: Seq<Particle>, i: int)
    requires
        0 <= i < s.len(),
        wf_seq(s),
        !s[i].to_destroy,
    ensures
        spec_inner(s, i, 0, s[i], 0, 0, s.len() as int).0[i] == s[i],
{
    lemma_inner_props(s, i, 0, s[i], 0, 0, s.len() as int);
}

proof fn lemma_inner_no_merge(
    s: Seq<Particle>,
    i: int,
    j: int,
    a: Particle,
    fx: int,
    fy: int,
    n: int,
)
    requires
        n == s.len(),
        0 <= j,
        forall|k: int|
            0 <= k < n && k != i && !s[k].to_destroy ==> !crate::particle::spec_merge_cond(
                a,
                #[trigger] s[k],
            ),
    ensures
        spec_inner(s, i, j, a, fx, fy, n).0 == s,
        spec_inner(s, i, j, a, fx, fy, n).1 == a,
    decreases n - j,
{
    if j < n {
        lemma_inner_no_merge(s, i, j + 1, a, fx, fy, n);
        if j != i && !s[j].to_destroy {
            let df = spec_force(a, s[j]);
            lemma_inner_no_merge(
                s,
                i,
                j + 1,
                a,
                crate::fixed::spec_fx_add(fx, df.0),
                crate::fixed::spec_fx_add(fy, df.1),
                n,
            );
        }
    }
}

proof fn lemma_outer_no_merge_zero_dt(s: Seq<Particle>, i: int, n: int)
    requires
        n == s.len(),
        0 <= i,
        wf_seq(s),
        forall|k: int| 0 <= k < n ==> !(#[trigger] s[k]).to_destroy,
        forall|p: int, q: int|
            0 <= p < n && 0 <= q < n && p != q ==> !crate::particle::spec_merge_cond(
                #[trigger] s[p],
                #[trigger] s[q],
            ),
    ensures
        spec_outer(s, i, 0, n) == s,
    decreases n - i,
{
    if i < n {
        lemma_inner_no_merge(s, i, 0, s[i], 0, 0, n);
        let st = spec_inner(s, i, 0, s[i], 0, 0, n);
        lemma_integrate_zero_dt(st.1, st.2, st.3);
        assert(s.update(i, s[i]) =~= s);
        lemma_outer_no_merge_zero_dt(s, i + 1, n);
    }
}

/// Idempotent stepping with zero time delta, in full: when no body enters
/// the tick tombstoned and no pair meets the merge conditions, a tick with
/// effective `dt` zero changes nothing at all.  Forces are still computed;
/// they move nothing.
pub proof fn lemma_zero_dt_no_merge_is_identity(s: Seq<Particle>)
    requires
        wf_seq(s),
        forall|k: int| 0 <= k < s.len() ==> !(#[trigger] s[k]).to_destroy,
        forall|p: int, q: int|
            0 <= p < s.len() && 0 <= q < s.len() && p != q ==> !crate::particle::spec_merge_cond(
                #[trigger] s[p],
                #[trigger] s[q],
            ),
    ensures
        spec_tick(s, 0) == s,
{
    lemma_outer_no_merge_zero_dt(s, 0, s.len() as int);
    lemma_compact_identity(s);
}

proof fn lemma_outer_positions(s: Seq<Particle>, i: int, n: int)
    requires
        n == s.len(),
        0 <= i,
        wf_seq(s),
    ensures
        spec_outer(s, i, 0, n).len() == n,
        forall|k: int|
            0 <= k < n ==> (#[trigger] spec_outer(s, i, 0, n)[k]).x == s[k].x && spec_outer(
                s,
                i,
                0,
                n,
            )[k].y == s[k].y,
    decreases n - i,
{
    if i >= n {
    } else if s[i].to_destroy {
        lemma_outer_positions(s, i + 1, n);
    } else {
        let st = spec_inner(s, i, 0, s[i], 0, 0, n);
        lemma_inner_props(s, i, 0, s[i], 0, 0, n);
        lemma_integrate_zero_dt(st.1, st.2, st.3);
        let s2 = st.0.update(i, st.1);
        assert(wf_seq(s2));
        lemma_outer_positions(s2, i + 1, n);
    }
}

/// Idempotent stepping with zero time delta: a tick whose effective `dt` is
/// zero leaves every position where it was; the pass may still tombstone
/// bodies and adjust velocities through merge bookkeeping, and the tick ends
/// with the usual compaction of that pass.
pub proof fn lemma_zero_dt_keeps_positions(s: Seq<Particle>)
    requires
        wf_seq(s),
    ensures
        spec_outer(s, 0, 0, s.len() as int).len() == s.len(),
        forall|k: int|
            0 <= k < s.len() ==> (#[trigger] spec_outer(s, 0, 0, s.len() as int)[k]).x == s[k].x
                && spec_outer(s, 0, 0, s.len() as int)[k].y == s[k].y,
        spec_tick(s, 0) == spec_compact(spec_outer(s, 0, 0, s.len() as int)),
{
    lemma_outer_positions(s, 0, s.len() as int);
}

} // verus!
