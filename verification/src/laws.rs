//! The guarantees the simulation gives, stated over the spec-level model
//! and proved once and for all.

use vstd::prelude::*;
use crate::boid::{
    alignment_force, align_sum, clamp_spec, cohesion_force, coh_sum, dist_sq, in_range,
    separation_force, sep_sum, steering, tick_rel, ticked, vel_mid, Boid,
};
use crate::config::{BoidsConfig, Config};
use crate::fixed::{
    lemma_clamp_norm, lemma_sqrt_floor_exists, lemma_sqrt_floor_is, norm_sq, sqrt_floor, tdiv,
    Vec2, SCALE,
};

verus! {

/// The squared norm of a capped vector is under `(m + 1)^2`: capping to `m`
/// leaves at most one quantization step of slack.
pub proof fn lemma_clamp_spec_norm(x: int, y: int, m: int)
    requires
        m >= 0,
    ensures
        norm_sq(clamp_spec(x, y, m).0, clamp_spec(x, y, m).1) < (m + 1) * (m + 1),
{
    assert(norm_sq(x, y) >= 0) by (nonlinear_arith);
    lemma_sqrt_floor_exists(norm_sq(x, y));
    let d = sqrt_floor(norm_sq(x, y));
    if d > m {
        lemma_clamp_norm(x, y, d, m);
    } else {
        assert(norm_sq(x, y) < (m + 1) * (m + 1)) by (nonlinear_arith)
            requires
                norm_sq(x, y) < (d + 1) * (d + 1),
                0 <= d <= m,
        ;
    }
}

/// The steering force fed into the velocity blend never exceeds `max_force`
/// by more than one quantization step, whatever the snapshot holds.
pub proof fn lemma_steering_within_force_cap(b: Boid, boids: Seq<Boid>, cfg: BoidsConfig)
    requires
        cfg.max_force >= 0,
    ensures
        norm_sq(steering(b, boids, cfg).0, steering(b, boids, cfg).1) < (cfg.max_force + 1) * (
        cfg.max_force + 1),
{
    lemma_clamp_spec_norm(
        tdiv(
            separation_force(b.position, boids, cfg.separation_radius as int).0
                * cfg.separation_strength as int,
            SCALE as int,
        ) + tdiv(
            alignment_force(b, boids, cfg.neighborhood_radius as int).0
                * cfg.alignment_strength as int,
            SCALE as int,
        ) + tdiv(
            cohesion_force(b, boids, cfg.neighborhood_radius as int).0
                * cfg.cohesion_strength as int,
            SCALE as int,
        ),
        tdiv(
            separation_force(b.position, boids, cfg.separation_radius as int).1
                * cfg.separation_strength as int,
            SCALE as int,
        ) + tdiv(
            alignment_force(b, boids, cfg.neighborhood_radius as int).1
                * cfg.alignment_strength as int,
            SCALE as int,
        ) + tdiv(
            cohesion_force(b, boids, cfg.neighborhood_radius as int).1
                * cfg.cohesion_strength as int,
            SCALE as int,
        ),
        cfg.max_force as int,
    );
}

/// The velocity every tick carries into the wall check never exceeds
/// `max_speed` by more than one quantization step, whatever the snapshot
/// holds.
pub proof fn lemma_velocity_within_speed_cap(b: Boid, boids: Seq<Boid>, cfg: BoidsConfig)
    requires
        cfg.max_speed >= 0,
    ensures
        norm_sq(vel_mid(b, boids, cfg).0, vel_mid(b, boids, cfg).1) < (cfg.max_speed + 1) * (
        cfg.max_speed + 1),
{
    let st = steering(b, boids, cfg);
    lemma_clamp_spec_norm(
        b.velocity.x + tdiv(b.acceleration.x + st.0, 5),
        b.velocity.y + tdiv(b.acceleration.y + st.1, 5),
        cfg.max_speed as int,
    );
}

/// After a whole tick — wall reflection and jitter included — an agent's
/// velocity exceeds `max_speed` by at most the two jitters plus one
/// quantization step, whatever the snapshot holds.
pub proof fn lemma_tick_velocity_norm(pre: Boid, post: Boid, boids: Seq<Boid>, cfg: Config)
    requires
        ticked(pre, post, boids, cfg),
        0 <= cfg.boids.max_speed,
    ensures
        norm_sq(post.velocity.x as int, post.velocity.y as int) < (cfg.boids.max_speed + 2 * SCALE
            + 1) * (cfg.boids.max_speed + 2 * SCALE + 1),
{
    let (j1, j2) = choose|j1: int, j2: int| tick_rel(pre, post, boids, cfg, j1, j2);
    let ms = cfg.boids.max_speed as int;
    let vm = vel_mid(pre, boids, cfg.boids);
    lemma_velocity_within_speed_cap(pre, boids, cfg.boids);
    crate::fixed::lemma_comp_le_len(vm.0, vm.1, ms);
    let s = SCALE as int;
    let px = post.velocity.x as int;
    let py = post.velocity.y as int;
    assert(px == vm.0 || px == -vm.0 || px == vm.0 + j2 || px == -vm.0 + j2);
    assert(py == vm.1 || py == -vm.1 || py == vm.1 + j1 || py == -(vm.1 + j1));
    assert(px * px <= vm.0 * vm.0 + 2 * ms * s + s * s) by (nonlinear_arith)
        requires
            -ms <= vm.0 <= ms,
            px == vm.0 || px == -vm.0 || px == vm.0 + j2 || px == -vm.0 + j2,
            -s <= j2 <= s,
            0 <= s,
            0 <= ms,
    ;
    assert(py * py <= vm.1 * vm.1 + 2 * ms * s + s * s) by (nonlinear_arith)
        requires
            -ms <= vm.1 <= ms,
            py == vm.1 || py == -vm.1 || py == vm.1 + j1 || py == -(vm.1 + j1),
            -s <= j1 <= s,
            0 <= s,
            0 <= ms,
    ;
    assert(norm_sq(px, py) < (ms + 2 * s + 1) * (ms + 2 * s + 1)) by (nonlinear_arith)
        requires
            px * px <= vm.0 * vm.0 + 2 * ms * s + s * s,
            py * py <= vm.1 * vm.1 + 2 * ms * s + s * s,
            vm.0 * vm.0 + vm.1 * vm.1 < (ms + 1) * (ms + 1),
            0 <= s,
            0 <= ms,
    ;
}

/// Sensing is exclusive at both ends: a neighbor is in range exactly when
/// the squared distance is strictly positive and strictly under the squared
/// radius. In particular two agents exactly `radius` apart are not in
/// range, and two agents any closer (but apart) are.
pub proof fn lemma_in_range_iff(p: Vec2, q: Vec2, radius: int)
    requires
        radius >= 0,
    ensures
        in_range(p, q, radius) <==> (0 < dist_sq(p, q) && dist_sq(p, q) < radius * radius),
{
    assert(dist_sq(p, q) >= 0) by (nonlinear_arith);
    lemma_sqrt_floor_exists(dist_sq(p, q));
    let n = dist_sq(p, q);
    let d = sqrt_floor(n);
    if in_range(p, q, radius) {
        assert(0 < n && n < radius * radius) by (nonlinear_arith)
            requires
                0 < d < radius,
                d * d <= n,
                n < (d + 1) * (d + 1),
        ;
    }
    if 0 < n && n < radius * radius {
        assert(0 < d && d < radius) by (nonlinear_arith)
            requires
                radius >= 0,
                0 < n < radius * radius,
                0 <= d,
                d * d <= n,
                n < (d + 1) * (d + 1),
        ;
    }
}

/// An agent with no sensed neighbor accumulates nothing for separation.
pub proof fn lemma_sep_sum_isolated(p: Vec2, boids: Seq<Boid>, radius: int)
    requires
        forall|i: int| 0 <= i < boids.len() ==> !in_range(p, (#[trigger] boids[i]).position, radius),
    ensures
        sep_sum(p, boids, radius) == (0int, 0int, 0int),
    decreases boids.len(),
{
    if boids.len() > 0 {
        lemma_sep_sum_isolated(p, boids.drop_last(), radius);
        assert(!in_range(p, boids[boids.len() - 1].position, radius));
    }
}

/// An agent with no sensed neighbor accumulates nothing for alignment.
pub proof fn lemma_align_sum_isolated(p: Vec2, boids: Seq<Boid>, radius: int)
    requires
        forall|i: int| 0 <= i < boids.len() ==> !in_range(p, (#[trigger] boids[i]).position, radius),
    ensures
        align_sum(p, boids, radius) == (0int, 0int, 0int),
    decreases boids.len(),
{
    if boids.len() > 0 {
        lemma_align_sum_isolated(p, boids.drop_last(), radius);
        assert(!in_range(p, boids[boids.len() - 1].position, radius));
    }
}

/// An agent with no sensed neighbor accumulates nothing for cohesion.
pub proof fn lemma_coh_sum_isolated(p: Vec2, boids: Seq<Boid>, radius: int)
    requires
        forall|i: int| 0 <= i < boids.len() ==> !in_range(p, (#[trigger] boids[i]).position, radius),
    ensures
        coh_sum(p, boids, radius) == (0int, 0int, 0int),
    decreases boids.len(),
{
    if boids.len() > 0 {
        lemma_coh_sum_isolated(p, boids.drop_last(), radius);
        assert(!in_range(p, boids[boids.len() - 1].position, radius));
    }
}

/// An agent with no other agent within the separation radius produces a
/// zero separation force.
pub proof fn lemma_isolated_zero_separation(p: Vec2, boids: Seq<Boid>, radius: int)
    requires
        forall|i: int| 0 <= i < boids.len() ==> !in_range(p, (#[trigger] boids[i]).position, radius),
    ensures
        separation_force(p, boids, radius) == (0int, 0int),
{
    lemma_sep_sum_isolated(p, boids, radius);
}

/// An agent with no other agent within the neighborhood radius produces a
/// zero alignment force.
pub proof fn lemma_isolated_zero_alignment(b: Boid, boids: Seq<Boid>, radius: int)
    requires
        forall|i: int|
            0 <= i < boids.len() ==> !in_range(b.position, (#[trigger] boids[i]).position, radius),
    ensures
        alignment_force(b, boids, radius) == (0int, 0int),
{
    lemma_align_sum_isolated(b.position, boids, radius);
}

/// An agent with no other agent within the neighborhood radius produces a
/// zero cohesion force.
pub proof fn lemma_isolated_zero_cohesion(b: Boid, boids: Seq<Boid>, radius: int)
    requires
        forall|i: int|
            0 <= i < boids.len() ==> !in_range(b.position, (#[trigger] boids[i]).position, radius),
    ensures
        cohesion_force(b, boids, radius) == (0int, 0int),
{
    lemma_coh_sum_isolated(b.position, boids, radius);
}

/// A zero steering force leaves the blended velocity exactly the capped own
/// velocity.
proof fn lemma_zero_steering_vel_mid(b: Boid, boids: Seq<Boid>, cfg: BoidsConfig)
    requires
        b.acceleration.x == 0,
        b.acceleration.y == 0,
        steering(b, boids, cfg) == (0int, 0int),
    ensures
        vel_mid(b, boids, cfg) == clamp_spec(
            b.velocity.x as int,
            b.velocity.y as int,
            cfg.max_speed as int,
        ),
{
    assert(tdiv(0, 5) == 0);
}

/// A flock of one agent steers by nothing at all: the agent's distance to
/// itself is zero, which the zero-distance guard excludes, so every force
/// is zero and the tick reduces to free-space integration (with the wall
/// reflection applied afterwards).
pub proof fn lemma_single_agent_free_motion(b: Boid, cfg: BoidsConfig)
    requires
        cfg.wf(),
        b.acceleration.x == 0,
        b.acceleration.y == 0,
    ensures
        separation_force(b.position, seq![b], cfg.separation_radius as int) == (0int, 0int),
        alignment_force(b, seq![b], cfg.neighborhood_radius as int) == (0int, 0int),
        cohesion_force(b, seq![b], cfg.neighborhood_radius as int) == (0int, 0int),
        steering(b, seq![b], cfg) == (0int, 0int),
        vel_mid(b, seq![b], cfg) == clamp_spec(
            b.velocity.x as int,
            b.velocity.y as int,
            cfg.max_speed as int,
        ),
{
    let s = seq![b];
    assert(dist_sq(b.position, b.position) == 0) by (nonlinear_arith);
    lemma_sqrt_floor_is(0, 0);
    assert(forall|i: int|
        0 <= i < s.len() ==> !in_range(b.position, (#[trigger] s[i]).position, cfg.separation_radius as int));
    assert(forall|i: int|
        0 <= i < s.len() ==> !in_range(b.position, (#[trigger] s[i]).position, cfg.neighborhood_radius as int));
    lemma_isolated_zero_separation(b.position, s, cfg.separation_radius as int);
    lemma_isolated_zero_alignment(b, s, cfg.neighborhood_radius as int);
    lemma_isolated_zero_cohesion(b, s, cfg.neighborhood_radius as int);
    lemma_zero_weighted_steering_parts(b, s, cfg);
    lemma_zero_steering_vel_mid(b, s, cfg);
}

/// A weighted sum of zero forces is zero, and capping zero leaves zero.
proof fn lemma_zero_weighted_steering_parts(b: Boid, boids: Seq<Boid>, cfg: BoidsConfig)
    requires
        cfg.max_force >= 0,
        separation_force(b.position, boids, cfg.separation_radius as int) == (0int, 0int),
        alignment_force(b, boids, cfg.neighborhood_radius as int) == (0int, 0int),
        cohesion_force(b, boids, cfg.neighborhood_radius as int) == (0int, 0int),
    ensures
        steering(b, boids, cfg) == (0int, 0int),
{
    assert(0int * cfg.separation_strength as int == 0) by (nonlinear_arith);
    assert(0int * cfg.alignment_strength as int == 0) by (nonlinear_arith);
    assert(0int * cfg.cohesion_strength as int == 0) by (nonlinear_arith);
    assert(tdiv(0, SCALE as int) == 0);
    lemma_clamp_zero(cfg.max_force as int);
}

/// Capping the zero vector returns the zero vector.
proof fn lemma_clamp_zero(m: int)
    requires
        m >= 0,
    ensures
        clamp_spec(0, 0, m) == (0int, 0int),
{
    assert(norm_sq(0, 0) == 0) by (nonlinear_arith);
    lemma_sqrt_floor_is(0, 0);
}

/// With all three strength weights zero, a tick reduces exactly to
/// free-space integration under the speed cap (with the wall reflection
/// applied afterwards): the sensing radii have no effect at all.
pub proof fn lemma_zero_strengths_free_motion(b: Boid, boids: Seq<Boid>, cfg: BoidsConfig)
    requires
        cfg.max_force >= 0,
        cfg.max_speed >= 0,
        cfg.separation_strength == 0,
        cfg.alignment_strength == 0,
        cfg.cohesion_strength == 0,
        b.acceleration.x == 0,
        b.acceleration.y == 0,
    ensures
        steering(b, boids, cfg) == (0int, 0int),
        vel_mid(b, boids, cfg) == clamp_spec(
            b.velocity.x as int,
            b.velocity.y as int,
            cfg.max_speed as int,
        ),
{
    let sep = separation_force(b.position, boids, cfg.separation_radius as int);
    let ali = alignment_force(b, boids, cfg.neighborhood_radius as int);
    let coh = cohesion_force(b, boids, cfg.neighborhood_radius as int);
    assert(sep.0 * 0 == 0 && sep.1 * 0 == 0 && ali.0 * 0 == 0 && ali.1 * 0 == 0 && coh.0 * 0 == 0
        && coh.1 * 0 == 0) by (nonlinear_arith);
    assert(tdiv(0, SCALE as int) == 0);
    lemma_clamp_zero(cfg.max_force as int);
    lemma_zero_steering_vel_mid(b, boids, cfg);
}

} // verus!
