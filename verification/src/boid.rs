//! One flocking agent and its per-tick update.
//!
//! Each tick an agent steers against a snapshot of the whole flock:
//! separation pushes it away from close neighbors, alignment matches the
//! neighbors' average velocity, cohesion pulls it toward their average
//! position. The weighted sum is capped at `max_force`, blended into the
//! velocity at a 0.2 damping factor, the velocity is capped at `max_speed`,
//! and the position advances by the (possibly wall-reflected) velocity.

use vstd::prelude::*;
use crate::config::{BoidsConfig, Config, CAP_LIMIT};
use crate::fixed::{
    lemma_comp_le_len, lemma_scale_div_le, lemma_tdiv_le_of_bound,
    lemma_tdiv_mag, norm_sq, quot128, quot64, sqrt_floor, tdiv, vec_len, Vec2, SCALE,
};

verus! {

/// Magnitude cap on an agent's position coordinates. Positions start inside
/// the window and move by at most a capped velocity per tick, so they stay
/// far below this; the cap only keeps the pairwise arithmetic in range.
pub const POS_LIMIT: i64 = 100_000_000_000;

/// Magnitude cap on an agent's velocity coordinates. A tick leaves each
/// coordinate within `max_speed + SCALE`, far below this.
pub const VEL_LIMIT: i64 = 2_000_000;

/// Magnitude cap on an agent's radius.
pub const BODY_LIMIT: i64 = 500_000_000;

/// Largest flock size the arithmetic accepts.
pub const FLOCK_LIMIT: usize = 1_000_000_000;

/// A single boid: position, velocity and per-tick scratch acceleration in
/// fixed-point coordinates, and its drawing half-size.
#[derive(Clone, Copy, PartialEq, Eq, Structural, Debug)]
pub struct Boid {
    pub position: Vec2,
    pub velocity: Vec2,
    pub acceleration: Vec2,
    pub radius: i64,
}

/// Squared distance between two points.
pub open spec fn dist_sq(p: Vec2, q: Vec2) -> int {
    norm_sq(p.x - q.x, p.y - q.y)
}

/// A neighbor is sensed when its distance is strictly positive (the agent
/// itself, at distance zero, never is) and strictly under the sensing
/// radius.
pub open spec fn in_range(p: Vec2, q: Vec2, radius: int) -> bool {
    let d = sqrt_floor(dist_sq(p, q));
    0 < d && d < radius
}

/// The unit vector along `(x, y)`, in fixed-point steps.
pub open spec fn normalize_spec(x: int, y: int) -> (int, int)
    recommends
        norm_sq(x, y) > 0,
{
    let d = sqrt_floor(norm_sq(x, y));
    (tdiv(x * SCALE as int, d), tdiv(y * SCALE as int, d))
}

/// `(x, y)` scaled down to norm `m` when it is longer than `m`, else kept.
pub open spec fn clamp_spec(x: int, y: int, m: int) -> (int, int) {
    let d = sqrt_floor(norm_sq(x, y));
    if d > m {
        (tdiv(x * m, d), tdiv(y * m, d))
    } else {
        (x, y)
    }
}

/// Separation accumulator over a snapshot: the sum of inverse-distance
/// weighted repulsions from every sensed neighbor, and the neighbor count.
pub open spec fn sep_sum(p: Vec2, boids: Seq<Boid>, radius: int) -> (int, int, int)
    decreases boids.len(),
{
    if boids.len() == 0 {
        (0, 0, 0)
    } else {
        let prev = sep_sum(p, boids.drop_last(), radius);
        let q = boids.last().position;
        if in_range(p, q, radius) {
            let d = sqrt_floor(dist_sq(p, q));
            let ux = tdiv((p.x - q.x) * SCALE as int, d);
            let uy = tdiv((p.y - q.y) * SCALE as int, d);
            (prev.0 + tdiv(ux * SCALE as int, d), prev.1 + tdiv(uy * SCALE as int, d), prev.2 + 1)
        } else {
            prev
        }
    }
}

/// The separation force: the accumulated repulsion averaged over the
/// neighbor count, normalized to unit length when nonzero.
pub open spec fn separation_force(p: Vec2, boids: Seq<Boid>, radius: int) -> (int, int) {
    let s = sep_sum(p, boids, radius);
    if s.2 > 0 {
        let ax = tdiv(s.0, s.2);
        let ay = tdiv(s.1, s.2);
        if norm_sq(ax, ay) > 0 {
            normalize_spec(ax, ay)
        } else {
            (ax, ay)
        }
    } else {
        (s.0, s.1)
    }
}

/// Alignment accumulator: the summed velocities of sensed neighbors, and
/// their count.
pub open spec fn align_sum(p: Vec2, boids: Seq<Boid>, radius: int) -> (int, int, int)
    decreases boids.len(),
{
    if boids.len() == 0 {
        (0, 0, 0)
    } else {
        let prev = align_sum(p, boids.drop_last(), radius);
        let q = boids.last();
        if in_range(p, q.position, radius) {
            (prev.0 + q.velocity.x, prev.1 + q.velocity.y, prev.2 + 1)
        } else {
            prev
        }
    }
}

/// The alignment force: the neighbors' average velocity minus the agent's
/// own, normalized to unit length when nonzero.
pub open spec fn alignment_force(b: Boid, boids: Seq<Boid>, radius: int) -> (int, int) {
    let s = align_sum(b.position, boids, radius);
    if s.2 > 0 {
        let ax = tdiv(s.0, s.2) - b.velocity.x;
        let ay = tdiv(s.1, s.2) - b.velocity.y;
        if norm_sq(ax, ay) > 0 {
            normalize_spec(ax, ay)
        } else {
            (0, 0)
        }
    } else {
        (0, 0)
    }
}

/// Cohesion accumulator: the summed positions of sensed neighbors, and
/// their count.
pub open spec fn coh_sum(p: Vec2, boids: Seq<Boid>, radius: int) -> (int, int, int)
    decreases boids.len(),
{
    if boids.len() == 0 {
        (0, 0, 0)
    } else {
        let prev = coh_sum(p, boids.drop_last(), radius);
        let q = boids.last().position;
        if in_range(p, q, radius) {
            (prev.0 + q.x, prev.1 + q.y, prev.2 + 1)
        } else {
            prev
        }
    }
}

/// The cohesion force: the neighbors' average position minus the agent's
/// own, normalized to unit length when nonzero.
pub open spec fn cohesion_force(b: Boid, boids: Seq<Boid>, radius: int) -> (int, int) {
    let s = coh_sum(b.position, boids, radius);
    if s.2 > 0 {
        let ax = tdiv(s.0, s.2) - b.position.x;
        let ay = tdiv(s.1, s.2) - b.position.y;
        if norm_sq(ax, ay) > 0 {
            normalize_spec(ax, ay)
        } else {
            (0, 0)
        }
    } else {
        (0, 0)
    }
}

/// The steering force one tick feeds into the velocity blend: the
/// strength-weighted sum of the three behavior forces, capped at
/// `max_force`.
pub open spec fn steering(b: Boid, boids: Seq<Boid>, cfg: BoidsConfig) -> (int, int) {
    let sep = separation_force(b.position, boids, cfg.separation_radius as int);
    let ali = alignment_force(b, boids, cfg.neighborhood_radius as int);
    let coh = cohesion_force(b, boids, cfg.neighborhood_radius as int);
    let sx = tdiv(sep.0 * cfg.separation_strength as int, SCALE as int) + tdiv(
        ali.0 * cfg.alignment_strength as int,
        SCALE as int,
    ) + tdiv(coh.0 * cfg.cohesion_strength as int, SCALE as int);
    let sy = tdiv(sep.1 * cfg.separation_strength as int, SCALE as int) + tdiv(
        ali.1 * cfg.alignment_strength as int,
        SCALE as int,
    ) + tdiv(coh.1 * cfg.cohesion_strength as int, SCALE as int);
    clamp_spec(sx, sy, cfg.max_force as int)
}

/// The velocity an agent carries into the wall check: the steering force is
/// added to the scratch acceleration, blended in at the damping factor 0.2
/// (exactly a division by five), and the result is capped at `max_speed`.
pub open spec fn vel_mid(b: Boid, boids: Seq<Boid>, cfg: BoidsConfig) -> (int, int) {
    let st = steering(b, boids, cfg);
    let ax = b.acceleration.x + st.0;
    let ay = b.acceleration.y + st.1;
    let vx = b.velocity.x + tdiv(ax, 5);
    let vy = b.velocity.y + tdiv(ay, 5);
    clamp_spec(vx, vy, cfg.max_speed as int)
}

impl Boid {
    /// Coordinates small enough that every pairwise computation stays in
    /// range, and the scratch acceleration at its between-ticks rest value
    /// of zero.
    pub open spec fn wf(&self) -> bool {
        &&& -POS_LIMIT <= self.position.x <= POS_LIMIT
        &&& -POS_LIMIT <= self.position.y <= POS_LIMIT
        &&& -VEL_LIMIT <= self.velocity.x <= VEL_LIMIT
        &&& -VEL_LIMIT <= self.velocity.y <= VEL_LIMIT
        &&& self.acceleration.x == 0
        &&& self.acceleration.y == 0
        &&& 0 <= self.radius <= BODY_LIMIT
    }
}

/// All agents of a snapshot are well-formed and the snapshot is small
/// enough for the accumulators.
pub open spec fn snapshot_wf(boids: Seq<Boid>) -> bool {
    &&& boids.len() <= FLOCK_LIMIT
    &&& forall|i: int| 0 <= i < boids.len() ==> (#[trigger] boids[i]).wf()
}

impl Boid {
    /// Inverse-distance weighted repulsion from every neighbor within
    /// `separation_radius`, averaged and normalized.
    pub fn calculate_separation_force(&self, boids: &Vec<Boid>, cfg: &BoidsConfig) -> (f: Vec2)
        requires
            self.wf(),
            cfg.wf(),
            snapshot_wf(boids@),
        ensures
            (f.x as int, f.y as int) == separation_force(
                self.position,
                boids@,
                cfg.separation_radius as int,
            ),
            -SCALE <= f.x <= SCALE,
            -SCALE <= f.y <= SCALE,
    {
        let radius = cfg.separation_radius;
        let mut sx: i64 = 0;
        let mut sy: i64 = 0;
        let mut count: i64 = 0;
        let mut i: usize = 0;
        let n = boids.len();
        while i < n
            invariant
                self.wf(),
                cfg.wf(),
                snapshot_wf(boids@),
                radius == cfg.separation_radius,
                n == boids@.len(),
                0 <= i <= n,
                0 <= count <= i,
                -(count as int) * (SCALE as int) * (SCALE as int) <= sx as int,
                sx as int <= (count as int) * (SCALE as int) * (SCALE as int),
                -(count as int) * (SCALE as int) * (SCALE as int) <= sy as int,
                sy as int <= (count as int) * (SCALE as int) * (SCALE as int),
                (sx as int, sy as int, count as int) == sep_sum(
                    self.position,
                    boids@.take(i as int),
                    radius as int,
                ),
            decreases n - i,
        {
            let q = boids[i];
            let dx = self.position.x - q.position.x;
            let dy = self.position.y - q.position.y;
            let d = vec_len(dx, dy);
            if d > 0 && d < radius {
                proof {
                    lemma_comp_le_len(dx as int, dy as int, d as int);
                }
                let ux = quot64(dx * SCALE, d);
                let uy = quot64(dy * SCALE, d);
                proof {
                    lemma_scale_div_le(dx as int, SCALE as int, d as int);
                    lemma_scale_div_le(dy as int, SCALE as int, d as int);
                    lemma_tdiv_le_of_bound(
                        ux as int * SCALE as int,
                        d as int,
                        SCALE as int * SCALE as int,
                    );
                    lemma_tdiv_le_of_bound(
                        uy as int * SCALE as int,
                        d as int,
                        SCALE as int * SCALE as int,
                    );
                    assert(-(d as int) * (SCALE as int * SCALE as int) <= ux as int * SCALE as int
                        <= d as int * (SCALE as int * SCALE as int)) by (nonlinear_arith)
                        requires
                            -(SCALE as int) <= ux as int <= SCALE as int,
                            d as int >= 1,
                    ;
                }
                let ix = quot64(ux * SCALE, d);
                let iy = quot64(uy * SCALE, d);
                sx = sx + ix;
                sy = sy + iy;
                count = count + 1;
                proof {
                    assert((count as int) * (SCALE as int) * (SCALE as int) == (count as int - 1) * (
                    SCALE as int) * (SCALE as int) + (SCALE as int) * (SCALE as int))
                        by (nonlinear_arith);
                }
            }
            proof {
                assert(boids@.take(i as int + 1).drop_last() =~= boids@.take(i as int));
                assert(boids@.take(i as int + 1).last() == boids@[i as int]);
                assert(d as int == sqrt_floor(dist_sq(self.position, boids@[i as int].position)));
            }
            i = i + 1;
        }
        proof {
            assert(boids@.take(n as int) =~= boids@);
        }
        if count > 0 {
            let ax = quot64(sx, count);
            let ay = quot64(sy, count);
            proof {
                lemma_tdiv_le_of_bound(sx as int, count as int, SCALE as int * SCALE as int);
                lemma_tdiv_le_of_bound(sy as int, count as int, SCALE as int * SCALE as int);
                assert(-(count as int) * ((SCALE as int) * (SCALE as int)) <= sx as int <= (
                count as int) * ((SCALE as int) * (SCALE as int))) by (nonlinear_arith)
                    requires
                        -(count as int) * (SCALE as int) * (SCALE as int) <= sx as int,
                        sx as int <= (count as int) * (SCALE as int) * (SCALE as int),
                ;
                assert(-(count as int) * ((SCALE as int) * (SCALE as int)) <= sy as int <= (
                count as int) * ((SCALE as int) * (SCALE as int))) by (nonlinear_arith)
                    requires
                        -(count as int) * (SCALE as int) * (SCALE as int) <= sy as int,
                        sy as int <= (count as int) * (SCALE as int) * (SCALE as int),
                ;
            }
            let l = vec_len(ax, ay);
            if l > 0 {
                proof {
                    assert(norm_sq(ax as int, ay as int) > 0) by (nonlinear_arith)
                        requires
                            (l as int) >= 1,
                            (l as int) * (l as int) <= norm_sq(ax as int, ay as int),
                    ;
                    lemma_comp_le_len(ax as int, ay as int, l as int);
                    lemma_scale_div_le(ax as int, SCALE as int, l as int);
                    lemma_scale_div_le(ay as int, SCALE as int, l as int);
                }
                let fx = quot64(ax * SCALE, l);
                let fy = quot64(ay * SCALE, l);
                Vec2 { x: fx, y: fy }
            } else {
                proof {
                    assert(ax == 0 && ay == 0);
                }
                Vec2 { x: ax, y: ay }
            }
        } else {
            Vec2 { x: sx, y: sy }
        }
    }

    /// The sensed neighbors' average velocity relative to the agent's own,
    /// normalized; zero when no neighbor is within `neighborhood_radius`.
    pub fn calculate_alignment_force(&self, boids: &Vec<Boid>, cfg: &BoidsConfig) -> (f: Vec2)
        requires
            self.wf(),
            cfg.wf(),
            snapshot_wf(boids@),
        ensures
            (f.x as int, f.y as int) == alignment_force(
                *self,
                boids@,
                cfg.neighborhood_radius as int,
            ),
            -SCALE <= f.x <= SCALE,
            -SCALE <= f.y <= SCALE,
    {
        let radius = cfg.neighborhood_radius;
        let mut sx: i64 = 0;
        let mut sy: i64 = 0;
        let mut count: i64 = 0;
        let mut i: usize = 0;
        let n = boids.len();
        while i < n
            invariant
                self.wf(),
                cfg.wf(),
                snapshot_wf(boids@),
                radius == cfg.neighborhood_radius,
                n == boids@.len(),
                0 <= i <= n,
                0 <= count <= i,
                -(count as int) * (VEL_LIMIT as int) <= sx as int <= (count as int) * (
                VEL_LIMIT as int),
                -(count as int) * (VEL_LIMIT as int) <= sy as int <= (count as int) * (
                VEL_LIMIT as int),
                (sx as int, sy as int, count as int) == align_sum(
                    self.position,
                    boids@.take(i as int),
                    radius as int,
                ),
            decreases n - i,
        {
            let q = boids[i];
            let dx = self.position.x - q.position.x;
            let dy = self.position.y - q.position.y;
            let d = vec_len(dx, dy);
            if d > 0 && d < radius {
                sx = sx + q.velocity.x;
                sy = sy + q.velocity.y;
                count = count + 1;
                proof {
                    assert((count as int) * (VEL_LIMIT as int) == (count as int - 1) * (
                    VEL_LIMIT as int) + VEL_LIMIT as int) by (nonlinear_arith);
                }
            }
            proof {
                assert(boids@.take(i as int + 1).drop_last() =~= boids@.take(i as int));
                assert(boids@.take(i as int + 1).last() == boids@[i as int]);
                assert(d as int == sqrt_floor(dist_sq(self.position, boids@[i as int].position)));
            }
            i = i + 1;
        }
        proof {
            assert(boids@.take(n as int) =~= boids@);
        }
        if count > 0 {
            let avx = quot64(sx, count);
            let avy = quot64(sy, count);
            proof {
                lemma_tdiv_le_of_bound(sx as int, count as int, VEL_LIMIT as int);
                lemma_tdiv_le_of_bound(sy as int, count as int, VEL_LIMIT as int);
            }
            let stx = avx - self.velocity.x;
            let sty = avy - self.velocity.y;
            let l = vec_len(stx, sty);
            if l > 0 {
                proof {
                    assert(norm_sq(stx as int, sty as int) > 0) by (nonlinear_arith)
                        requires
                            (l as int) >= 1,
                            (l as int) * (l as int) <= norm_sq(stx as int, sty as int),
                    ;
                    lemma_comp_le_len(stx as int, sty as int, l as int);
                    lemma_scale_div_le(stx as int, SCALE as int, l as int);
                    lemma_scale_div_le(sty as int, SCALE as int, l as int);
                }
                let fx = quot64(stx * SCALE, l);
                let fy = quot64(sty * SCALE, l);
                return Vec2 { x: fx, y: fy };
            }
            proof {
                assert(stx == 0 && sty == 0);
            }
            return Vec2 { x: 0, y: 0 };
        }
        Vec2 { x: 0, y: 0 }
    }

    /// The pull toward the sensed neighbors' average position, normalized;
    /// zero when no neighbor is within `neighborhood_radius`.
    pub fn calculate_cohesion_force(&self, boids: &Vec<Boid>, cfg: &BoidsConfig) -> (f: Vec2)
        requires
            self.wf(),
            cfg.wf(),
            snapshot_wf(boids@),
        ensures
            (f.x as int, f.y as int) == cohesion_force(
                *self,
                boids@,
                cfg.neighborhood_radius as int,
            ),
            -SCALE <= f.x <= SCALE,
            -SCALE <= f.y <= SCALE,
    {
        let radius = cfg.neighborhood_radius;
        let mut sx: i128 = 0;
        let mut sy: i128 = 0;
        let mut count: i64 = 0;
        let mut i: usize = 0;
        let n = boids.len();
        while i < n
            invariant
                self.wf(),
                cfg.wf(),
                snapshot_wf(boids@),
                radius == cfg.neighborhood_radius,
                n == boids@.len(),
                0 <= i <= n,
                0 <= count <= i,
                -(count as int) * (POS_LIMIT as int) <= sx as int <= (count as int) * (
                POS_LIMIT as int),
                -(count as int) * (POS_LIMIT as int) <= sy as int <= (count as int) * (
                POS_LIMIT as int),
                (sx as int, sy as int, count as int) == coh_sum(
                    self.position,
                    boids@.take(i as int),
                    radius as int,
                ),
            decreases n - i,
        {
            let q = boids[i];
            let dx = self.position.x - q.position.x;
            let dy = self.position.y - q.position.y;
            let d = vec_len(dx, dy);
            if d > 0 && d < radius {
                sx = sx + q.position.x as i128;
                sy = sy + q.position.y as i128;
                count = count + 1;
                proof {
                    assert((count as int) * (POS_LIMIT as int) == (count as int - 1) * (
                    POS_LIMIT as int) + POS_LIMIT as int) by (nonlinear_arith);
                }
            }
            proof {
                assert(boids@.take(i as int + 1).drop_last() =~= boids@.take(i as int));
                assert(boids@.take(i as int + 1).last() == boids@[i as int]);
                assert(d as int == sqrt_floor(dist_sq(self.position, boids@[i as int].position)));
            }
            i = i + 1;
        }
        proof {
            assert(boids@.take(n as int) =~= boids@);
        }
        if count > 0 {
            let avx128 = quot128(sx, count as i128);
            let avy128 = quot128(sy, count as i128);
            proof {
                lemma_tdiv_le_of_bound(sx as int, count as int, POS_LIMIT as int);
                lemma_tdiv_le_of_bound(sy as int, count as int, POS_LIMIT as int);
            }
            let avx = avx128 as i64;
            let avy = avy128 as i64;
            let stx = avx - self.position.x;
            let sty = avy - self.position.y;
            let l = vec_len(stx, sty);
            if l > 0 {
                proof {
                    assert(norm_sq(stx as int, sty as int) > 0) by (nonlinear_arith)
                        requires
                            (l as int) >= 1,
                            (l as int) * (l as int) <= norm_sq(stx as int, sty as int),
                    ;
                    lemma_comp_le_len(stx as int, sty as int, l as int);
                    lemma_scale_div_le(stx as int, SCALE as int, l as int);
                    lemma_scale_div_le(sty as int, SCALE as int, l as int);
                }
                let fx = quot64(stx * SCALE, l);
                let fy = quot64(sty * SCALE, l);
                return Vec2 { x: fx, y: fy };
            }
            proof {
                assert(stx == 0 && sty == 0);
            }
            return Vec2 { x: 0, y: 0 };
        }
        Vec2 { x: 0, y: 0 }
    }
}

/// Cosine of 135 degrees in fixed-point steps (quantized to the scale).
pub const COS_135: i64 = -707;

/// Sine of 135 degrees in fixed-point steps (quantized to the scale).
pub const SIN_135: i64 = 707;

/// The geometry one agent contributes to a frame: a triangle pointing along
/// the heading, and an optional debug ring of the separation radius.
#[derive(Clone, Copy, PartialEq, Eq, Structural, Debug)]
pub struct BoidShape {
    pub tip: Vec2,
    pub left: Vec2,
    pub right: Vec2,
    pub ring_center: Vec2,
    pub ring_radius: i64,
    pub ring: bool,
}

/// The unit heading of a velocity; a resting agent points along the
/// positive x-axis (the heading angle of the zero vector is zero).
pub open spec fn heading_unit(v: Vec2) -> (int, int) {
    if v.x == 0 && v.y == 0 {
        (SCALE as int, 0int)
    } else {
        normalize_spec(v.x as int, v.y as int)
    }
}

/// The drawable geometry of an agent: the triangle tip sits two radii ahead
/// along the heading, the base corners one radius away at 135 degrees to
/// either side; the ring marks the separation radius when the debug overlay
/// is on.
pub open spec fn shape_of(b: Boid, cfg: BoidsConfig, s: BoidShape) -> bool {
    let u = heading_unit(b.velocity);
    let lxu = tdiv(u.0 * COS_135 as int - u.1 * SIN_135 as int, SCALE as int);
    let lyu = tdiv(u.1 * COS_135 as int + u.0 * SIN_135 as int, SCALE as int);
    let rxu = tdiv(u.0 * COS_135 as int + u.1 * SIN_135 as int, SCALE as int);
    let ryu = tdiv(u.1 * COS_135 as int - u.0 * SIN_135 as int, SCALE as int);
    &&& s.tip.x == b.position.x + tdiv(u.0 * (2 * b.radius), SCALE as int)
    &&& s.tip.y == b.position.y + tdiv(u.1 * (2 * b.radius), SCALE as int)
    &&& s.left.x == b.position.x + tdiv(lxu * b.radius, SCALE as int)
    &&& s.left.y == b.position.y + tdiv(lyu * b.radius, SCALE as int)
    &&& s.right.x == b.position.x + tdiv(rxu * b.radius, SCALE as int)
    &&& s.right.y == b.position.y + tdiv(ryu * b.radius, SCALE as int)
    &&& s.ring_center == b.position
    &&& s.ring_radius == cfg.separation_radius
    &&& s.ring == cfg.debug
}

/// A product scaled back down by one fixed-point step, for bounded factors.
fn mul_fx(a: i64, b: i64) -> (r: i64)
    requires
        -2_000_000 <= a <= 2_000_000,
        -1_000_000_000 <= b <= 1_000_000_000,
    ensures
        r == tdiv(a as int * b as int, SCALE as int),
        -2_000_000_000_000 <= r <= 2_000_000_000_000,
{
    proof {
        assert(-(2_000_000int * 1_000_000_000int) <= (a as int) * (b as int) <= 2_000_000int
            * 1_000_000_000int) by (nonlinear_arith)
            requires
                -2_000_000 <= a as int <= 2_000_000,
                -1_000_000_000 <= b as int <= 1_000_000_000,
        ;
        lemma_tdiv_le_of_bound(a as int * b as int, SCALE as int, 2_000_000_000_000int);
    }
    quot64(a * b, SCALE)
}

impl Boid {
    /// The geometry this agent contributes to the frame, as `shape_of`
    /// describes it: a pure function of position, velocity and radius.
    pub fn draw(&self, cfg: &BoidsConfig) -> (s: BoidShape)
        requires
            self.wf(),
            cfg.wf(),
        ensures
            shape_of(*self, *cfg, s),
    {
        let vx = self.velocity.x;
        let vy = self.velocity.y;
        let mut ux: i64 = SCALE;
        let mut uy: i64 = 0;
        if vx != 0 || vy != 0 {
            let d = vec_len(vx, vy);
            proof {
                assert(norm_sq(vx as int, vy as int) > 0) by (nonlinear_arith)
                    requires
                        (d as int) >= 1,
                        (d as int) * (d as int) <= norm_sq(vx as int, vy as int),
                ;
                lemma_comp_le_len(vx as int, vy as int, d as int);
                lemma_scale_div_le(vx as int, SCALE as int, d as int);
                lemma_scale_div_le(vy as int, SCALE as int, d as int);
            }
            ux = quot64(vx * SCALE, d);
            uy = quot64(vy * SCALE, d);
        }
        let lxu = quot64(ux * COS_135 - uy * SIN_135, SCALE);
        let lyu = quot64(uy * COS_135 + ux * SIN_135, SCALE);
        let rxu = quot64(ux * COS_135 + uy * SIN_135, SCALE);
        let ryu = quot64(uy * COS_135 - ux * SIN_135, SCALE);
        proof {
            lemma_tdiv_mag((ux * COS_135 - uy * SIN_135) as int, SCALE as int);
            lemma_tdiv_mag((uy * COS_135 + ux * SIN_135) as int, SCALE as int);
            lemma_tdiv_mag((ux * COS_135 + uy * SIN_135) as int, SCALE as int);
            lemma_tdiv_mag((uy * COS_135 - ux * SIN_135) as int, SCALE as int);
        }
        let two_r = 2 * self.radius;
        BoidShape {
            tip: Vec2 {
                x: self.position.x + mul_fx(ux, two_r),
                y: self.position.y + mul_fx(uy, two_r),
            },
            left: Vec2 {
                x: self.position.x + mul_fx(lxu, self.radius),
                y: self.position.y + mul_fx(lyu, self.radius),
            },
            right: Vec2 {
                x: self.position.x + mul_fx(rxu, self.radius),
                y: self.position.y + mul_fx(ryu, self.radius),
            },
            ring_center: self.position,
            ring_radius: cfg.separation_radius,
            ring: cfg.debug,
        }
    }
}

/// The tentative x-coordinate leaves `[radius, width - radius]`, so the
/// x-velocity reflects.
pub open spec fn wall_bounce_x(b: Boid, vmx: int, width: int) -> bool {
    let tx = b.position.x + vmx;
    tx < b.radius || tx > width * SCALE as int - b.radius
}

/// The tentative y-coordinate leaves `[radius, height - radius]`, so the
/// y-velocity reflects.
pub open spec fn wall_bounce_y(b: Boid, vmy: int, height: int) -> bool {
    let ty = b.position.y + vmy;
    ty < b.radius || ty > height * SCALE as int - b.radius
}

/// The velocity after the wall checks: an x-wall hit negates the
/// x-component and jitters the y-component by `j1`; a y-wall hit then
/// negates the (possibly jittered) y-component and jitters the (possibly
/// negated) x-component by `j2`. Both checks read the same tentative
/// position, computed before either adjustment.
pub open spec fn bounced_velocity(vmx: int, vmy: int, bx: bool, by: bool, j1: int, j2: int) -> (
    int,
    int,
) {
    let vx1 = if bx {
        -vmx
    } else {
        vmx
    };
    let vy1 = if bx {
        vmy + j1
    } else {
        vmy
    };
    let vy2 = if by {
        -vy1
    } else {
        vy1
    };
    let vx2 = if by {
        vx1 + j2
    } else {
        vx1
    };
    (vx2, vy2)
}

/// How the wall step takes an agent from `pre` to `post` with jitters `j1`
/// and `j2`: the velocity `pre` carries is wall-reflected against the
/// tentative position `pre.position + pre.velocity`, and the position then
/// advances by the reflected velocity — so an agent may exit the strict
/// bounds by a small amount on a bounce frame. Unused jitters are pinned to
/// zero.
pub open spec fn bounce_step(pre: Boid, post: Boid, cfg: Config, j1: int, j2: int) -> bool {
    let bx = wall_bounce_x(pre, pre.velocity.x as int, cfg.window.window_width as int);
    let by = wall_bounce_y(pre, pre.velocity.y as int, cfg.window.window_height as int);
    let v2 = bounced_velocity(pre.velocity.x as int, pre.velocity.y as int, bx, by, j1, j2);
    &&& post.velocity.x == v2.0
    &&& post.velocity.y == v2.1
    &&& post.position.x == pre.position.x + v2.0
    &&& post.position.y == pre.position.y + v2.1
    &&& post.acceleration == pre.acceleration
    &&& post.radius == pre.radius
    &&& -SCALE <= j1 <= SCALE
    &&& -SCALE <= j2 <= SCALE
    &&& (!bx ==> j1 == 0)
    &&& (!by ==> j2 == 0)
}

/// How one tick takes an agent from `pre` to `post` against the snapshot
/// `boids`, with wall jitters `j1` and `j2`: the capped blended velocity of
/// `vel_mid` goes through the wall step, and the scratch acceleration
/// returns to zero.
pub open spec fn tick_rel(
    pre: Boid,
    post: Boid,
    boids: Seq<Boid>,
    cfg: Config,
    j1: int,
    j2: int,
) -> bool {
    let vm = vel_mid(pre, boids, cfg.boids);
    let mid = Boid {
        position: pre.position,
        velocity: Vec2 { x: vm.0 as i64, y: vm.1 as i64 },
        acceleration: pre.acceleration,
        radius: pre.radius,
    };
    let stepped = Boid {
        position: post.position,
        velocity: post.velocity,
        acceleration: pre.acceleration,
        radius: post.radius,
    };
    &&& bounce_step(mid, stepped, cfg, j1, j2)
    &&& post.acceleration.x == 0
    &&& post.acceleration.y == 0
}

/// One tick took the agent from `pre` to `post` against the snapshot
/// `boids`, for some pair of wall jitters.
pub open spec fn ticked(pre: Boid, post: Boid, boids: Seq<Boid>, cfg: Config) -> bool {
    exists|j1: int, j2: int| tick_rel(pre, post, boids, cfg, j1, j2)
}

/// Relies on `macroquad::rand::gen_range` (the quad-rand generator): the
/// result is `low + (high - low) * r` with `r` drawn in `[0, 1)`, computed
/// in double precision and truncated back toward zero, so for bounds well
/// inside the exactly-representable range every outcome lies in
/// `[low, high]`.
#[verifier::external_body]
fn gen_range_i64(low: i64, high: i64) -> (r: i64)
    requires
        low <= high,
        -1_000_000_000_000 <= low,
        high <= 1_000_000_000_000,
    ensures
        low <= r <= high,
{
    macroquad::rand::gen_range(low, high)
}

/// One behavior force scaled by its strength weight.
fn weight(f: i64, w: i64) -> (r: i64)
    requires
        -SCALE <= f <= SCALE,
        0 <= w <= CAP_LIMIT,
    ensures
        r == tdiv(f as int * w as int, SCALE as int),
        -CAP_LIMIT <= r <= CAP_LIMIT,
{
    proof {
        assert(-(SCALE as int * CAP_LIMIT as int) <= f as int * w as int <= SCALE as int
            * CAP_LIMIT as int) by (nonlinear_arith)
            requires
                -(SCALE as int) <= f as int <= SCALE as int,
                0 <= w as int <= CAP_LIMIT as int,
        ;
        lemma_tdiv_le_of_bound(f as int * w as int, SCALE as int, CAP_LIMIT as int);
    }
    quot64(f * w, SCALE)
}

/// `(x, y)` capped at norm `m`: scaled down along itself when its length
/// exceeds `m`, else unchanged. The result's squared norm is always under
/// `(m + 1)^2` and each coordinate within `m`.
fn clamp_norm(x: i64, y: i64, m: i64) -> (r: Vec2)
    requires
        0 <= m <= CAP_LIMIT,
        -10_000_000 <= x <= 10_000_000,
        -10_000_000 <= y <= 10_000_000,
    ensures
        (r.x as int, r.y as int) == clamp_spec(x as int, y as int, m as int),
        norm_sq(r.x as int, r.y as int) < (m as int + 1) * (m as int + 1),
        -m <= r.x <= m,
        -m <= r.y <= m,
{
    let d = vec_len(x, y);
    if d > m {
        proof {
            lemma_comp_le_len(x as int, y as int, d as int);
            lemma_scale_div_le(x as int, m as int, d as int);
            lemma_scale_div_le(y as int, m as int, d as int);
            crate::fixed::lemma_clamp_norm(x as int, y as int, d as int, m as int);
            assert(-(10_000_000int * 1_000_000int) <= (x as int) * (m as int) <= 10_000_000int
                * 1_000_000int && -(10_000_000int * 1_000_000int) <= (y as int) * (m as int)
                <= 10_000_000int * 1_000_000int) by (nonlinear_arith)
                requires
                    -10_000_000 <= x as int <= 10_000_000,
                    -10_000_000 <= y as int <= 10_000_000,
                    0 <= m as int <= 1_000_000,
            ;
        }
        let cx = quot64(x * m, d);
        let cy = quot64(y * m, d);
        Vec2 { x: cx, y: cy }
    } else {
        proof {
            assert(norm_sq(x as int, y as int) < (m as int + 1) * (m as int + 1))
                by (nonlinear_arith)
                requires
                    norm_sq(x as int, y as int) < (d as int + 1) * (d as int + 1),
                    0 <= d as int <= m as int,
            ;
            lemma_comp_le_len(x as int, y as int, m as int);
        }
        Vec2 { x, y }
    }
}

impl Boid {
    /// A fresh agent: position uniform within the window inset by `radius`,
    /// velocity uniform in `[-2, 2]` world units per tick, scratch
    /// acceleration zero.
    pub fn new(radius: i64, cfg: &Config) -> (b: Boid)
        requires
            cfg.wf(),
            0 <= radius <= BODY_LIMIT,
            2 * radius <= (cfg.window.window_width as int) * (SCALE as int),
            2 * radius <= (cfg.window.window_height as int) * (SCALE as int),
        ensures
            b.wf(),
            b.radius == radius,
            radius <= b.position.x <= (cfg.window.window_width as int) * (SCALE as int) - radius,
            radius <= b.position.y <= (cfg.window.window_height as int) * (SCALE as int) - radius,
            -2 * SCALE <= b.velocity.x <= 2 * SCALE,
            -2 * SCALE <= b.velocity.y <= 2 * SCALE,
            b.acceleration.x == 0,
            b.acceleration.y == 0,
    {
        let width_fx = (cfg.window.window_width as i64) * SCALE;
        let height_fx = (cfg.window.window_height as i64) * SCALE;
        let px = gen_range_i64(radius, width_fx - radius);
        let py = gen_range_i64(radius, height_fx - radius);
        let vx = gen_range_i64(-2 * SCALE, 2 * SCALE);
        let vy = gen_range_i64(-2 * SCALE, 2 * SCALE);
        Boid {
            position: Vec2 { x: px, y: py },
            velocity: Vec2 { x: vx, y: vy },
            acceleration: Vec2 { x: 0, y: 0 },
            radius,
        }
    }

    /// One tick of this agent against the pre-tick snapshot `boids`:
    /// steering, capped blend, speed cap, wall reflection, and position
    /// advance, exactly as `tick_rel` relates the old and new state for
    /// some pair of wall jitters.
    pub fn update(&mut self, boids: &Vec<Boid>, cfg: &Config)
        requires
            old(self).wf(),
            cfg.wf(),
            snapshot_wf(boids@),
        ensures
            ticked(*old(self), *final(self), boids@, *cfg),
            final(self).radius == old(self).radius,
            final(self).acceleration.x == 0,
            final(self).acceleration.y == 0,
            -(cfg.boids.max_speed + SCALE) <= final(self).velocity.x <= cfg.boids.max_speed
                + SCALE,
            -(cfg.boids.max_speed + SCALE) <= final(self).velocity.y <= cfg.boids.max_speed
                + SCALE,
            old(self).position.x - cfg.boids.max_speed - SCALE <= final(self).position.x <= old(
                self,
            ).position.x + cfg.boids.max_speed + SCALE,
            old(self).position.y - cfg.boids.max_speed - SCALE <= final(self).position.y <= old(
                self,
            ).position.y + cfg.boids.max_speed + SCALE,
    {
        let sep = self.calculate_separation_force(boids, &cfg.boids);
        let ali = self.calculate_alignment_force(boids, &cfg.boids);
        let coh = self.calculate_cohesion_force(boids, &cfg.boids);
        let sx = weight(sep.x, cfg.boids.separation_strength) + weight(
            ali.x,
            cfg.boids.alignment_strength,
        ) + weight(coh.x, cfg.boids.cohesion_strength);
        let sy = weight(sep.y, cfg.boids.separation_strength) + weight(
            ali.y,
            cfg.boids.alignment_strength,
        ) + weight(coh.y, cfg.boids.cohesion_strength);
        let st = clamp_norm(sx, sy, cfg.boids.max_force);
        proof {
            assert((st.x as int, st.y as int) == steering(*self, boids@, cfg.boids));
        }
        let ax = self.acceleration.x + st.x;
        let ay = self.acceleration.y + st.y;
        let blx = quot64(ax, 5);
        let bly = quot64(ay, 5);
        proof {
            lemma_tdiv_mag(ax as int, 5);
            lemma_tdiv_mag(ay as int, 5);
        }
        let vx = self.velocity.x + blx;
        let vy = self.velocity.y + bly;
        let vm = clamp_norm(vx, vy, cfg.boids.max_speed);
        proof {
            assert((vm.x as int, vm.y as int) == vel_mid(*self, boids@, cfg.boids));
        }
        self.velocity = vm;
        let ghost mid = *self;
        self.update_position_with_bounds(cfg);
        let ghost stepped = *self;
        self.acceleration = Vec2 { x: 0, y: 0 };
        proof {
            let (j1, j2) = choose|j1: int, j2: int| bounce_step(mid, stepped, *cfg, j1, j2);
            assert(tick_rel(*old(self), *self, boids@, *cfg, j1, j2));
            assert(ticked(*old(self), *self, boids@, *cfg));
        }
    }

    /// The wall step: the position advances by the velocity, and where the
    /// tentative position would leave the window rectangle (inset by the
    /// agent's radius) the corresponding velocity component reflects and
    /// the other picks up a uniform jitter in `[-1, 1]` world units. Both
    /// wall checks read the same tentative position, and the commit uses
    /// the possibly just-reflected velocity.
    fn update_position_with_bounds(&mut self, cfg: &Config)
        requires
            cfg.wf(),
            -POS_LIMIT <= old(self).position.x <= POS_LIMIT,
            -POS_LIMIT <= old(self).position.y <= POS_LIMIT,
            -CAP_LIMIT <= old(self).velocity.x <= CAP_LIMIT,
            -CAP_LIMIT <= old(self).velocity.y <= CAP_LIMIT,
            0 <= old(self).radius <= BODY_LIMIT,
        ensures
            exists|j1: int, j2: int| bounce_step(*old(self), *final(self), *cfg, j1, j2),
            final(self).acceleration == old(self).acceleration,
            final(self).radius == old(self).radius,
            -(CAP_LIMIT + SCALE) <= final(self).velocity.x <= CAP_LIMIT + SCALE,
            -(CAP_LIMIT + SCALE) <= final(self).velocity.y <= CAP_LIMIT + SCALE,
            old(self).position.x - CAP_LIMIT - SCALE <= final(self).position.x <= old(
                self,
            ).position.x + CAP_LIMIT + SCALE,
            old(self).position.y - CAP_LIMIT - SCALE <= final(self).position.y <= old(
                self,
            ).position.y + CAP_LIMIT + SCALE,
    {
        let width_fx = (cfg.window.window_width as i64) * SCALE;
        let height_fx = (cfg.window.window_height as i64) * SCALE;
        let tx = self.position.x + self.velocity.x;
        let ty = self.position.y + self.velocity.y;
        let mut nvx = self.velocity.x;
        let mut nvy = self.velocity.y;
        let ghost mut j1: int = 0;
        let ghost mut j2: int = 0;
        let bounce_x = tx < self.radius || tx > width_fx - self.radius;
        if bounce_x {
            nvx = -nvx;
            let j = gen_range_i64(-SCALE, SCALE);
            nvy = nvy + j;
            proof {
                j1 = j as int;
            }
        }
        let bounce_y = ty < self.radius || ty > height_fx - self.radius;
        if bounce_y {
            nvy = -nvy;
            let j = gen_range_i64(-SCALE, SCALE);
            nvx = nvx + j;
            proof {
                j2 = j as int;
            }
        }
        let npx = self.position.x + nvx;
        let npy = self.position.y + nvy;
        self.velocity = Vec2 { x: nvx, y: nvy };
        self.position = Vec2 { x: npx, y: npy };
        proof {
            assert(bounce_step(*old(self), *self, *cfg, j1, j2));
        }
    }
}

} // verus!
