//! The flock controller.
//!
//! It owns the agent collection, advances every agent once per tick against
//! an immutable pre-tick snapshot of the whole flock — never against a
//! half-updated mix — and hands out one drawable shape per agent in
//! collection order.

use vstd::prelude::*;
use crate::boid::{shape_of, snapshot_wf, ticked, Boid, BoidShape, BODY_LIMIT, FLOCK_LIMIT};
use crate::config::Config;
use crate::fixed::SCALE;

verus! {

/// An ordered collection of agents; the order only fixes the draw order.
pub struct Boids {
    pub boids: Vec<Boid>,
}

impl Boids {
    /// Every agent is well-formed and the flock is small enough for the
    /// per-tick accumulators.
    pub open spec fn wf(&self) -> bool {
        snapshot_wf(self.boids@)
    }

    /// A flock of `n` freshly randomized agents of the given radius; a
    /// non-positive count yields an empty flock (rather than an error).
    pub fn new(n: i32, radius: i64, cfg: &Config) -> (r: Boids)
        requires
            cfg.wf(),
            n <= FLOCK_LIMIT,
            0 <= radius <= BODY_LIMIT,
            2 * radius <= (cfg.window.window_width as int) * (SCALE as int),
            2 * radius <= (cfg.window.window_height as int) * (SCALE as int),
        ensures
            r.wf(),
            r.boids@.len() == if n >= 0 {
                n as int
            } else {
                0
            },
            forall|i: int|
                0 <= i < r.boids@.len() ==> (#[trigger] r.boids@[i]).radius == radius,
    {
        let mut boids: Vec<Boid> = Vec::new();
        let mut i: i32 = 0;
        while i < n
            invariant
                cfg.wf(),
                n <= FLOCK_LIMIT,
                0 <= radius <= BODY_LIMIT,
                2 * radius <= (cfg.window.window_width as int) * (SCALE as int),
                2 * radius <= (cfg.window.window_height as int) * (SCALE as int),
                0 <= i,
                n >= 0 ==> i <= n,
                n < 0 ==> i == 0,
                boids@.len() == i as int,
                forall|k: int| 0 <= k < boids@.len() ==> (#[trigger] boids@[k]).wf(),
                forall|k: int| 0 <= k < boids@.len() ==> (#[trigger] boids@[k]).radius == radius,
            decreases n - i,
        {
            boids.push(Boid::new(radius, cfg));
            i = i + 1;
        }
        Boids { boids }
    }

    /// One synchronous tick: a deep snapshot of the pre-tick agent states
    /// is taken first, and every agent then updates against that same
    /// snapshot, so all pairwise interactions observe one instant.
    pub fn update(&mut self, cfg: &Config)
        requires
            old(self).wf(),
            cfg.wf(),
        ensures
            final(self).boids@.len() == old(self).boids@.len(),
            forall|i: int|
                0 <= i < old(self).boids@.len() ==> ticked(
                    old(self).boids@[i],
                    #[trigger] final(self).boids@[i],
                    old(self).boids@,
                    *cfg,
                ),
    {
        let n = self.boids.len();
        let mut snapshot: Vec<Boid> = Vec::new();
        let mut i: usize = 0;
        while i < n
            invariant
                n == self.boids@.len(),
                self == old(self),
                0 <= i <= n,
                snapshot@ =~= self.boids@.take(i as int),
            decreases n - i,
        {
            snapshot.push(self.boids[i]);
            proof {
                assert(snapshot@ =~= self.boids@.take(i as int + 1));
            }
            i = i + 1;
        }
        proof {
            assert(snapshot@ =~= old(self).boids@);
        }
        let mut k: usize = 0;
        while k < n
            invariant
                cfg.wf(),
                snapshot_wf(old(self).boids@),
                n == self.boids@.len(),
                n == old(self).boids@.len(),
                snapshot@ == old(self).boids@,
                0 <= k <= n,
                forall|i: int|
                    0 <= i < k ==> ticked(
                        old(self).boids@[i],
                        #[trigger] self.boids@[i],
                        old(self).boids@,
                        *cfg,
                    ),
                forall|i: int| k <= i < n ==> self.boids@[i] == old(self).boids@[i],
            decreases n - k,
        {
            let ghost pre = *self;
            let mut b = self.boids[k];
            b.update(&snapshot, cfg);
            self.boids.set(k, b);
            proof {
                assert forall|i: int|
                    0 <= i < k as int + 1 implies ticked(
                    old(self).boids@[i],
                    #[trigger] self.boids@[i],
                    old(self).boids@,
                    *cfg,
                ) by {
                    if i == k as int {
                        assert(self.boids@[i] == b);
                        assert(ticked(old(self).boids@[i], b, old(self).boids@, *cfg));
                    } else {
                        assert(self.boids@[i] == pre.boids@[i]);
                        assert(ticked(
                            old(self).boids@[i],
                            pre.boids@[i],
                            old(self).boids@,
                            *cfg,
                        ));
                    }
                }
            }
            k = k + 1;
        }
    }

    /// The geometry of the whole flock, one shape per agent in collection
    /// order; drawing itself is the window shell's business.
    pub fn draw(&self, cfg: &Config) -> (shapes: Vec<BoidShape>)
        requires
            self.wf(),
            cfg.wf(),
        ensures
            shapes@.len() == self.boids@.len(),
            forall|i: int|
                0 <= i < self.boids@.len() ==> shape_of(
                    self.boids@[i],
                    cfg.boids,
                    #[trigger] shapes@[i],
                ),
    {
        let n = self.boids.len();
        let mut shapes: Vec<BoidShape> = Vec::new();
        let mut i: usize = 0;
        while i < n
            invariant
                self.wf(),
                cfg.wf(),
                n == self.boids@.len(),
                0 <= i <= n,
                shapes@.len() == i as int,
                forall|k: int|
                    0 <= k < i as int ==> shape_of(
                        self.boids@[k],
                        cfg.boids,
                        #[trigger] shapes@[k],
                    ),
            decreases n - i,
        {
            let s = self.boids[i].draw(&cfg.boids);
            shapes.push(s);
            i = i + 1;
        }
        shapes
    }
}

} // verus!
