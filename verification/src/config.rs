//! Simulation parameters.
//!
//! The window shell reads these once at startup (from a file, or from the
//! documented defaults when the file is absent or malformed) and passes them
//! explicitly into the flock: there is no ambient configuration state.
//! Speeds, forces, radii and strengths are fixed-point values
//! (`fixed::SCALE` steps per world unit); window dimensions are in pixels.

use vstd::prelude::*;
use crate::fixed::SCALE;

verus! {

/// Largest window dimension, in pixels, the simulation accepts.
pub const WINDOW_LIMIT: i32 = 2_000_000;

/// Largest speed or force cap, and largest strength weight, in fixed-point
/// steps (one thousand world units).
pub const CAP_LIMIT: i64 = 1_000_000;

/// Largest sensing radius, in fixed-point steps.
pub const RADIUS_LIMIT: i64 = 1_000_000_000;

pub struct WindowConfig {
    pub window_title: String,
    pub window_height: i32,
    pub window_width: i32,
}

pub struct BoidsConfig {
    pub number: i32,
    pub min_speed: i64,
    pub max_speed: i64,
    pub max_force: i64,
    pub neighborhood_radius: i64,
    pub separation_radius: i64,
    pub separation_strength: i64,
    pub alignment_strength: i64,
    pub cohesion_strength: i64,
    pub debug: bool,
}

pub struct Config {
    pub window: WindowConfig,
    pub boids: BoidsConfig,
}

impl WindowConfig {
    /// Dimensions are positive and small enough that every in-window
    /// fixed-point coordinate stays far from the arithmetic limits.
    pub open spec fn wf(&self) -> bool {
        &&& 1 <= self.window_width <= WINDOW_LIMIT
        &&& 1 <= self.window_height <= WINDOW_LIMIT
    }
}

impl BoidsConfig {
    /// Caps, radii and strengths are non-negative and bounded, so that no
    /// per-tick computation can overflow.
    pub open spec fn wf(&self) -> bool {
        &&& 0 <= self.max_speed <= CAP_LIMIT
        &&& 0 <= self.max_force <= CAP_LIMIT
        &&& 0 <= self.neighborhood_radius <= RADIUS_LIMIT
        &&& 0 <= self.separation_radius <= RADIUS_LIMIT
        &&& 0 <= self.separation_strength <= CAP_LIMIT
        &&& 0 <= self.alignment_strength <= CAP_LIMIT
        &&& 0 <= self.cohesion_strength <= CAP_LIMIT
    }
}

impl Config {
    pub open spec fn wf(&self) -> bool {
        self.window.wf() && self.boids.wf()
    }
}

impl Default for Config {
    /// The documented default parameter set: an 800 x 600 window, speed cap
    /// 5, force cap 0.05, sensing radii 60 and 40, strengths 3 / 1.8 / 0.5,
    /// 100 agents, debug overlay off.
    fn default() -> (c: Config)
        ensures
            c.window.window_title@ == "Boids simulation"@,
            c.window.window_height == 600,
            c.window.window_width == 800,
            c.boids.number == 100,
            c.boids.min_speed == 2 * SCALE,
            c.boids.max_speed == 5 * SCALE,
            c.boids.max_force == SCALE / 20,
            c.boids.neighborhood_radius == 60 * SCALE,
            c.boids.separation_radius == 40 * SCALE,
            c.boids.separation_strength == 3 * SCALE,
            c.boids.alignment_strength == SCALE + 8 * SCALE / 10,
            c.boids.cohesion_strength == SCALE / 2,
            c.boids.debug == false,
            c.wf(),
    {
        Config {
            window: WindowConfig {
                window_title: "Boids simulation".to_owned(),
                window_height: 600,
                window_width: 800,
            },
            boids: BoidsConfig {
                number: 100,
                min_speed: 2000,
                max_speed: 5000,
                max_force: 50,
                neighborhood_radius: 60000,
                separation_radius: 40000,
                separation_strength: 3000,
                alignment_strength: 1800,
                cohesion_strength: 500,
                debug: false,
            },
        }
    }
}

} // verus!
