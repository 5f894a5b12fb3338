//! A 2D flocking ("boids") simulation core.
//!
//! Agents steer by three local rules — separation, alignment, cohesion —
//! and integrate the resulting force into their velocity under speed and
//! force caps, bouncing off the window walls. All kinematics are held in
//! fixed-point integer coordinates (`fixed::SCALE` steps per pixel); the
//! window shell converts to screen units when it draws.

pub mod boid;
pub mod boids;
pub mod config;
pub mod fixed;
pub mod laws;
