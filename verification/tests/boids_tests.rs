use boids::boid::Boid;
use boids::boids::Boids;
use boids::config::Config;
use boids::fixed::{quot64, vec_len, Vec2, SCALE};

fn boid_at(px: i64, py: i64, vx: i64, vy: i64, radius: i64) -> Boid {
    Boid {
        position: Vec2 { x: px, y: py },
        velocity: Vec2 { x: vx, y: vy },
        acceleration: Vec2 { x: 0, y: 0 },
        radius,
    }
}

#[test]
fn default_config_values() {
    let cfg = Config::default();
    assert_eq!(cfg.window.window_title, "Boids simulation");
    assert_eq!(cfg.window.window_width, 800);
    assert_eq!(cfg.window.window_height, 600);
    assert_eq!(cfg.boids.number, 100);
    assert_eq!(cfg.boids.min_speed, 2 * SCALE);
    assert_eq!(cfg.boids.max_speed, 5 * SCALE);
    assert_eq!(cfg.boids.max_force, 50);
    assert_eq!(cfg.boids.neighborhood_radius, 60 * SCALE);
    assert_eq!(cfg.boids.separation_radius, 40 * SCALE);
    assert_eq!(cfg.boids.separation_strength, 3 * SCALE);
    assert_eq!(cfg.boids.alignment_strength, 1800);
    assert_eq!(cfg.boids.cohesion_strength, 500);
    assert!(!cfg.boids.debug);
}

#[test]
fn fixed_point_primitives() {
    assert_eq!(vec_len(3, 4), 5);
    assert_eq!(vec_len(0, 0), 0);
    assert_eq!(vec_len(3000, 4000), 5000);
    assert_eq!(vec_len(-3000, 4000), 5000);
    assert_eq!(vec_len(1, 1), 1);
    assert_eq!(quot64(7, 2), 3);
    assert_eq!(quot64(-7, 2), -3);
    assert_eq!(quot64(0, 5), 0);
}

#[test]
fn empty_flock_ticks_and_draws() {
    let cfg = Config::default();
    let mut flock = Boids::new(0, 6 * SCALE, &cfg);
    assert_eq!(flock.boids.len(), 0);
    flock.update(&cfg);
    let shapes = flock.draw(&cfg);
    assert_eq!(shapes.len(), 0);
}

#[test]
fn negative_count_yields_empty_flock() {
    let cfg = Config::default();
    let flock = Boids::new(-5, 6 * SCALE, &cfg);
    assert_eq!(flock.boids.len(), 0);
}

#[test]
fn new_flock_places_agents_inside_window() {
    let cfg = Config::default();
    let radius = 6 * SCALE;
    let flock = Boids::new(50, radius, &cfg);
    assert_eq!(flock.boids.len(), 50);
    for b in &flock.boids {
        assert_eq!(b.radius, radius);
        assert!(b.position.x >= radius && b.position.x <= 800 * SCALE - radius);
        assert!(b.position.y >= radius && b.position.y <= 600 * SCALE - radius);
        assert!(b.velocity.x >= -2 * SCALE && b.velocity.x <= 2 * SCALE);
        assert!(b.velocity.y >= -2 * SCALE && b.velocity.y <= 2 * SCALE);
        assert_eq!(b.acceleration.x, 0);
        assert_eq!(b.acceleration.y, 0);
    }
}

#[test]
fn two_agents_symmetric_separation() {
    let cfg = Config::default();
    let a = boid_at(100 * SCALE, 100 * SCALE, 0, 0, 6 * SCALE);
    let b = boid_at(105 * SCALE, 100 * SCALE, 0, 0, 6 * SCALE);
    let snapshot = vec![a, b];
    let fa = a.calculate_separation_force(&snapshot, &cfg.boids);
    let fb = b.calculate_separation_force(&snapshot, &cfg.boids);
    // Both are pushed apart along the x-axis, with equal magnitude.
    assert_eq!(fa.x, -SCALE);
    assert_eq!(fa.y, 0);
    assert_eq!(fb.x, SCALE);
    assert_eq!(fb.y, 0);
    assert_eq!(fa.x, -fb.x);
}

#[test]
fn separation_boundary_is_exclusive() {
    let cfg = Config::default();
    // Exactly separation_radius (40 units) apart: not in range.
    let a = boid_at(100 * SCALE, 100 * SCALE, 0, 0, 6 * SCALE);
    let b = boid_at(140 * SCALE, 100 * SCALE, 0, 0, 6 * SCALE);
    let snapshot = vec![a, b];
    let fa = a.calculate_separation_force(&snapshot, &cfg.boids);
    let fb = b.calculate_separation_force(&snapshot, &cfg.boids);
    assert_eq!((fa.x, fa.y), (0, 0));
    assert_eq!((fb.x, fb.y), (0, 0));
    // One fixed-point step closer: in range.
    let c = boid_at(140 * SCALE - 1, 100 * SCALE, 0, 0, 6 * SCALE);
    let snapshot2 = vec![a, c];
    let fa2 = a.calculate_separation_force(&snapshot2, &cfg.boids);
    let fc2 = c.calculate_separation_force(&snapshot2, &cfg.boids);
    assert_eq!((fa2.x, fa2.y), (-SCALE, 0));
    assert_eq!((fc2.x, fc2.y), (SCALE, 0));
}

#[test]
fn isolated_agent_all_forces_zero() {
    let cfg = Config::default();
    let a = boid_at(100 * SCALE, 100 * SCALE, 1000, 500, 6 * SCALE);
    // The other agent sits 70 units away: beyond both sensing radii.
    let far = boid_at(170 * SCALE, 100 * SCALE, -800, 200, 6 * SCALE);
    let snapshot = vec![a, far];
    let sep = a.calculate_separation_force(&snapshot, &cfg.boids);
    let ali = a.calculate_alignment_force(&snapshot, &cfg.boids);
    let coh = a.calculate_cohesion_force(&snapshot, &cfg.boids);
    assert_eq!((sep.x, sep.y), (0, 0));
    assert_eq!((ali.x, ali.y), (0, 0));
    assert_eq!((coh.x, coh.y), (0, 0));
}

#[test]
fn single_agent_moves_by_free_space_integration() {
    let cfg = Config::default();
    let mut flock = Boids {
        boids: vec![boid_at(400 * SCALE, 300 * SCALE, 3000, -1500, 6 * SCALE)],
    };
    flock.update(&cfg);
    let b = &flock.boids[0];
    // No neighbor, no wall: the velocity is unchanged and the position
    // advanced by it; the scratch acceleration is back at zero.
    assert_eq!(b.velocity.x, 3000);
    assert_eq!(b.velocity.y, -1500);
    assert_eq!(b.position.x, 400 * SCALE + 3000);
    assert_eq!(b.position.y, 300 * SCALE - 1500);
    assert_eq!(b.acceleration.x, 0);
    assert_eq!(b.acceleration.y, 0);
    assert_eq!(b.radius, 6 * SCALE);
}

#[test]
fn zero_strengths_reduce_to_free_integration() {
    let mut cfg = Config::default();
    cfg.boids.separation_strength = 0;
    cfg.boids.alignment_strength = 0;
    cfg.boids.cohesion_strength = 0;
    // Two agents well inside each other's sensing radii.
    let mut flock = Boids {
        boids: vec![
            boid_at(100 * SCALE, 100 * SCALE, 1000, 500, 6 * SCALE),
            boid_at(105 * SCALE, 100 * SCALE, -2000, 300, 6 * SCALE),
        ],
    };
    flock.update(&cfg);
    assert_eq!(flock.boids[0].velocity.x, 1000);
    assert_eq!(flock.boids[0].velocity.y, 500);
    assert_eq!(flock.boids[0].position.x, 100 * SCALE + 1000);
    assert_eq!(flock.boids[0].position.y, 100 * SCALE + 500);
    assert_eq!(flock.boids[1].velocity.x, -2000);
    assert_eq!(flock.boids[1].velocity.y, 300);
    assert_eq!(flock.boids[1].position.x, 105 * SCALE - 2000);
    assert_eq!(flock.boids[1].position.y, 100 * SCALE + 300);
}

#[test]
fn velocity_capped_at_max_speed() {
    let cfg = Config::default();
    let mut flock = Boids {
        boids: vec![boid_at(400 * SCALE, 300 * SCALE, 2_000_000, 0, 6 * SCALE)],
    };
    flock.update(&cfg);
    let v = flock.boids[0].velocity;
    assert_eq!(v.x, 5000);
    assert_eq!(v.y, 0);
}

#[test]
fn velocity_cap_leaves_at_most_one_step_of_slack() {
    let cfg = Config::default();
    let mut flock = Boids {
        boids: vec![boid_at(400 * SCALE, 300 * SCALE, 2_000_000, 2_000_000, 6 * SCALE)],
    };
    flock.update(&cfg);
    let v = flock.boids[0].velocity;
    let cap = cfg.boids.max_speed + 1;
    assert!(v.x * v.x + v.y * v.y < cap * cap);
    assert_eq!(v.x, 3535);
    assert_eq!(v.y, 3535);
}

#[test]
fn seeded_wall_bounce_reflects_and_jitters() {
    let cfg = Config::default();
    let radius = 6 * SCALE;
    // Approaching the right wall at (width - radius - 0.1, y) with
    // velocity (3, 0).
    let start_x = 800 * SCALE - radius - 100;
    let start_y = 300 * SCALE;
    macroquad::rand::srand(12345);
    let expected_jitter: i64 = macroquad::rand::gen_range(-SCALE, SCALE);
    macroquad::rand::srand(12345);
    let mut flock = Boids {
        boids: vec![boid_at(start_x, start_y, 3000, 0, radius)],
    };
    flock.update(&cfg);
    let b = &flock.boids[0];
    // The x-velocity reflects; the y-velocity changes by exactly the
    // seeded jitter value.
    assert_eq!(b.velocity.x, -3000);
    assert_eq!(b.velocity.y, expected_jitter);
    assert_eq!(b.position.x, start_x - 3000);
    assert_eq!(b.position.y, start_y + expected_jitter);
}

#[test]
fn wall_bounce_repeats_under_same_seed() {
    let cfg = Config::default();
    let radius = 6 * SCALE;
    let start = boid_at(800 * SCALE - radius - 100, 300 * SCALE, 3000, 0, radius);
    macroquad::rand::srand(777);
    let mut first = Boids { boids: vec![start] };
    first.update(&cfg);
    macroquad::rand::srand(777);
    let mut second = Boids { boids: vec![start] };
    second.update(&cfg);
    assert_eq!(first.boids[0], second.boids[0]);
}

#[test]
fn draw_geometry_exact() {
    let cfg = Config::default();
    let b = boid_at(100 * SCALE, 100 * SCALE, 1000, 0, 6 * SCALE);
    let s = b.draw(&cfg.boids);
    assert_eq!(s.tip, Vec2 { x: 112_000, y: 100_000 });
    assert_eq!(s.left, Vec2 { x: 95_758, y: 104_242 });
    assert_eq!(s.right, Vec2 { x: 95_758, y: 95_758 });
    assert_eq!(s.ring_center, Vec2 { x: 100_000, y: 100_000 });
    assert_eq!(s.ring_radius, 40 * SCALE);
    assert!(!s.ring);
}

#[test]
fn draw_resting_agent_points_along_x_axis() {
    let mut cfg = Config::default();
    cfg.boids.debug = true;
    let b = boid_at(100 * SCALE, 100 * SCALE, 0, 0, 6 * SCALE);
    let s = b.draw(&cfg.boids);
    // The heading of a zero velocity is angle zero.
    assert_eq!(s.tip, Vec2 { x: 112_000, y: 100_000 });
    assert!(s.ring);
}

#[test]
fn flock_draw_emits_one_shape_per_agent_in_order() {
    let cfg = Config::default();
    let flock = Boids {
        boids: vec![
            boid_at(100 * SCALE, 100 * SCALE, 1000, 0, 6 * SCALE),
            boid_at(200 * SCALE, 150 * SCALE, 0, 0, 6 * SCALE),
        ],
    };
    let shapes = flock.draw(&cfg);
    assert_eq!(shapes.len(), 2);
    assert_eq!(shapes[0].ring_center, Vec2 { x: 100_000, y: 100_000 });
    assert_eq!(shapes[1].ring_center, Vec2 { x: 200_000, y: 150_000 });
}

#[test]
fn close_pair_separates_under_default_strengths() {
    let cfg = Config::default();
    let mut flock = Boids {
        boids: vec![
            boid_at(100 * SCALE, 100 * SCALE, 0, 0, 6 * SCALE),
            boid_at(105 * SCALE, 100 * SCALE, 0, 0, 6 * SCALE),
        ],
    };
    flock.update(&cfg);
    // Separation (weighted 3.0) dominates cohesion (0.5): the steering is
    // capped at max_force and blended at 0.2, so each agent drifts apart
    // along x by the same amount.
    let v0 = flock.boids[0].velocity;
    let v1 = flock.boids[1].velocity;
    assert!(v0.x < 0);
    assert!(v1.x > 0);
    assert_eq!(v0.x, -v1.x);
    assert_eq!(v0.y, v1.y);
}

#[test]
fn corner_hit_reflects_both_components() {
    let cfg = Config::default();
    let radius = 6 * SCALE;
    macroquad::rand::srand(99);
    let j1: i64 = macroquad::rand::gen_range(-SCALE, SCALE);
    let j2: i64 = macroquad::rand::gen_range(-SCALE, SCALE);
    macroquad::rand::srand(99);
    let start_x = 800 * SCALE - radius - 100;
    let start_y = 600 * SCALE - radius - 100;
    let mut flock = Boids {
        boids: vec![boid_at(start_x, start_y, 3000, 3000, radius)],
    };
    flock.update(&cfg);
    let b = &flock.boids[0];
    // x-wall first: vx = -3000, vy = 3000 + j1; then y-wall: vy negated,
    // vx jittered by j2.
    assert_eq!(b.velocity.x, -3000 + j2);
    assert_eq!(b.velocity.y, -(3000 + j1));
}
