use collisions::arena::{Arena, ConfigError};
use collisions::collide::{collide, collision_color};
use collisions::particle::{Particle, Rgb, Vec2};
use collisions::sim::{GameState, palette_color};

fn ball(x: i64, y: i64, vx: i64, vy: i64, rad: i64, mass: i64) -> Particle {
    Particle::new(
        Vec2 { x, y },
        Vec2 { x: vx, y: vy },
        rad,
        mass,
        Rgb { r: 9, g: 9, b: 9 },
    )
}

#[test]
fn distance_is_euclidean() {
    let a = ball(100_000, 360_000, 0, 0, 10_000, 1_000);
    let b = ball(115_000, 360_000, 0, 0, 10_000, 1_000);
    assert_eq!(a.distance(&b), 15_000);
    let c = ball(103_000, 364_000, 0, 0, 10_000, 1_000);
    assert_eq!(a.distance(&c), 5_000);
}

#[test]
fn vel_magnitude_is_euclidean() {
    let a = ball(100_000, 360_000, 3_000, 4_000, 10_000, 1_000);
    assert_eq!(a.vel_magnitude(), 5_000);
    let b = ball(100_000, 360_000, 0, 0, 10_000, 1_000);
    assert_eq!(b.vel_magnitude(), 0);
}

#[test]
fn colliding_slack_boundary() {
    // Radius sum 20000; the half-pixel slack admits 20500 and refuses 20501.
    let a = ball(100_000, 360_000, 0, 0, 10_000, 1_000);
    let touch = ball(120_500, 360_000, 0, 0, 10_000, 1_000);
    let apart = ball(120_501, 360_000, 0, 0, 10_000, 1_000);
    assert!(a.is_colliding(&touch));
    assert!(!a.is_colliding(&apart));
}

#[test]
fn collision_color_exact_value() {
    // Speeds 5000 and 10000; every channel is floor(0.48 * 256) = 122.
    let v1 = Vec2 { x: 3_000, y: 4_000 };
    let v2 = Vec2 { x: 6_000, y: 8_000 };
    assert_eq!(collision_color(v1, v2), Some(Rgb { r: 122, g: 122, b: 122 }));
}

#[test]
fn collision_color_zero_speed_guard() {
    let still = Vec2 { x: 0, y: 0 };
    let moving = Vec2 { x: 1_000, y: 0 };
    assert_eq!(collision_color(still, moving), None);
    assert_eq!(collision_color(moving, still), None);
}

#[test]
fn collide_keeps_still_pair_still() {
    // Both at rest: the formula returns zero velocities either way.
    let zero = Vec2 { x: 0, y: 0 };
    let r = collide(zero, zero, 1_000, 1_250, 1_000);
    assert_eq!(r.0, zero);
    assert_eq!(r.1, zero);
}

#[test]
fn arena_rejects_bad_constants() {
    let zero = Vec2 { x: 0, y: 0 };
    assert_eq!(
        Arena::new(0, 720_000, zero, zero, 1_000),
        Err(ConfigError::InvalidArena)
    );
    assert_eq!(
        Arena::new(1_280_000, 720_000, zero, zero, 1_001),
        Err(ConfigError::InvalidArena)
    );
    assert!(Arena::new(1_280_000, 720_000, zero, zero, 1_000).is_ok());
}

#[test]
fn with_particles_rejects_bad_input() {
    let zero = Vec2 { x: 0, y: 0 };
    let bad_arena = Arena {
        width: -5,
        height: 720_000,
        accel: zero,
        resist: zero,
        restitution: 1_000,
    };
    let p = ball(100_000, 100_000, 0, 0, 10_000, 1_000);
    match GameState::with_particles(vec![p], bad_arena) {
        Err(ConfigError::InvalidArena) => {}
        _ => panic!("expected an arena rejection"),
    }
    let bad = ball(100_000, 100_000, 0, 0, 0, 1_000);
    match GameState::with_particles(vec![bad], Arena::default()) {
        Err(ConfigError::InvalidParticle) => {}
        _ => panic!("expected a particle rejection"),
    }
}

#[test]
fn default_arena_constants() {
    let a = Arena::default();
    assert_eq!(a.width, 1_280_000);
    assert_eq!(a.height, 720_000);
    assert_eq!(a.accel, Vec2 { x: -1_000, y: 2_000 });
    assert_eq!(a.resist, Vec2 { x: 0, y: 0 });
    assert_eq!(a.restitution, 1_000);
}

#[test]
fn fresh_population_is_well_formed() {
    let gs = GameState::new();
    assert!(gs.is_wf());
}

#[test]
fn palette_entries() {
    assert_eq!(palette_color(0), Rgb { r: 170, g: 216, b: 211 });
    assert_eq!(palette_color(6), Rgb { r: 200, g: 100, b: 50 });
}

#[test]
fn randomized_population_is_in_range() {
    // Drives the rand-backed initializer: every sampled field must land in
    // its documented interval, and positions fully inside the arena.
    let gs = GameState::new();
    assert_eq!(gs.num_particles(), 20);
    let palette: Vec<Rgb> = (0..7).map(palette_color).collect();
    for k in 0..gs.num_particles() {
        let p = gs.particle(k);
        assert!((7_500..12_500).contains(&p.rad));
        assert!((1_000..1_250).contains(&p.mass));
        assert!(p.rad <= p.pos.x && p.pos.x < 1_280_000 - p.rad);
        assert!(p.rad <= p.pos.y && p.pos.y < 720_000 - p.rad);
        assert!((-80_000..80_000).contains(&p.vel.x));
        assert!((-80_000..80_000).contains(&p.vel.y));
        assert!(palette.contains(&p.color));
    }
}

#[test]
fn step_orders_collisions_before_movement() {
    // The pair collides, then moves with the new velocities: with e = 1 the
    // equal-mass pair swaps velocities and separates.
    let arena = Arena::new(
        1_280_000,
        720_000,
        Vec2 { x: 0, y: 0 },
        Vec2 { x: 0, y: 0 },
        1_000,
    )
    .unwrap();
    let p1 = ball(100_000, 360_000, 10_000, 0, 10_000, 1_000);
    let p2 = ball(115_000, 360_000, -10_000, 0, 10_000, 1_000);
    let mut gs = GameState::with_particles(vec![p1, p2], arena).unwrap();
    gs.step(100);
    // Velocities swapped first, then positions advanced with the new ones.
    assert_eq!(gs.particle(0).pos.x, 99_000);
    assert_eq!(gs.particle(1).pos.x, 116_000);
    assert_eq!(gs.particle(0).vel.x, -10_000);
    assert_eq!(gs.particle(1).vel.x, 10_000);
}
