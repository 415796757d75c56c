use collisions::arena::Arena;
use collisions::collide::{collide, collision_color};
use collisions::particle::{Particle, Rgb, Vec2};
use collisions::sim::GameState;

fn ball(x: i64, y: i64, vx: i64, vy: i64, rad: i64, mass: i64) -> Particle {
    Particle::new(
        Vec2 { x, y },
        Vec2 { x: vx, y: vy },
        rad,
        mass,
        Rgb { r: 1, g: 2, b: 3 },
    )
}

#[test]
fn radius_and_mass_survive_steps() {
    let mut gs = GameState::new();
    let before: Vec<(i64, i64)> = (0..gs.num_particles())
        .map(|k| (gs.particle(k).rad, gs.particle(k).mass))
        .collect();
    for _ in 0..100 {
        gs.step(17);
    }
    assert_eq!(gs.num_particles(), 20);
    for k in 0..gs.num_particles() {
        let p = gs.particle(k);
        assert_eq!((p.rad, p.mass), before[k]);
        assert!(p.rad > 0 && p.mass > 0);
        assert!(p.pos.x.abs() <= 10_000_000_000 && p.pos.y.abs() <= 10_000_000_000);
        assert!(p.vel.x.abs() <= 10_000_000_000 && p.vel.y.abs() <= 10_000_000_000);
    }
}

#[test]
fn free_flight_relation_with_resistance() {
    // Mid-arena, no wall, no partner: the update is exactly
    // pos + vel * dt and vel + (accel - vel^2 * resist) * dt.
    let arena = Arena::new(
        1_280_000,
        720_000,
        Vec2 { x: -1_000, y: 2_000 },
        Vec2 { x: 100, y: 100 },
        1_000,
    )
    .unwrap();
    let p = ball(640_000, 360_000, 10_000, 5_000, 10_000, 1_000);
    let mut gs = GameState::with_particles(vec![p], arena).unwrap();
    gs.step(100);
    let q = gs.particle(0);
    assert_eq!(q.pos, Vec2 { x: 641_000, y: 360_500 });
    assert_eq!(q.vel, Vec2 { x: 8_900, y: 4_950 });
}

#[test]
fn left_wall_flips_velocity_nonnegative() {
    // Past the left wall with restitution one half: the reflected component
    // is nonnegative even though the incoming one was negative.
    let arena = Arena::new(1_280_000, 720_000, Vec2 { x: 0, y: 0 }, Vec2 { x: 0, y: 0 }, 500)
        .unwrap();
    let p = ball(5_000, 360_000, -20_000, 0, 10_000, 1_000);
    let mut gs = GameState::with_particles(vec![p], arena).unwrap();
    gs.step(100);
    let q = gs.particle(0);
    assert!(q.vel.x >= 0);
    assert_eq!(q.vel.x, 10_000);
}

#[test]
fn swap_of_equal_masses_swaps_results() {
    let u1 = Vec2 { x: 12_000, y: -7_000 };
    let u2 = Vec2 { x: -3_000, y: 9_500 };
    let ab = collide(u1, u2, 1_100, 1_100, 700);
    let ba = collide(u2, u1, 1_100, 1_100, 700);
    assert_eq!(ab.0, ba.1);
    assert_eq!(ab.1, ba.0);
}

#[test]
fn color_is_function_of_velocities() {
    let v1 = Vec2 { x: 3_000, y: 4_000 };
    let v2 = Vec2 { x: -6_000, y: 8_000 };
    let once = collision_color(v1, v2);
    let again = collision_color(Vec2 { x: 3_000, y: 4_000 }, Vec2 { x: -6_000, y: 8_000 });
    assert!(once.is_some());
    assert_eq!(once, again);
}

#[test]
fn colliding_predicate_symmetric() {
    let a = ball(100_000, 360_000, 0, 0, 10_000, 1_000);
    let b = ball(120_400, 360_000, 0, 0, 10_000, 1_000);
    assert_eq!(a.is_colliding(&b), b.is_colliding(&a));
    assert!(a.is_colliding(&b));
    let c = ball(220_000, 360_000, 0, 0, 10_000, 1_000);
    assert_eq!(a.is_colliding(&c), c.is_colliding(&a));
    assert!(!a.is_colliding(&c));
}
