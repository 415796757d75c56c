use collisions::arena::Arena;
use collisions::particle::{Particle, Rgb, Vec2};
use collisions::sim::GameState;

fn quiet_arena() -> Arena {
    // Default geometry, but no acceleration and no resistance.
    Arena::new(1_280_000, 720_000, Vec2 { x: 0, y: 0 }, Vec2 { x: 0, y: 0 }, 1_000).unwrap()
}

fn ball(x: i64, y: i64, vx: i64, vy: i64, rad: i64, mass: i64) -> Particle {
    Particle::new(
        Vec2 { x, y },
        Vec2 { x: vx, y: vy },
        rad,
        mass,
        Rgb { r: 10, g: 20, b: 30 },
    )
}

#[test]
fn free_flight_one_tick() {
    let p = ball(640_000, 360_000, 10_000, 0, 10_000, 1_000);
    let mut gs = GameState::with_particles(vec![p], quiet_arena()).unwrap();
    gs.step(100);
    let q = gs.particle(0);
    assert_eq!(q.pos, Vec2 { x: 641_000, y: 360_000 });
    assert_eq!(q.vel, Vec2 { x: 10_000, y: 0 });
}

#[test]
fn left_wall_bounce() {
    let p = ball(5_000, 360_000, -20_000, 0, 10_000, 1_000);
    let mut gs = GameState::with_particles(vec![p], quiet_arena()).unwrap();
    gs.step(100);
    let q = gs.particle(0);
    assert_eq!(q.vel.x, 20_000);
    assert_eq!(q.pos.x, 7_000);
}

#[test]
fn head_on_equal_mass_swap() {
    let p1 = ball(100_000, 360_000, 10_000, 0, 10_000, 1_000);
    let p2 = ball(115_000, 360_000, -10_000, 0, 10_000, 1_000);
    let mut gs = GameState::with_particles(vec![p1, p2], quiet_arena()).unwrap();
    gs.handle_collisions();
    assert_eq!(gs.particle(0).vel, Vec2 { x: -10_000, y: 0 });
    assert_eq!(gs.particle(1).vel, Vec2 { x: 10_000, y: 0 });
}

#[test]
fn head_on_unequal_mass() {
    let p1 = ball(100_000, 360_000, 10_000, 0, 10_000, 1_000);
    let p2 = ball(115_000, 360_000, -10_000, 0, 10_000, 2_000);
    let mut gs = GameState::with_particles(vec![p1, p2], quiet_arena()).unwrap();
    gs.handle_collisions();
    assert_eq!(gs.particle(0).vel.x, -15_000);
    assert_eq!(gs.particle(1).vel.x, 5_000);
}

#[test]
fn single_particle_never_collides() {
    // A population of one never enters the collision branch: the particle
    // behaves exactly as in free flight.
    let p = ball(640_000, 360_000, 10_000, 0, 10_000, 1_000);
    let mut gs = GameState::with_particles(vec![p], quiet_arena()).unwrap();
    gs.step(100);
    let q = gs.particle(0);
    assert_eq!(q.pos, Vec2 { x: 641_000, y: 360_000 });
    assert_eq!(q.vel, Vec2 { x: 10_000, y: 0 });
    assert_eq!(q.color, Rgb { r: 10, g: 20, b: 30 });
}

#[test]
fn containment_under_defaults_long_run() {
    // Twenty particles under the shipped defaults, 10000 steps of 1/60 s:
    // every particle stays within one radius of the arena.
    let arena = Arena::default();
    let mut particles = Vec::new();
    for k in 0..20i64 {
        let rad = 8_000 + (k % 5) * 1_000;
        let x = 100_000 + (k % 5) * 250_000;
        let y = 120_000 + (k / 5) * 140_000;
        let vx = -79_000 + k * 7_900;
        let vy = 60_000 - k * 6_000;
        particles.push(ball(x, y, vx, vy, rad, 1_000 + (k as i64 * 12) % 250));
    }
    let mut gs = GameState::with_particles(particles, arena).unwrap();
    for _ in 0..10_000 {
        gs.step(17);
    }
    for k in 0..gs.num_particles() {
        let p = gs.particle(k);
        assert!(-p.rad <= p.pos.x && p.pos.x <= 1_280_000 + p.rad);
        assert!(-p.rad <= p.pos.y && p.pos.y <= 720_000 + p.rad);
    }
}
