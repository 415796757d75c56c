use vstd::prelude::*;
use crate::fp::{COORD_CAP, SCALE, abs64, abs_i, div_t};
use crate::arena::{Arena, ConfigError, DT_CAP, NUM_PARTICLES};
use crate::particle::{Particle, Rgb, Vec2, dist_sq, is_colliding_spec, update_spec};
use crate::collide::{collide, collide_spec, collision_color, collision_color_spec};
use crate::rng::{log_collision, rand_in_range};

verus! {

/// The effect of one pair visit of the sweep: a touching pair takes the
/// collision response on its velocities and both partners adopt the
/// collision color (kept when a speed is zero); any other pair is left
/// alone. Positions, radii and masses never change here.
pub open spec fn pair_step(s: Seq<Particle>, e: int, i: int, j: int) -> Seq<Particle> {
    let a = s[i];
    let b = s[j];
    if is_colliding_spec(a, b) {
        let vs = collide_spec(a.vel, b.vel, a.mass as int, b.mass as int, e);
        let ca = match collision_color_spec(vs.0, vs.1) {
            Some(col) => col,
            None => a.color,
        };
        let cb = match collision_color_spec(vs.0, vs.1) {
            Some(col) => col,
            None => b.color,
        };
        s.update(i, Particle { pos: a.pos, vel: vs.0, rad: a.rad, mass: a.mass, color: ca }).update(
            j,
            Particle { pos: b.pos, vel: vs.1, rad: b.rad, mass: b.mass, color: cb },
        )
    } else {
        s
    }
}

/// The pair sweep from position `(i, j)` on: all remaining unordered pairs
/// in lexicographic order, each seeing the velocities already updated by
/// earlier pairs.
pub open spec fn sweep_from(s: Seq<Particle>, e: int, i: int, j: int) -> Seq<Particle>
    decreases s.len() - i, s.len() + 1 - j,
{
    if s.len() < 2 || i < 0 || i >= s.len() - 1 || j <= i {
        s
    } else if j >= s.len() {
        sweep_from(s, e, i + 1, i + 2)
    } else {
        sweep_from(pair_step(s, e, i, j), e, i, j + 1)
    }
}

/// The whole collision phase.
pub open spec fn sweep(s: Seq<Particle>, e: int) -> Seq<Particle> {
    sweep_from(s, e, 0, 1)
}

/// The integration phase: every particle advanced independently.
pub open spec fn move_all(s: Seq<Particle>, a: Arena, dt: int) -> Seq<Particle> {
    Seq::new(s.len(), |k: int| update_spec(s[k], a, dt))
}

/// One whole tick: collisions first, then integration.
pub open spec fn step_spec(s: Seq<Particle>, a: Arena, dt: int) -> Seq<Particle> {
    move_all(sweep(s, a.restitution as int), a, dt)
}

/// The fixed color palette of the initializer.
pub open spec fn palette_spec(k: int) -> Rgb {
    if k == 0 {
        Rgb { r: 170, g: 216, b: 211 }
    } else if k == 1 {
        Rgb { r: 50, g: 175, b: 230 }
    } else if k == 2 {
        Rgb { r: 0, g: 173, b: 181 }
    } else if k == 3 {
        Rgb { r: 10, g: 17, b: 200 }
    } else if k == 4 {
        Rgb { r: 150, g: 150, b: 20 }
    } else if k == 5 {
        Rgb { r: 0, g: 90, b: 45 }
    } else {
        Rgb { r: 200, g: 100, b: 50 }
    }
}

/// Membership in the palette.
pub open spec fn is_palette_color(c: Rgb) -> bool {
    exists|k: int| 0 <= k < 7 && c == palette_spec(k)
}

/// The palette entry at `k`.
pub fn palette_color(k: usize) -> (r: Rgb)
    requires
        k < 7,
    ensures
        r == palette_spec(k as int),
        is_palette_color(r),
{
    let c = if k == 0 {
        Rgb { r: 170, g: 216, b: 211 }
    } else if k == 1 {
        Rgb { r: 50, g: 175, b: 230 }
    } else if k == 2 {
        Rgb { r: 0, g: 173, b: 181 }
    } else if k == 3 {
        Rgb { r: 10, g: 17, b: 200 }
    } else if k == 4 {
        Rgb { r: 150, g: 150, b: 20 }
    } else if k == 5 {
        Rgb { r: 0, g: 90, b: 45 }
    } else {
        Rgb { r: 200, g: 100, b: 50 }
    };
    proof {
        assert(c == palette_spec(k as int));
    }
    c
}

/// The simulation kernel: a fixed population of particles inside an arena,
/// advanced one tick at a time.
pub struct GameState {
    pub particles: Vec<Particle>,
    pub arena: Arena,
}

impl GameState {
    /// The kernel invariant: a valid arena and valid particles.
    pub open spec fn wf(self) -> bool {
        &&& self.arena.valid()
        &&& forall|k: int|
            0 <= k < self.particles@.len() ==> (#[trigger] self.particles@[k]).valid()
    }

    /// A randomized population under the shipped constants: radii in
    /// `[7.5, 12.5)` px, masses in `[1.0, 1.25)`, palette colors, positions
    /// fully inside the arena, velocities in `[-80, 80)` px/s per axis.
    pub fn new() -> (r: GameState)
        ensures
            r.wf(),
            r.arena == Arena::default_spec(),
            r.particles@.len() == NUM_PARTICLES,
            forall|k: int|
                0 <= k < r.particles@.len() ==> {
                    let p = #[trigger] r.particles@[k];
                    &&& 7_500 <= p.rad < 12_500
                    &&& 1_000 <= p.mass < 1_250
                    &&& p.rad <= p.pos.x < r.arena.width - p.rad
                    &&& p.rad <= p.pos.y < r.arena.height - p.rad
                    &&& -80_000 <= p.vel.x < 80_000
                    &&& -80_000 <= p.vel.y < 80_000
                    &&& is_palette_color(p.color)
                },
    {
        let arena = Arena::default();
        let mut particles: Vec<Particle> = Vec::new();
        let mut k: usize = 0;
        while k < NUM_PARTICLES
            invariant
                k <= NUM_PARTICLES,
                particles@.len() == k,
                arena == Arena::default_spec(),
                forall|l: int|
                    0 <= l < particles@.len() ==> {
                        let p = #[trigger] particles@[l];
                        &&& p.valid()
                        &&& 7_500 <= p.rad < 12_500
                        &&& 1_000 <= p.mass < 1_250
                        &&& p.rad <= p.pos.x < arena.width - p.rad
                        &&& p.rad <= p.pos.y < arena.height - p.rad
                        &&& -80_000 <= p.vel.x < 80_000
                        &&& -80_000 <= p.vel.y < 80_000
                        &&& is_palette_color(p.color)
                    },
            decreases NUM_PARTICLES - k,
        {
            let rad = rand_in_range(7_500, 12_500);
            let mass = rand_in_range(1_000, 1_250);
            let cidx = rand_in_range(0, 7);
            let color = palette_color(cidx as usize);
            let x = rand_in_range(rad, arena.width - rad);
            let y = rand_in_range(rad, arena.height - rad);
            let vx = rand_in_range(-80_000, 80_000);
            let vy = rand_in_range(-80_000, 80_000);
            particles.push(
                Particle::new(Vec2 { x, y }, Vec2 { x: vx, y: vy }, rad, mass, color),
            );
            k += 1;
        }
        GameState { particles, arena }
    }

    /// A population given from outside; rejected unless the arena and every
    /// particle satisfy their invariants.
    pub fn with_particles(particles: Vec<Particle>, arena: Arena) -> (r: Result<
        GameState,
        ConfigError,
    >)
        ensures
            r is Ok <==> arena.valid() && (forall|k: int|
                0 <= k < particles@.len() ==> (#[trigger] particles@[k]).valid()),
            r is Ok ==> r->Ok_0.particles@ == particles@ && r->Ok_0.arena == arena
                && r->Ok_0.wf(),
            r is Err && !arena.valid() ==> r->Err_0 == ConfigError::InvalidArena,
            r is Err && arena.valid() ==> r->Err_0 == ConfigError::InvalidParticle,
    {
        if !arena.is_valid() {
            return Err(ConfigError::InvalidArena);
        }
        let n = particles.len();
        let mut k: usize = 0;
        while k < n
            invariant
                k <= n,
                n == particles@.len(),
                arena.valid(),
                forall|l: int| 0 <= l < k ==> (#[trigger] particles@[l]).valid(),
            decreases n - k,
        {
            if !particles[k].is_valid() {
                return Err(ConfigError::InvalidParticle);
            }
            k += 1;
        }
        Ok(GameState { particles, arena })
    }

    /// Runtime check of the kernel invariant, for unverified drivers that
    /// must test `step`'s precondition.
    pub fn is_wf(&self) -> (r: bool)
        ensures
            r == self.wf(),
    {
        if !self.arena.is_valid() {
            return false;
        }
        let n = self.particles.len();
        let mut k: usize = 0;
        while k < n
            invariant
                k <= n,
                n == self.particles@.len(),
                self.arena.valid(),
                forall|l: int| 0 <= l < k ==> (#[trigger] self.particles@[l]).valid(),
            decreases n - k,
        {
            if !self.particles[k].is_valid() {
                return false;
            }
            k += 1;
        }
        true
    }

    /// How many particles the kernel owns.
    pub fn num_particles(&self) -> (r: usize)
        ensures
            r == self.particles@.len(),
    {
        self.particles.len()
    }

    /// Read-only snapshot of one particle, for a renderer.
    pub fn particle(&self, k: usize) -> (r: Particle)
        requires
            k < self.particles@.len(),
        ensures
            r == self.particles@[k as int],
    {
        self.particles[k]
    }

    /// The collision phase: visits all unordered pairs `(i, j)` with
    /// `i < j` in lexicographic order; a pair updated earlier is seen by
    /// later pairs with its already updated velocity.
    pub fn handle_collisions(&mut self)
        requires
            old(self).wf(),
        ensures
            final(self).arena == old(self).arena,
            final(self).particles@ == sweep(
                old(self).particles@,
                old(self).arena.restitution as int,
            ),
            final(self).particles@.len() == old(self).particles@.len(),
            final(self).wf(),
    {
        let ghost s0 = self.particles@;
        let ghost e = self.arena.restitution as int;
        let n = self.particles.len();
        if n < 2 {
            proof {
                assert(sweep_from(s0, e, 0, 1) == s0);
            }
            return ;
        }
        let mut i: usize = 0;
        while i < n - 1
            invariant
                self.arena == old(self).arena,
                self.arena.valid(),
                e == self.arena.restitution as int,
                n == self.particles@.len(),
                2 <= n,
                i <= n - 1,
                sweep_from(s0, e, 0, 1) == sweep_from(self.particles@, e, i as int, i as int + 1),
                forall|k: int|
                    0 <= k < self.particles@.len() ==> (#[trigger] self.particles@[k]).valid(),
            decreases n - i,
        {
            let mut j: usize = i + 1;
            while j < n
                invariant
                    self.arena == old(self).arena,
                    self.arena.valid(),
                    e == self.arena.restitution as int,
                    n == self.particles@.len(),
                    2 <= n,
                    i < n - 1,
                    i + 1 <= j <= n,
                    sweep_from(s0, e, 0, 1) == sweep_from(self.particles@, e, i as int, j as int),
                    forall|k: int|
                        0 <= k < self.particles@.len() ==> (#[trigger] self.particles@[k]).valid(),
                decreases n - j,
            {
                let ghost prev = self.particles@;
                let pi = self.particles[i];
                let pj = self.particles[j];
                if pi.is_colliding(&pj) {
                    let d = pi.distance(&pj);
                    let dm = abs64(d);
                    log_collision(dm / 1000, dm % 1000);
                    let vs = collide(pi.vel, pj.vel, pi.mass, pj.mass, self.arena.restitution);
                    let c = collision_color(vs.0, vs.1);
                    let ci = match c {
                        Some(col) => col,
                        None => pi.color,
                    };
                    let cj = match c {
                        Some(col) => col,
                        None => pj.color,
                    };
                    self.particles.set(
                        i,
                        Particle { pos: pi.pos, vel: vs.0, rad: pi.rad, mass: pi.mass, color: ci },
                    );
                    self.particles.set(
                        j,
                        Particle { pos: pj.pos, vel: vs.1, rad: pj.rad, mass: pj.mass, color: cj },
                    );
                    proof {
                        assert(self.particles@ == pair_step(prev, e, i as int, j as int));
                    }
                } else {
                    proof {
                        assert(self.particles@ == pair_step(prev, e, i as int, j as int));
                    }
                }
                proof {
                    assert(sweep_from(prev, e, i as int, j as int) == sweep_from(
                        self.particles@,
                        e,
                        i as int,
                        j as int + 1,
                    ));
                }
                j += 1;
            }
            proof {
                assert(sweep_from(self.particles@, e, i as int, j as int) == sweep_from(
                    self.particles@,
                    e,
                    i as int + 1,
                    i as int + 2,
                ));
            }
            i += 1;
        }
        proof {
            assert(sweep_from(self.particles@, e, i as int, i as int + 1) == self.particles@);
        }
    }

    /// The integration phase: every particle advanced by `dt` in index
    /// order.
    pub fn handle_movement(&mut self, dt: i64)
        requires
            old(self).wf(),
            0 <= dt <= DT_CAP,
        ensures
            final(self).arena == old(self).arena,
            final(self).particles@ == move_all(old(self).particles@, old(self).arena, dt as int),
            final(self).wf(),
    {
        let n = self.particles.len();
        let mut k: usize = 0;
        while k < n
            invariant
                self.arena == old(self).arena,
                self.arena.valid(),
                0 <= dt <= DT_CAP,
                n == self.particles@.len(),
                n == old(self).particles@.len(),
                k <= n,
                forall|l: int|
                    0 <= l < k ==> #[trigger] self.particles@[l] == update_spec(
                        old(self).particles@[l],
                        old(self).arena,
                        dt as int,
                    ),
                forall|l: int|
                    k <= l < n ==> #[trigger] self.particles@[l] == old(self).particles@[l],
                forall|l: int|
                    0 <= l < self.particles@.len() ==> (#[trigger] self.particles@[l]).valid(),
            decreases n - k,
        {
            let mut p = self.particles[k];
            p.update(&self.arena, dt);
            self.particles.set(k, p);
            k += 1;
        }
        proof {
            assert(self.particles@ =~= move_all(old(self).particles@, old(self).arena, dt as int));
        }
    }

    /// One tick: resolve collisions on current positions, then integrate
    /// every particle with its just-updated velocity. Radii and masses are
    /// unchanged and every particle stays representable.
    pub fn step(&mut self, dt: i64)
        requires
            old(self).wf(),
            0 <= dt <= DT_CAP,
        ensures
            final(self).arena == old(self).arena,
            final(self).particles@ == step_spec(
                old(self).particles@,
                old(self).arena,
                dt as int,
            ),
            final(self).particles@.len() == old(self).particles@.len(),
            forall|k: int|
                0 <= k < old(self).particles@.len() ==> {
                    let p = #[trigger] final(self).particles@[k];
                    &&& p.rad == old(self).particles@[k].rad
                    &&& p.mass == old(self).particles@[k].mass
                    &&& p.valid()
                },
            final(self).wf(),
    {
        proof {
            lemma_sweep_preserves_shape(
                old(self).particles@,
                old(self).arena.restitution as int,
                0,
                1,
            );
        }
        self.handle_collisions();
        self.handle_movement(dt);
    }
}

/// The sweep never changes the population size nor any position, radius or
/// mass, and it keeps every particle valid.
pub proof fn lemma_sweep_preserves_shape(s: Seq<Particle>, e: int, i: int, j: int)
    ensures
        sweep_from(s, e, i, j).len() == s.len(),
        forall|k: int|
            0 <= k < s.len() ==> {
                let p = #[trigger] sweep_from(s, e, i, j)[k];
                &&& p.pos == s[k].pos
                &&& p.rad == s[k].rad
                &&& p.mass == s[k].mass
            },
        (forall|k: int| 0 <= k < s.len() ==> (#[trigger] s[k]).valid()) ==> (forall|k: int|
            0 <= k < s.len() ==> (#[trigger] sweep_from(s, e, i, j)[k]).valid()),
    decreases s.len() - i, s.len() + 1 - j,
{
    if s.len() < 2 || i < 0 || i >= s.len() - 1 || j <= i {
    } else if j >= s.len() {
        lemma_sweep_preserves_shape(s, e, i + 1, i + 2);
    } else {
        lemma_pair_step_preserves_shape(s, e, i, j);
        lemma_sweep_preserves_shape(pair_step(s, e, i, j), e, i, j + 1);
    }
}

/// No other particle touches particle `k`.
pub open spec fn untouched(s: Seq<Particle>, k: int) -> bool {
    forall|l: int| 0 <= l < s.len() && l != k ==> !is_colliding_spec(s[k], #[trigger] s[l])
}

/// A particle that touches nobody comes out of the sweep unchanged.
pub proof fn lemma_sweep_skips_untouched(s: Seq<Particle>, e: int, i: int, j: int, k: int)
    requires
        0 <= k < s.len(),
        untouched(s, k),
    ensures
        sweep_from(s, e, i, j)[k] == s[k],
    decreases s.len() - i, s.len() + 1 - j,
{
    if s.len() < 2 || i < 0 || i >= s.len() - 1 || j <= i {
    } else if j >= s.len() {
        lemma_sweep_skips_untouched(s, e, i + 1, i + 2, k);
    } else {
        let t = pair_step(s, e, i, j);
        lemma_pair_step_preserves_shape(s, e, i, j);
        if i == k || j == k {
            crate::particle::lemma_is_colliding_symmetric(s[i], s[j]);
            assert(!is_colliding_spec(s[i], s[j]));
            assert(t == s);
        } else {
            assert(t[k] == s[k]);
        }
        assert forall|l: int| 0 <= l < t.len() && l != k implies !is_colliding_spec(
            t[k],
            #[trigger] t[l],
        ) by {
            assert(t[l].pos == s[l].pos && t[l].rad == s[l].rad);
            assert(dist_sq(t[k], t[l]) == dist_sq(s[k], s[l]));
        }
        lemma_sweep_skips_untouched(t, e, i, j + 1, k);
    }
}

/// Free flight: a particle that touches neither another particle nor a
/// wall, and whose advance stays inside the representable range, moves by
/// exactly `vel * dt` and gains exactly `(accel - vel^2 * resist) * dt`.
pub proof fn lemma_step_free_flight(s: Seq<Particle>, a: Arena, dt: int, k: int)
    requires
        0 <= k < s.len(),
        untouched(s, k),
        s[k].pos.x - s[k].rad >= 0,
        s[k].pos.x + s[k].rad <= a.width,
        s[k].pos.y - s[k].rad >= 0,
        s[k].pos.y + s[k].rad <= a.height,
        abs_i(s[k].pos.x + div_t(s[k].vel.x * dt, SCALE as int)) <= COORD_CAP,
        abs_i(s[k].pos.y + div_t(s[k].vel.y * dt, SCALE as int)) <= COORD_CAP,
        abs_i(
            s[k].vel.x + div_t(
                (a.accel.x - div_t(s[k].vel.x * s[k].vel.x * a.resist.x, SCALE as int * SCALE as int))
                    * dt,
                SCALE as int,
            ),
        ) <= COORD_CAP,
        abs_i(
            s[k].vel.y + div_t(
                (a.accel.y - div_t(s[k].vel.y * s[k].vel.y * a.resist.y, SCALE as int * SCALE as int))
                    * dt,
                SCALE as int,
            ),
        ) <= COORD_CAP,
    ensures
        step_spec(s, a, dt)[k].pos.x == s[k].pos.x + div_t(s[k].vel.x * dt, SCALE as int),
        step_spec(s, a, dt)[k].pos.y == s[k].pos.y + div_t(s[k].vel.y * dt, SCALE as int),
        step_spec(s, a, dt)[k].vel.x == s[k].vel.x + div_t(
            (a.accel.x - div_t(s[k].vel.x * s[k].vel.x * a.resist.x, SCALE as int * SCALE as int))
                * dt,
            SCALE as int,
        ),
        step_spec(s, a, dt)[k].vel.y == s[k].vel.y + div_t(
            (a.accel.y - div_t(s[k].vel.y * s[k].vel.y * a.resist.y, SCALE as int * SCALE as int))
                * dt,
            SCALE as int,
        ),
    {
    let e = a.restitution as int;
    lemma_sweep_skips_untouched(s, e, 0, 1, k);
    lemma_sweep_preserves_shape(s, e, 0, 1);
    let w = sweep(s, e);
    assert(step_spec(s, a, dt)[k] == update_spec(w[k], a, dt));
    assert(w[k] == s[k]);
}

/// One pair visit keeps size, positions, radii, masses and validity.
proof fn lemma_pair_step_preserves_shape(s: Seq<Particle>, e: int, i: int, j: int)
    requires
        0 <= i < s.len(),
        0 <= j < s.len(),
    ensures
        pair_step(s, e, i, j).len() == s.len(),
        forall|k: int|
            0 <= k < s.len() ==> {
                let p = #[trigger] pair_step(s, e, i, j)[k];
                &&& p.pos == s[k].pos
                &&& p.rad == s[k].rad
                &&& p.mass == s[k].mass
            },
        (forall|k: int| 0 <= k < s.len() ==> (#[trigger] s[k]).valid()) ==> (forall|k: int|
            0 <= k < s.len() ==> (#[trigger] pair_step(s, e, i, j)[k]).valid()),
{
}

} // verus!
