use vstd::prelude::*;
use crate::geometry::{clamp_i64, shift, travel, travel_of};
use crate::utils::{rand, rand_between};

verus! {

/// Signed distance covered in `dt_ms` at velocity `v`, rounded towards zero.
pub open spec fn signed_travel(v: int, dt_ms: int) -> int {
    if v >= 0 {
        travel(v, dt_ms)
    } else {
        -travel(-v, dt_ms)
    }
}

/// Position `p` after moving at velocity `v` for `dt_ms`; the step and the
/// result are each held in `i64`.
pub open spec fn moved(p: int, v: int, dt_ms: int) -> int {
    clamp_i64(p + clamp_i64(signed_travel(v, dt_ms)))
}

/// Signed distance covered in `dt_ms` at velocity `v`, held in `i64`.
pub fn step_of(v: i64, dt_ms: u32) -> (r: i64)
    ensures
        r == clamp_i64(signed_travel(v as int, dt_ms as int)),
{
    let mag: u128 = if v >= 0 {
        travel_of(v as u64, dt_ms)
    } else {
        travel_of((-(v as i128)) as u64, dt_ms)
    };
    if v >= 0 {
        if mag > i64::MAX as u128 { i64::MAX } else { mag as i64 }
    } else {
        if mag > (i64::MAX as u128) + 1 { i64::MIN } else { (-(mag as i128)) as i64 }
    }
}

/// One of eight compass directions, as thousandths of a unit vector (index taken mod 8).
pub open spec fn compass(i: int) -> (int, int) {
    let k = i % 8;
    if k == 0 { (1000, 0) }
    else if k == 1 { (707, 707) }
    else if k == 2 { (0, 1000) }
    else if k == 3 { (-707, 707) }
    else if k == 4 { (-1000, 0) }
    else if k == 5 { (-707, -707) }
    else if k == 6 { (0, -1000) }
    else { (707, -707) }
}

pub fn compass_of(i: u64) -> (r: (i64, i64))
    ensures
        r.0 as int == compass(i as int).0,
        r.1 as int == compass(i as int).1,
        -1000 <= r.0 <= 1000,
        -1000 <= r.1 <= 1000,
{
    let k = i % 8;
    if k == 0 { (1000, 0) }
    else if k == 1 { (707, 707) }
    else if k == 2 { (0, 1000) }
    else if k == 3 { (-707, 707) }
    else if k == 4 { (-1000, 0) }
    else if k == 5 { (-707, -707) }
    else if k == 6 { (0, -1000) }
    else { (707, -707) }
}

/// An opaque color.
#[derive(Clone, Copy, Debug, PartialEq, Eq, Structural)]
pub struct Color {
    pub r: u8,
    pub g: u8,
    pub b: u8,
}

/// A short-lived decorative square that drifts, spins and shrinks away.
#[derive(Clone, Copy, Debug)]
pub struct Particle {
    pub x: i64,
    pub y: i64,
    pub vx: i64,
    pub vy: i64,
    pub rotation: i64,
    pub rotation_speed: i64,
    pub life_total: i64,
    pub life_left: i64,
    pub color: Color,
    pub size: i64,
}

impl Particle {
    pub fn new(
        x: i64,
        y: i64,
        vx: i64,
        vy: i64,
        rotation_speed: i64,
        life: i64,
        color: Color,
        size: i64,
    ) -> (r: Particle)
        ensures
            r == (Particle {
                x,
                y,
                vx,
                vy,
                rotation: 0,
                rotation_speed,
                life_total: life,
                life_left: life,
                color,
                size,
            }),
    {
        Particle { x, y, vx, vy, rotation: 0, rotation_speed, life_total: life, life_left: life, color, size }
    }

    /// The particle after `dt_ms`: moved, spun and aged.
    pub open spec fn advanced(self, dt_ms: int) -> Particle {
        Particle {
            x: moved(self.x as int, self.vx as int, dt_ms) as i64,
            y: moved(self.y as int, self.vy as int, dt_ms) as i64,
            rotation: moved(self.rotation as int, self.rotation_speed as int, dt_ms) as i64,
            life_left: clamp_i64(self.life_left - dt_ms) as i64,
            ..self
        }
    }

    /// Moves, spins and ages the particle by `dt_ms`.
    pub fn update(&mut self, dt_ms: u32)
        ensures
            *final(self) == old(self).advanced(dt_ms as int),
            final(self).x == moved(old(self).x as int, old(self).vx as int, dt_ms as int),
            final(self).y == moved(old(self).y as int, old(self).vy as int, dt_ms as int),
            final(self).rotation == moved(
                old(self).rotation as int,
                old(self).rotation_speed as int,
                dt_ms as int,
            ),
            final(self).life_left == clamp_i64(old(self).life_left - dt_ms),
            final(self).vx == old(self).vx,
            final(self).vy == old(self).vy,
            final(self).rotation_speed == old(self).rotation_speed,
            final(self).life_total == old(self).life_total,
            final(self).color == old(self).color,
            final(self).size == old(self).size,
    {
        self.x = shift(self.x, step_of(self.vx, dt_ms));
        self.y = shift(self.y, step_of(self.vy, dt_ms));
        self.rotation = shift(self.rotation, step_of(self.rotation_speed, dt_ms));
        self.life_left = shift(self.life_left, -(dt_ms as i64));
    }

    pub open spec fn is_dead_spec(&self) -> bool {
        self.life_left <= 0
    }

    pub fn is_dead(&self) -> (r: bool)
        ensures
            r == self.is_dead_spec(),
    {
        self.life_left <= 0
    }

    /// Drawing scale in thousandths: the share of its life the particle has left.
    pub fn scale_permille(&self) -> (r: i64)
        ensures
            (self.life_total > 0 && 0 <= self.life_left <= self.life_total) ==> r == self.life_left
                * 1000 / (self.life_total as int),
            !(self.life_total > 0 && 0 <= self.life_left <= self.life_total) ==> r == 0,
    {
        if self.life_total > 0 && 0 <= self.life_left && self.life_left <= self.life_total {
            proof {
                let (a, t) = (self.life_left as int, self.life_total as int);
                assert(a * 1000 <= t * 1000) by (nonlinear_arith)
                    requires a <= t;
                assert(a * 1000 / t <= 1000) by (nonlinear_arith)
                    requires a * 1000 <= t * 1000, t > 0;
                assert(a * 1000 / t >= 0) by (nonlinear_arith)
                    requires a >= 0, t > 0;
            }
            ((self.life_left as i128) * 1000 / (self.life_total as i128)) as i64
        } else {
            0
        }
    }
}

/// Holds of a particle with life left.
pub open spec fn lively() -> spec_fn(Particle) -> bool {
    |p: Particle| !p.is_dead_spec()
}

/// Advances every particle by `dt_ms`, then drops the dead ones, keeping the order of the rest.
pub fn update_particles(particles: &mut Vec<Particle>, dt_ms: u32)
    ensures
        final(particles)@ == old(particles)@.map_values(|p: Particle| p.advanced(dt_ms as int)).filter(
            lively(),
        ),
{
    let ghost upd = particles@.map_values(|p: Particle| p.advanced(dt_ms as int));
    let mut kept: Vec<Particle> = Vec::new();
    let mut j: usize = 0;
    while j < particles.len()
        invariant
            j <= particles@.len(),
            *particles == *old(particles),
            upd == particles@.map_values(|p: Particle| p.advanced(dt_ms as int)),
            kept@ == upd.subrange(0, j as int).filter(lively()),
        decreases particles@.len() - j,
    {
        let mut p = particles[j];
        p.update(dt_ms);
        if !p.is_dead() {
            kept.push(p);
        }
        proof {
            crate::utils::lemma_filter_step(upd, j as int, lively());
        }
        j = j + 1;
    }
    proof {
        assert(upd.subrange(0, j as int) =~= upd);
    }
    *particles = kept;
}

/// How a burst of particles looks: a base color with a random spread per channel,
/// a drift speed and a spin speed.
#[derive(Clone, Copy, Debug)]
pub struct BurstStyle {
    pub color_low: Color,
    pub color_high: Color,
    pub speed: i64,
    pub rotation_speed: i64,
    pub size_low: i64,
    pub size_high: i64,
    pub life_low: i64,
    pub life_high: i64,
}

/// Appends `count` particles at `(x, y)`, each with a random direction, spin sense,
/// color, size and life in the style's ranges.
pub fn spawn_burst(particles: &mut Vec<Particle>, count: usize, x: i64, y: i64, style: BurstStyle)
    requires
        style.color_low.r <= style.color_high.r,
        style.color_low.g <= style.color_high.g,
        style.color_low.b <= style.color_high.b,
        0 <= style.speed <= 1_000_000,
        0 <= style.rotation_speed <= 1_000_000,
        0 <= style.size_low <= style.size_high <= 1_000_000,
        0 <= style.life_low <= style.life_high <= 1_000_000,
    ensures
        final(particles)@.len() == old(particles)@.len() + count,
        final(particles)@.subrange(0, old(particles)@.len() as int) == old(particles)@,
        forall|i: int|
            old(particles)@.len() <= i < final(particles)@.len() ==> {
                let p = #[trigger] final(particles)@[i];
                &&& p.x == x && p.y == y
                &&& p.life_left == p.life_total
                &&& style.life_low <= p.life_total <= style.life_high
            },
{
    let start: Ghost<int> = Ghost(particles@.len() as int);
    let mut n: usize = 0;
    while n < count
        invariant
            particles@.len() == old(particles)@.len() + n,
            n <= count,
            style.color_low.r <= style.color_high.r,
            style.color_low.g <= style.color_high.g,
            style.color_low.b <= style.color_high.b,
            0 <= style.speed <= 1_000_000,
            0 <= style.rotation_speed <= 1_000_000,
            0 <= style.size_low <= style.size_high <= 1_000_000,
            0 <= style.life_low <= style.life_high <= 1_000_000,
            start@ == old(particles)@.len(),
            particles@.subrange(0, start@) == old(particles)@,
            forall|i: int|
                start@ <= i < particles@.len() ==> {
                    let p = #[trigger] particles@[i];
                    &&& p.x == x && p.y == y
                    &&& p.life_left == p.life_total
                    &&& style.life_low <= p.life_total <= style.life_high
                },
        decreases count - n,
    {
        let dir = compass_of(rand(7));
        proof {
            let (a, b, sp) = (dir.0 as int, dir.1 as int, style.speed as int);
            assert(-1_000_000_000 <= a * sp <= 1_000_000_000) by (nonlinear_arith)
                requires -1000 <= a <= 1000, 0 <= sp <= 1_000_000;
            assert(-1_000_000_000 <= b * sp <= 1_000_000_000) by (nonlinear_arith)
                requires -1000 <= b <= 1000, 0 <= sp <= 1_000_000;
        }
        let vx: i64 = dir.0 * style.speed / 1000;
        let vy: i64 = dir.1 * style.speed / 1000;
        let spin: i64 = if rand(1) == 0 { -style.rotation_speed } else { style.rotation_speed };
        let r = rand_between(style.color_low.r as u64, style.color_high.r as u64) as u8;
        let g = rand_between(style.color_low.g as u64, style.color_high.g as u64) as u8;
        let b = rand_between(style.color_low.b as u64, style.color_high.b as u64) as u8;
        let size = rand_between(style.size_low as u64, style.size_high as u64) as i64;
        let life = rand_between(style.life_low as u64, style.life_high as u64) as i64;
        particles.push(Particle::new(x, y, vx, vy, spin, life, Color { r, g, b }, size));
        proof {
            assert(particles@.subrange(0, start@) =~= old(particles)@);
        }
        n = n + 1;
    }
}

} // verus!
