use vstd::prelude::*;
use crate::geometry::{clamp_i64, shift, Rect};
use crate::particle::{spawn_burst, update_particles, BurstStyle, Color, Particle};
use crate::utils::rand;

verus! {

/// Milliseconds between two sparkles of a powerup lying on the ground.
pub const SPARKLE_PERIOD: u64 = 200;

/// Side of a powerup's hitbox.
pub const POWERUP_SIZE: i64 = 12_000;

/// What a powerup does once picked up. Durations are in milliseconds; a speed
/// multiplier is in thousandths.
#[derive(Clone, Copy, Debug, PartialEq, Eq, Structural)]
pub enum Powerups {
    PiercingBullet(u64, u8),
    SpeedBoost(u64, u64),
    Heal(u8),
    AmmoRestock(u32),
}

/// The powerup chosen by three rolls: `kind_roll` in `0..100` picks the kind
/// (a fifth piercing, three tenths speed, a fifth heal, three tenths ammo), the
/// other two pick its parameters.
pub open spec fn powerup_of_rolls(kind_roll: int, a: int, b: int) -> Powerups {
    if kind_roll < 20 {
        Powerups::PiercingBullet(((10 + a % 11) * 1000) as u64, (1 + b % 3) as u8)
    } else if kind_roll < 50 {
        Powerups::SpeedBoost(((15 + a % 6) * 1000) as u64, (1400 + 100 * (b % 3)) as u64)
    } else if kind_roll < 70 {
        Powerups::Heal((1 + a % 3) as u8)
    } else {
        Powerups::AmmoRestock((15 + a % 6) as u32)
    }
}

impl Powerups {
    pub fn from_rolls(kind_roll: u64, a: u64, b: u64) -> (r: Powerups)
        ensures
            r == powerup_of_rolls(kind_roll as int, a as int, b as int),
    {
        if kind_roll < 20 {
            Powerups::PiercingBullet((10 + a % 11) * 1000, (1 + b % 3) as u8)
        } else if kind_roll < 50 {
            Powerups::SpeedBoost((15 + a % 6) * 1000, 1400 + 100 * (b % 3))
        } else if kind_roll < 70 {
            Powerups::Heal((1 + a % 3) as u8)
        } else {
            Powerups::AmmoRestock((15 + a % 6) as u32)
        }
    }

    /// A powerup of a random kind, with random parameters.
    pub fn random() -> (r: Powerups)
        ensures
            exists|k: int, a: int, b: int|
                0 <= k < 100 && 0 <= a && 0 <= b && r == powerup_of_rolls(k, a, b),
    {
        let k = rand(99);
        let a = rand(1_000_000);
        let b = rand(1_000_000);
        let r = Powerups::from_rolls(k, a, b);
        assert(0 <= k < 100 && 0 <= a && 0 <= b && r == powerup_of_rolls(k as int, a as int, b as int));
        r
    }
}

/// Vertical offset of a bobbing powerup `t_ms` into the game: a triangle wave
/// of two seconds' period between minus and plus half a unit.
pub open spec fn bob_offset(t_ms: int) -> int {
    let p = t_ms % 2000;
    if p < 1000 {
        p - 500
    } else {
        1500 - p
    }
}

/// A powerup lying on the map.
pub struct Powerup {
    pub powerup: Powerups,
    pub hitbox: Rect,
    pub base_y: i64,
    pub particles: Vec<Particle>,
    pub time_since_last_particle: u64,
}

impl Powerup {
    pub fn new(powerup: Powerups, x: i64, y: i64) -> (r: Powerup)
        ensures
            r.powerup == powerup,
            r.hitbox == (Rect { x, y, w: POWERUP_SIZE, h: POWERUP_SIZE }),
            r.base_y == y,
            r.particles@.len() == 0,
            r.time_since_last_particle == 0,
    {
        Powerup {
            powerup,
            hitbox: Rect::new(x, y, POWERUP_SIZE, POWERUP_SIZE),
            base_y: y,
            particles: Vec::new(),
            time_since_last_particle: 0,
        }
    }

    /// Bobs the powerup for the game time `time_passed_ms` and lets it sparkle
    /// once every `SPARKLE_PERIOD`.
    pub fn update(&mut self, time_passed_ms: u64, dt_ms: u32)
        ensures
            final(self).powerup == old(self).powerup,
            final(self).base_y == old(self).base_y,
            final(self).hitbox == (Rect {
                y: clamp_i64(old(self).base_y + bob_offset(time_passed_ms as int)) as i64,
                ..old(self).hitbox
            }),
            final(self).time_since_last_particle == if crate::utils::sat_add(
                old(self).time_since_last_particle,
                dt_ms as u64,
            ) > SPARKLE_PERIOD {
                0
            } else {
                crate::utils::sat_add(old(self).time_since_last_particle, dt_ms as u64)
            },
    {
        let p: i64 = (time_passed_ms % 2000) as i64;
        let off: i64 = if p < 1000 { p - 500 } else { 1500 - p };
        self.hitbox.y = shift(self.base_y, off);
        let t: u64 = self.time_since_last_particle.saturating_add(dt_ms as u64);
        if t > SPARKLE_PERIOD {
            self.time_since_last_particle = 0;
            let cx = shift(self.hitbox.x, self.hitbox.w / 2);
            let cy = shift(self.hitbox.y, self.hitbox.h / 2);
            let style = BurstStyle {
                color_low: Color { r: 170, g: 170, b: 0 },
                color_high: Color { r: 250, g: 250, b: 20 },
                speed: 5000,
                rotation_speed: 3000,
                size_low: 1000,
                size_high: 2000,
                life_low: 1000,
                life_high: 3000,
            };
            spawn_burst(&mut self.particles, 1, cx, cy, style);
        } else {
            self.time_since_last_particle = t;
        }
        update_particles(&mut self.particles, dt_ms);
    }

    pub fn get_hitbox(&self) -> (r: Rect)
        ensures
            r == self.hitbox,
    {
        self.hitbox
    }

    pub fn get_powerup(&self) -> (r: Powerups)
        ensures
            r == self.powerup,
    {
        self.powerup
    }
}

} // verus!
