use vstd::prelude::*;
use crate::bertrand::{in_some_tree, in_some_tree_of, near_of};
use crate::bullet::Bullet;
use crate::geometry::{isqrt, rects_overlap, travel, travel_of, Rect};
use crate::map::{Tree, MAX_MAP_SIZE};
use crate::particle::{spawn_burst, update_particles, BurstStyle, Color, Particle};
use crate::powerup::Powerups;
use crate::utils::{Facing, Movement};

verus! {

/// Speed of the player with no boost.
pub const FABIEN_SPEED: u64 = 50_000;

/// No boost takes the player faster than this.
pub const MAX_SPEED: u64 = 170_000;

pub const STARTING_AMMOS: u32 = 44;

pub const MAX_HEALTH: u8 = 10;

/// Ticks during which a player who was just hit cannot be hit again.
pub const INVINCIBILITY_FRAMES: u32 = 30;

pub const FABIEN_WIDTH: i64 = 8_000;

pub const FABIEN_HEIGHT: i64 = 16_000;

/// Distance the player is moved back along both axes while placed out of a tree.
pub const PLACEMENT_STEP: i64 = 10_000;

pub const BULLET_SPEED: i64 = 300_000;

/// Lifetime of a projectile, in milliseconds.
pub const BULLET_LIFE: i64 = 5_000;

pub const BULLET_SIZE: i64 = 1_000;

/// Milliseconds a shot takes; no other shot can be fired meanwhile.
pub const SHOOTING_DURATION: u64 = 400;

/// Smoke particles of one shot.
pub const SHOT_PARTICLES: usize = 10;

/// Largest screen side, in pixels.
pub const MAX_SCREEN: i64 = 1_000_000;

/// Components of an aim vector are halved until both are at most this.
pub const AIM_LIMIT: u64 = 0x8000_0000;

/// Unit displacement of a movement intent.
pub open spec fn dir_of(m: Movement) -> (int, int) {
    match m {
        Movement::Up => (0, -1),
        Movement::Down => (0, 1),
        Movement::Left => (-1, 0),
        Movement::Right => (1, 0),
    }
}

/// Where a shot leaves the player, by the way the player faces.
pub open spec fn muzzle(h: Rect, f: Facing) -> (int, int) {
    match f {
        Facing::Down => (h.x + 1000, h.y + 8000),
        Facing::Up => (h.x + 6000, h.y + 9000),
        Facing::Left => (h.x - 3000, h.y + 7000),
        Facing::Right => (h.x + 11000, h.y + 7000),
    }
}

/// The magnitudes of an aim vector, halved together until both fit `AIM_LIMIT`.
pub open spec fn reduce_aim(ax: nat, ay: nat) -> (nat, nat)
    decreases ax + ay,
{
    if ax > AIM_LIMIT || ay > AIM_LIMIT {
        reduce_aim(ax / 2, ay / 2)
    } else {
        (ax, ay)
    }
}

pub open spec fn is_floor_sqrt(n: int, r: int) -> bool {
    r >= 0 && r * r <= n && n < (r + 1) * (r + 1)
}

/// The integer square root of `n`.
pub open spec fn floor_sqrt(n: int) -> int {
    choose|r: int| is_floor_sqrt(n, r)
}

pub open spec fn abs(v: int) -> int {
    if v < 0 {
        -v
    } else {
        v
    }
}

pub open spec fn signed(neg: bool, v: int) -> int {
    if neg {
        -v
    } else {
        v
    }
}

/// Velocity of a projectile aimed along `(dx, dy)`: `BULLET_SPEED` along the
/// direction, each component rounded towards zero; straight right for a null vector.
pub open spec fn aim_velocity(dx: int, dy: int) -> (int, int) {
    let (rx, ry) = reduce_aim(abs(dx) as nat, abs(dy) as nat);
    let len = floor_sqrt((rx * rx + ry * ry) as int);
    if len == 0 {
        (BULLET_SPEED as int, 0)
    } else {
        (signed(dx < 0, BULLET_SPEED * rx / len), signed(dy < 0, BULLET_SPEED * ry / len))
    }
}

/// One axis of the camera: centred on `p`, then held inside `[0, m]`.
pub open spec fn camera_axis(p: int, c: int, m: int) -> int {
    let x = p - c / 2;
    if x <= 0 {
        0
    } else if x >= m - c {
        m - c
    } else {
        x
    }
}

/// One axis of a box of extent `w` moved to `p`, then held inside `[0, m]`.
pub open spec fn keep_inside(p: int, w: int, m: int) -> int {
    if p < 0 {
        0
    } else if p + w > m {
        m - w
    } else {
        p
    }
}

proof fn lemma_floor_sqrt(n: int, r: int)
    requires
        is_floor_sqrt(n, r),
    ensures
        floor_sqrt(n) == r,
{
    let q = floor_sqrt(n);
    assert(is_floor_sqrt(n, q));
    if q < r {
        assert((q + 1) * (q + 1) <= r * r) by (nonlinear_arith)
            requires q + 1 <= r, q >= 0;
    } else if r < q {
        assert((r + 1) * (r + 1) <= q * q) by (nonlinear_arith)
            requires r + 1 <= q, r >= 0;
    }
}

fn reduce_aim_of(ax: u128, ay: u128) -> (r: (u64, u64))
    ensures
        r.0 as nat == reduce_aim(ax as nat, ay as nat).0,
        r.1 as nat == reduce_aim(ax as nat, ay as nat).1,
        r.0 <= AIM_LIMIT,
        r.1 <= AIM_LIMIT,
{
    let mut x = ax;
    let mut y = ay;
    while x > 0x8000_0000 || y > 0x8000_0000
        invariant
            reduce_aim(x as nat, y as nat) == reduce_aim(ax as nat, ay as nat),
        decreases x + y,
    {
        x = x / 2;
        y = y / 2;
    }
    (x as u64, y as u64)
}

/// The velocity of a projectile fired from `(mx, my)` towards `(tx, ty)`.
pub fn aim_velocity_of(mx: i64, my: i64, tx: i64, ty: i64) -> (r: (i64, i64))
    ensures
        r.0 as int == aim_velocity(tx - mx, ty - my).0,
        r.1 as int == aim_velocity(tx - mx, ty - my).1,
        -BULLET_SPEED <= r.0 <= BULLET_SPEED,
        -BULLET_SPEED <= r.1 <= BULLET_SPEED,
{
    let dx: i128 = tx as i128 - mx as i128;
    let dy: i128 = ty as i128 - my as i128;
    let ax: u128 = if dx < 0 { (-dx) as u128 } else { dx as u128 };
    let ay: u128 = if dy < 0 { (-dy) as u128 } else { dy as u128 };
    let (rx, ry) = reduce_aim_of(ax, ay);
    proof {
        assert(rx * rx <= AIM_LIMIT * AIM_LIMIT) by (nonlinear_arith)
            requires rx <= AIM_LIMIT;
        assert(ry * ry <= AIM_LIMIT * AIM_LIMIT) by (nonlinear_arith)
            requires ry <= AIM_LIMIT;
    }
    let n: u64 = rx * rx + ry * ry;
    let len = isqrt(n);
    proof {
        lemma_floor_sqrt(n as int, len as int);
    }
    if len == 0 {
        return (BULLET_SPEED, 0);
    }
    proof {
        let (a, b, l) = (rx as int, ry as int, len as int);
        assert(a <= l) by (nonlinear_arith)
            requires a * a <= a * a + b * b, a * a + b * b < (l + 1) * (l + 1), a >= 0, l >= 0;
        assert(b <= l) by (nonlinear_arith)
            requires b * b <= a * a + b * b, a * a + b * b < (l + 1) * (l + 1), b >= 0, l >= 0;
        assert(300_000 * a / l <= 300_000) by (nonlinear_arith)
            requires a <= l, l > 0, a >= 0;
        assert(300_000 * b / l <= 300_000) by (nonlinear_arith)
            requires b <= l, l > 0, b >= 0;
        assert(300_000 * a <= 300_000 * AIM_LIMIT) by (nonlinear_arith)
            requires a <= AIM_LIMIT;
        assert(300_000 * b <= 300_000 * AIM_LIMIT) by (nonlinear_arith)
            requires b <= AIM_LIMIT;
    }
    let vx: i64 = ((300_000 * rx) / len) as i64;
    let vy: i64 = ((300_000 * ry) / len) as i64;
    (if dx < 0 { -vx } else { vx }, if dy < 0 { -vy } else { vy })
}

/// The player.
pub struct Fabien {
    pub facing: Facing,
    pub hitbox: Rect,
    pub camera: Rect,
    pub shooting: bool,
    pub shooting_time: u64,
    pub ammos: u32,
    pub starting_ammos: u32,
    pub score: u32,
    pub health: u8,
    pub max_health: u8,
    pub animation_cycle: u8,
    pub animation_time: u64,
    pub speed: u64,
    pub starting_speed: u64,
    pub active_powerup: Option<Powerups>,
    pub movement_queue: Vec<Movement>,
    pub map_width: i64,
    pub map_height: i64,
    pub spawn_x: i64,
    pub spawn_y: i64,
    pub shots: Vec<Bullet>,
    pub particles: Vec<Particle>,
    pub invicibility_frames: u32,
}

/// A powerup that runs out: the only kinds kept once activated.
pub open spec fn timed(p: Option<Powerups>) -> bool {
    match p {
        None => true,
        Some(Powerups::PiercingBullet(_, _)) => true,
        Some(Powerups::SpeedBoost(_, _)) => true,
        _ => false,
    }
}

/// The pierce budget given to a new projectile under the active powerup.
pub open spec fn pierce_of(p: Option<Powerups>) -> i8 {
    match p {
        Some(Powerups::PiercingBullet(_, n)) => if n > 127 {
            127i8
        } else {
            n as i8
        },
        _ => 0i8,
    }
}

/// Duration of an active powerup after one tick of `dt_ms`: a timer already
/// run out clears it, any other is counted down.
pub open spec fn powerup_after(p: Option<Powerups>, dt_ms: int) -> Option<Powerups> {
    match p {
        Some(Powerups::SpeedBoost(t, m)) => if t == 0 {
            None
        } else {
            Some(Powerups::SpeedBoost(if t > dt_ms { (t - dt_ms) as u64 } else { 0 }, m))
        },
        Some(Powerups::PiercingBullet(t, n)) => if t == 0 {
            None
        } else {
            Some(Powerups::PiercingBullet(if t > dt_ms { (t - dt_ms) as u64 } else { 0 }, n))
        },
        other => other,
    }
}

/// The index of the first projectile in `s` that is out of life, or `s.len()`.
pub open spec fn first_expired(s: Seq<Bullet>) -> int
    decreases s.len(),
{
    if s.len() == 0 {
        0
    } else if !s[0].alive() {
        0
    } else {
        1 + first_expired(s.drop_first())
    }
}

/// Holds of every intent but those of direction `d`.
pub open spec fn other_than(d: Movement) -> spec_fn(Movement) -> bool {
    |m: Movement| m != d
}

/// Camera size along one axis, in thousandths of a unit, for a screen side of
/// `px` pixels: the view is zoomed in four and a half times.
pub open spec fn camera_extent(px: int) -> int {
    px * 2000 / 9
}

impl Fabien {
    pub open spec fn wf(&self) -> bool {
        &&& self.health <= self.max_health
        &&& self.speed <= MAX_SPEED
        &&& self.starting_speed <= MAX_SPEED
        &&& 0 < self.map_width <= MAX_MAP_SIZE
        &&& 0 < self.map_height <= MAX_MAP_SIZE
        &&& 0 <= self.hitbox.w <= self.map_width
        &&& 0 <= self.hitbox.h <= self.map_height
        &&& 0 <= self.hitbox.x <= self.map_width - self.hitbox.w
        &&& 0 <= self.hitbox.y <= self.map_height - self.hitbox.h
        &&& 0 <= self.spawn_x <= self.map_width - self.hitbox.w
        &&& 0 <= self.spawn_y <= self.map_height - self.hitbox.h
        &&& 0 <= self.camera.w <= camera_extent(MAX_SCREEN as int)
        &&& 0 <= self.camera.h <= camera_extent(MAX_SCREEN as int)
        &&& -camera_extent(MAX_SCREEN as int) <= self.camera.x <= MAX_MAP_SIZE
        &&& -camera_extent(MAX_SCREEN as int) <= self.camera.y <= MAX_MAP_SIZE
        &&& timed(self.active_powerup)
    }

    /// The player after a hit: unless still invincible, one point of health
    /// less (never below zero) and a fresh invincibility window.
    pub open spec fn hit(self) -> Fabien {
        if self.invicibility_frames == 0 {
            Fabien {
                health: if self.health > 0 {
                    (self.health - 1) as u8
                } else {
                    0u8
                },
                invicibility_frames: INVINCIBILITY_FRAMES,
                ..self
            }
        } else {
            self
        }
    }

    /// The player once powerup `p` is applied.
    pub open spec fn activated(self, p: Powerups) -> Fabien {
        match p {
            Powerups::Heal(h) => Fabien {
                health: if self.health + h > self.max_health {
                    self.max_health
                } else {
                    (self.health + h) as u8
                },
                ..self
            },
            Powerups::AmmoRestock(n) => Fabien {
                ammos: if self.ammos + n > u32::MAX {
                    u32::MAX
                } else {
                    (self.ammos + n) as u32
                },
                ..self
            },
            Powerups::SpeedBoost(t, m) => {
                let boosted = self.speed * m / 1000;
                if boosted > MAX_SPEED {
                    let left: u64 = match self.active_powerup {
                        Some(Powerups::SpeedBoost(t0, _)) => t0,
                        _ => 0,
                    };
                    Fabien {
                        speed: MAX_SPEED,
                        active_powerup: Some(Powerups::SpeedBoost(crate::utils::sat_add(left, t), m)),
                        ..self
                    }
                } else {
                    Fabien {
                        speed: boosted as u64,
                        active_powerup: Some(Powerups::SpeedBoost(t, m)),
                        ..self
                    }
                }
            },
            Powerups::PiercingBullet(t, n) => {
                let speed = match self.active_powerup {
                    Some(Powerups::SpeedBoost(_, _)) => self.starting_speed,
                    _ => self.speed,
                };
                let active = match self.active_powerup {
                    Some(Powerups::PiercingBullet(t0, n0)) => Powerups::PiercingBullet(
                        crate::utils::sat_add(t0, t),
                        n0,
                    ),
                    _ => Powerups::PiercingBullet(t, n),
                };
                Fabien { speed, active_powerup: Some(active), ..self }
            },
        }
    }

    /// A pursuer hits the player: see `hit`. A hit taken while invincible is
    /// ignored; the result says whether the hit counted.
    pub fn take_hit(&mut self) -> (r: bool)
        ensures
            *final(self) == old(self).hit(),
            r == (old(self).invicibility_frames == 0),
            final(self).health <= old(self).health,
            old(self).wf() ==> final(self).wf(),
    {
        if self.invicibility_frames == 0 {
            if self.health > 0 {
                self.health = self.health - 1;
            }
            self.invicibility_frames = INVINCIBILITY_FRAMES;
            true
        } else {
            false
        }
    }

    pub fn add_to_score(&mut self, to_add: u32)
        ensures
            *final(self) == (Fabien {
                score: if old(self).score + to_add > u32::MAX {
                    u32::MAX
                } else {
                    (old(self).score + to_add) as u32
                },
                ..*old(self)
            }),
    {
        self.score = self.score.saturating_add(to_add);
    }

    /// Applies a picked-up powerup. Health is healed up to its maximum, ammo
    /// added without bound; a speed boost multiplies the current speed, and
    /// where that passes `MAX_SPEED` the speed is held there and the boost's
    /// duration added to what was left of a running one; piercing bullets
    /// extend a running piercing timer, or replace a speed boost (whose speed
    /// is dropped) or nothing.
    pub fn activate_powerup(&mut self, powerup: Powerups)
        requires
            old(self).wf(),
        ensures
            *final(self) == old(self).activated(powerup),
            final(self).wf(),
            final(self).health <= final(self).max_health,
    {
        match powerup {
            Powerups::Heal(health) => {
                if self.health as u16 + health as u16 > self.max_health as u16 {
                    self.health = self.max_health;
                } else {
                    self.health = self.health + health;
                }
            },
            Powerups::AmmoRestock(nb_ammos) => {
                self.ammos = self.ammos.saturating_add(nb_ammos);
            },
            Powerups::SpeedBoost(new_time, speed_mult) => {
                proof {
                    assert(self.speed as int * speed_mult as int <= MAX_SPEED as int * u64::MAX as int) by (nonlinear_arith)
                        requires self.speed <= MAX_SPEED, speed_mult <= u64::MAX, self.speed >= 0, speed_mult >= 0;
                }
                let boosted: u128 = (self.speed as u128) * (speed_mult as u128) / 1000;
                if boosted > MAX_SPEED as u128 {
                    let left: u64 = match self.active_powerup {
                        Some(Powerups::SpeedBoost(t0, _)) => t0,
                        _ => 0,
                    };
                    self.speed = MAX_SPEED;
                    self.active_powerup = Some(
                        Powerups::SpeedBoost(left.saturating_add(new_time), speed_mult),
                    );
                } else {
                    self.speed = boosted as u64;
                    self.active_powerup = Some(powerup);
                }
            },
            Powerups::PiercingBullet(new_time, nb) => {
                if let Some(Powerups::SpeedBoost(_, _)) = self.active_powerup {
                    self.speed = self.starting_speed;
                }
                let active = match self.active_powerup {
                    Some(Powerups::PiercingBullet(t0, n0)) => Powerups::PiercingBullet(
                        t0.saturating_add(new_time),
                        n0,
                    ),
                    _ => powerup,
                };
                self.active_powerup = Some(active);
            },
        }
    }

    /// A direction key went down: it becomes the most recent intent.
    pub fn key_down_event(&mut self, movement: Movement)
        ensures
            final(self).movement_queue@ == old(self).movement_queue@.push(movement),
            *final(self) == (Fabien { movement_queue: final(self).movement_queue, ..*old(self) }),
    {
        self.movement_queue.push(movement);
    }

    /// A direction key went up: every intent of that direction is dropped.
    pub fn key_up_event(&mut self, movement: Movement)
        ensures
            final(self).movement_queue@ == old(self).movement_queue@.filter(other_than(movement)),
            *final(self) == (Fabien { movement_queue: final(self).movement_queue, ..*old(self) }),
    {
        let mut kept: Vec<Movement> = Vec::new();
        let mut i: usize = 0;
        while i < self.movement_queue.len()
            invariant
                i <= self.movement_queue@.len(),
                *self == *old(self),
                kept@ == self.movement_queue@.subrange(0, i as int).filter(other_than(movement)),
            decreases self.movement_queue@.len() - i,
        {
            let m = self.movement_queue[i];
            if m != movement {
                kept.push(m);
            }
            proof {
                let s1 = self.movement_queue@.subrange(0, i + 1);
                assert(s1.drop_last() =~= self.movement_queue@.subrange(0, i as int));
                assert(s1.last() == m);
                reveal(Seq::filter);
                assert(kept@ == s1.filter(other_than(movement)));
            }
            i = i + 1;
        }
        proof {
            assert(self.movement_queue@.subrange(0, i as int) =~= self.movement_queue@);
        }
        self.movement_queue = kept;
    }

    pub fn clear_movement(&mut self)
        ensures
            final(self).movement_queue@.len() == 0,
            *final(self) == (Fabien { movement_queue: final(self).movement_queue, ..*old(self) }),
    {
        self.movement_queue = Vec::new();
    }

    /// Centres the camera on the player, held inside the map.
    pub fn update_camera(&mut self)
        requires
            old(self).wf(),
        ensures
            final(self).camera == (Rect {
                x: camera_axis(old(self).hitbox.x as int, old(self).camera.w as int, old(self).map_width as int) as i64,
                y: camera_axis(old(self).hitbox.y as int, old(self).camera.h as int, old(self).map_height as int) as i64,
                ..old(self).camera
            }),
            *final(self) == (Fabien { camera: final(self).camera, ..*old(self) }),
            final(self).camera.w <= final(self).map_width ==> 0 <= final(self).camera.x
                <= final(self).map_width - final(self).camera.w,
            final(self).camera.h <= final(self).map_height ==> 0 <= final(self).camera.y
                <= final(self).map_height - final(self).camera.h,
            final(self).wf(),
    {
        let mut x = self.hitbox.x - self.camera.w / 2;
        if x <= 0 {
            x = 0;
        } else if x >= self.map_width - self.camera.w {
            x = self.map_width - self.camera.w;
        }
        let mut y = self.hitbox.y - self.camera.h / 2;
        if y <= 0 {
            y = 0;
        } else if y >= self.map_height - self.camera.h {
            y = self.map_height - self.camera.h;
        }
        self.camera.x = x;
        self.camera.y = y;
    }

    /// The window was resized to `width` by `height` pixels.
    pub fn resize_event(&mut self, width: i64, height: i64)
        requires
            old(self).wf(),
            0 <= width <= MAX_SCREEN,
            0 <= height <= MAX_SCREEN,
        ensures
            final(self).camera == (Rect {
                w: camera_extent(width as int) as i64,
                h: camera_extent(height as int) as i64,
                ..old(self).camera
            }),
            *final(self) == (Fabien { camera: final(self).camera, ..*old(self) }),
            final(self).wf(),
    {
        proof {
            assert(width * 2000 / 9 <= MAX_SCREEN * 2000 / 9) by (nonlinear_arith)
                requires 0 <= width <= MAX_SCREEN;
            assert(height * 2000 / 9 <= MAX_SCREEN * 2000 / 9) by (nonlinear_arith)
                requires 0 <= height <= MAX_SCREEN;
            assert(width * 2000 / 9 >= 0) by (nonlinear_arith)
                requires 0 <= width;
            assert(height * 2000 / 9 >= 0) by (nonlinear_arith)
                requires 0 <= height;
        }
        self.camera.w = width * 2000 / 9;
        self.camera.h = height * 2000 / 9;
    }

    /// How `after` relates to `self` once a shot at `(tx, ty)` was asked for:
    /// refused, with nothing changed, while a shot is under way or no ammo is
    /// left; otherwise one ammo less, the shot under way, and a new projectile
    /// at the muzzle, aimed at the target, carrying the active piercing budget.
    pub open spec fn fired(self, after: Fabien, tx: int, ty: int) -> bool {
        if self.shooting || self.ammos == 0 {
            after == self
        } else {
            let (mx, my) = muzzle(self.hitbox, self.facing);
            let v = aim_velocity(tx - mx, ty - my);
            &&& after == Fabien {
                shooting: true,
                ammos: (self.ammos - 1) as u32,
                shots: after.shots,
                particles: after.particles,
                ..self
            }
            &&& after.shots@ == self.shots@.push(
                Bullet {
                    hitbox: Rect { x: mx as i64, y: my as i64, w: BULLET_SIZE, h: BULLET_SIZE },
                    vx: v.0 as i64,
                    vy: v.1 as i64,
                    nb_pierce: pierce_of(self.active_powerup),
                    life: BULLET_LIFE,
                },
            )
            &&& after.particles@.len() == self.particles@.len() + SHOT_PARTICLES
        }
    }

    /// Fires at the map point `(x, y)`; see `fired`.
    pub fn shoot(&mut self, x: i64, y: i64)
        requires
            old(self).wf(),
        ensures
            old(self).fired(*final(self), x as int, y as int),
            final(self).wf(),
    {
        if self.shooting || self.ammos == 0 {
            return;
        }
        self.shooting = true;
        self.ammos = self.ammos - 1;
        let (mx, my): (i64, i64) = match self.facing {
            Facing::Down => (self.hitbox.x + 1000, self.hitbox.y + 8000),
            Facing::Up => (self.hitbox.x + 6000, self.hitbox.y + 9000),
            Facing::Left => (self.hitbox.x - 3000, self.hitbox.y + 7000),
            Facing::Right => (self.hitbox.x + 11000, self.hitbox.y + 7000),
        };
        let (vx, vy) = aim_velocity_of(mx, my, x, y);
        let nb_pierce: i8 = match self.active_powerup {
            Some(Powerups::PiercingBullet(_, n)) => if n > 127 { 127 } else { n as i8 },
            _ => 0,
        };
        self.shots.push(Bullet::new(vx, vy, Rect::new(mx, my, BULLET_SIZE, BULLET_SIZE), nb_pierce, BULLET_LIFE));
        let style = BurstStyle {
            color_low: Color { r: 100, g: 100, b: 100 },
            color_high: Color { r: 100, g: 100, b: 100 },
            speed: 10000,
            rotation_speed: 6000,
            size_low: 500,
            size_high: 1500,
            life_low: 1000,
            life_high: 2000,
        };
        spawn_burst(&mut self.particles, SHOT_PARTICLES, mx, my, style);
    }

    /// Map point under the screen pixel `(px, py)` along one axis, the pixel
    /// held inside the screen.
    pub open spec fn screen_to_map(cam: int, cam_extent: int, p: int, screen: int) -> int {
        let q = if p < 0 {
            0
        } else if p > screen {
            screen
        } else {
            p
        };
        cam + q * cam_extent / screen
    }

    /// A click at the screen pixel `(px, py)` of a `screen_w` by `screen_h`
    /// window fires at the map point under it. A window with no area ignores it.
    pub fn mouse_button_down_event(&mut self, px: i64, py: i64, screen_w: i64, screen_h: i64)
        requires
            old(self).wf(),
        ensures
            (screen_w <= 0 || screen_h <= 0) ==> *final(self) == *old(self),
            (screen_w > 0 && screen_h > 0) ==> old(self).fired(
                *final(self),
                Self::screen_to_map(old(self).camera.x as int, old(self).camera.w as int, px as int, screen_w as int),
                Self::screen_to_map(old(self).camera.y as int, old(self).camera.h as int, py as int, screen_h as int),
            ),
            final(self).wf(),
    {
        if screen_w <= 0 || screen_h <= 0 {
            return;
        }
        let qx: i64 = if px < 0 { 0 } else if px > screen_w { screen_w } else { px };
        let qy: i64 = if py < 0 { 0 } else if py > screen_h { screen_h } else { py };
        proof {
            let (a, c, w) = (qx as int, self.camera.w as int, screen_w as int);
            assert(0 <= a * c / w <= c) by (nonlinear_arith)
                requires 0 <= a <= w, 0 <= c, w > 0;
            let (b, d, h) = (qy as int, self.camera.h as int, screen_h as int);
            assert(0 <= b * d / h <= d) by (nonlinear_arith)
                requires 0 <= b <= h, 0 <= d, h > 0;
            assert(a * c <= 0x7fff_ffff_ffff_ffff * 300_000_000_000) by (nonlinear_arith)
                requires 0 <= a <= 0x7fff_ffff_ffff_ffff, 0 <= c <= 300_000_000_000;
            assert(b * d <= 0x7fff_ffff_ffff_ffff * 300_000_000_000) by (nonlinear_arith)
                requires 0 <= b <= 0x7fff_ffff_ffff_ffff, 0 <= d <= 300_000_000_000;
        }
        let tx: i64 = self.camera.x + (((qx as i128) * (self.camera.w as i128)) / (screen_w as i128)) as i64;
        let ty: i64 = self.camera.y + (((qy as i128) * (self.camera.h as i128)) / (screen_h as i128)) as i64;
        self.shoot(tx, ty);
    }

    pub fn is_shooting(&self) -> (r: bool)
        ensures
            r == self.shooting,
    {
        self.shooting
    }

    pub fn get_hitbox(&self) -> (r: Rect)
        ensures
            r == self.hitbox,
    {
        self.hitbox
    }

    pub fn get_shots(&self) -> (r: &Vec<Bullet>)
        ensures
            r@ == self.shots@,
    {
        &self.shots
    }

    pub fn get_health(&self) -> (r: u8)
        ensures
            r == self.health,
    {
        self.health
    }

    pub fn get_score(&self) -> (r: u32)
        ensures
            r == self.score,
    {
        self.score
    }

    pub fn get_nb_ammos(&self) -> (r: u32)
        ensures
            r == self.ammos,
    {
        self.ammos
    }

    pub fn get_camera(&self) -> (r: Rect)
        ensures
            r == self.camera,
    {
        self.camera
    }

    /// Sets the health, held at its maximum.
    pub fn set_health(&mut self, health: u8)
        ensures
            *final(self) == (Fabien {
                health: if health > old(self).max_health {
                    old(self).max_health
                } else {
                    health
                },
                ..*old(self)
            }),
    {
        self.health = if health > self.max_health { self.max_health } else { health };
    }

    /// The direction the player walks in this tick: the most recent intent,
    /// unless a shot is under way.
    pub open spec fn intent(self) -> (int, int) {
        if self.movement_queue@.len() > 0 && !self.shooting {
            dir_of(self.movement_queue@.last())
        } else {
            (0, 0)
        }
    }

    /// The player's box after a tick of `dt_ms` among `trees`: moved along the
    /// intent and held inside the map, or left where it was if the moved box
    /// overlaps a near tree.
    pub open spec fn stepped(self, trees: Seq<Tree>, dt_ms: int) -> Rect {
        let d = self.intent();
        let st = travel(self.speed as int, dt_ms);
        let moved = Rect {
            x: keep_inside(offset(self.hitbox.x as int, d.0, st), self.hitbox.w as int, self.map_width as int) as i64,
            y: keep_inside(offset(self.hitbox.y as int, d.1, st), self.hitbox.h as int, self.map_height as int) as i64,
            ..self.hitbox
        };
        if in_some_tree(moved, trees) {
            self.hitbox
        } else {
            moved
        }
    }

    /// Whether a shot is under way after a tick of `dt_ms`, and for how long.
    pub open spec fn shooting_after(self, dt_ms: int) -> (bool, u64) {
        let t = if self.shooting {
            crate::utils::sat_add(self.shooting_time, dt_ms as u64)
        } else {
            self.shooting_time
        };
        if t > SHOOTING_DURATION {
            (false, 0)
        } else {
            (self.shooting, t)
        }
    }

    /// How `after` relates to `self` after a tick of `dt_ms` among `trees`,
    /// as `update` does it.
    pub open spec fn updated(self, after: Fabien, trees: Seq<Tree>, dt_ms: int) -> bool {
        &&& after.wf()
        &&& after == Fabien {
            hitbox: self.stepped(trees, dt_ms),
            invicibility_frames: if self.invicibility_frames > 0 {
                (self.invicibility_frames - 1) as u32
            } else {
                0u32
            },
            active_powerup: powerup_after(self.active_powerup, dt_ms),
            speed: if self.active_powerup.is_none() {
                self.starting_speed
            } else {
                self.speed
            },
            shooting: self.shooting_after(dt_ms).0,
            shooting_time: self.shooting_after(dt_ms).1,
            shots: after.shots,
            particles: after.particles,
            ..self
        }
        &&& after.shots@ == shots_after(self.shots@, dt_ms)
    }

    /// A new player at the centre of the map, moved back diagonally by
    /// `PLACEMENT_STEP` while that box overlaps a tree and the step stays on the
    /// map; if it still overlaps one, at the first free spot `search_free_box`
    /// finds. Only a map with no free spot at all leaves the player in a tree.
    pub fn new(trees: &Vec<Tree>, map_width: i64, map_height: i64, screen_width: i64, screen_height: i64) -> (r: Fabien)
        requires
            FABIEN_WIDTH <= map_width <= MAX_MAP_SIZE,
            FABIEN_HEIGHT <= map_height <= MAX_MAP_SIZE,
            0 <= screen_width <= MAX_SCREEN,
            0 <= screen_height <= MAX_SCREEN,
        ensures
            r.wf(),
            r.health == MAX_HEALTH,
            r.max_health == MAX_HEALTH,
            r.ammos == STARTING_AMMOS,
            r.starting_ammos == STARTING_AMMOS,
            r.speed == FABIEN_SPEED,
            r.starting_speed == FABIEN_SPEED,
            r.score == 0,
            r.invicibility_frames == 0,
            !r.shooting,
            r.shooting_time == 0,
            r.active_powerup.is_none(),
            r.facing == Facing::Down,
            r.movement_queue@.len() == 0,
            r.shots@.len() == 0,
            r.particles@.len() == 0,
            r.map_width == map_width,
            r.map_height == map_height,
            r.hitbox.w == FABIEN_WIDTH,
            r.hitbox.h == FABIEN_HEIGHT,
            r.spawn_x == r.hitbox.x,
            r.spawn_y == r.hitbox.y,
            !overlaps_any(r.hitbox, trees@) || map_blocked(trees@, map_width as int, map_height as int),
            r.camera.w == camera_extent(screen_width as int),
            r.camera.h == camera_extent(screen_height as int),
    {
        let mut x: i64 = map_width / 2;
        if x > map_width - FABIEN_WIDTH {
            x = map_width - FABIEN_WIDTH;
        }
        let mut y: i64 = map_height / 2;
        if y > map_height - FABIEN_HEIGHT {
            y = map_height - FABIEN_HEIGHT;
        }
        loop
            invariant
                0 <= x <= map_width - FABIEN_WIDTH,
                0 <= y <= map_height - FABIEN_HEIGHT,
            ensures
                0 <= x <= map_width - FABIEN_WIDTH,
                0 <= y <= map_height - FABIEN_HEIGHT,
                !overlaps_any(Rect { x, y, w: FABIEN_WIDTH, h: FABIEN_HEIGHT }, trees@) || x
                    < PLACEMENT_STEP || y < PLACEMENT_STEP,
            decreases x,
        {
            if x < PLACEMENT_STEP || y < PLACEMENT_STEP {
                break;
            }
            if !overlaps_any_of(&Rect::new(x, y, FABIEN_WIDTH, FABIEN_HEIGHT), trees) {
                break;
            }
            x = x - PLACEMENT_STEP;
            y = y - PLACEMENT_STEP;
        }
        if overlaps_any_of(&Rect::new(x, y, FABIEN_WIDTH, FABIEN_HEIGHT), trees) {
            let found = search_free_box(trees, map_width, map_height);
            if let Some((fx, fy)) = found {
                x = fx;
                y = fy;
            }
        }
        proof {
            assert(screen_width * 2000 / 9 <= MAX_SCREEN * 2000 / 9) by (nonlinear_arith)
                requires 0 <= screen_width <= MAX_SCREEN;
            assert(screen_height * 2000 / 9 <= MAX_SCREEN * 2000 / 9) by (nonlinear_arith)
                requires 0 <= screen_height <= MAX_SCREEN;
            assert(screen_width * 2000 / 9 >= 0) by (nonlinear_arith)
                requires 0 <= screen_width;
            assert(screen_height * 2000 / 9 >= 0) by (nonlinear_arith)
                requires 0 <= screen_height;
        }
        let mut fabien = Fabien {
            facing: Facing::Down,
            hitbox: Rect::new(x, y, FABIEN_WIDTH, FABIEN_HEIGHT),
            camera: Rect::new(0, 0, screen_width * 2000 / 9, screen_height * 2000 / 9),
            shooting: false,
            shooting_time: 0,
            ammos: STARTING_AMMOS,
            starting_ammos: STARTING_AMMOS,
            score: 0,
            health: MAX_HEALTH,
            max_health: MAX_HEALTH,
            animation_cycle: 0,
            animation_time: 0,
            speed: FABIEN_SPEED,
            starting_speed: FABIEN_SPEED,
            active_powerup: None,
            movement_queue: Vec::new(),
            map_width,
            map_height,
            spawn_x: x,
            spawn_y: y,
            shots: Vec::new(),
            particles: Vec::new(),
            invicibility_frames: 0,
        };
        fabien.update_camera();
        fabien
    }

    /// One tick of `dt_ms`: the invincibility window shrinks, the player walks
    /// (see `stepped`), the powerup timer runs (see `powerup_after`) and the
    /// base speed comes back when none is active, the shot under way goes on,
    /// every projectile flies and the first one out of life is dropped, and the
    /// particles age. Near trees learn whether to be drawn before the player.
    pub fn update(&mut self, trees: &mut Vec<Tree>, dt_ms: u32)
        requires
            old(self).wf(),
        ensures
            old(self).updated(*final(self), old(trees)@, dt_ms as int),
            final(trees)@.len() == old(trees)@.len(),
            forall|i: int|
                0 <= i < final(trees)@.len() ==> (#[trigger] final(trees)@[i]).hitbox == old(
                    trees,
                )@[i].hitbox,
    {
        let ghost pre = *self;
        if self.invicibility_frames > 0 {
            self.invicibility_frames = self.invicibility_frames - 1;
        }

        let n = self.movement_queue.len();
        let (dx, dy): (i64, i64) = if n > 0 && !self.shooting {
            match self.movement_queue[n - 1] {
                Movement::Up => (0, -1),
                Movement::Down => (0, 1),
                Movement::Left => (-1, 0),
                Movement::Right => (1, 0),
            }
        } else {
            (0, 0)
        };
        proof {
            assert(self.speed as int * dt_ms as int <= MAX_SPEED as int * u32::MAX as int) by (nonlinear_arith)
                requires self.speed <= MAX_SPEED, dt_ms <= u32::MAX, self.speed >= 0, dt_ms >= 0;
        }
        let st: i64 = travel_of(self.speed, dt_ms) as i64;
        let nx: i64 = if dx < 0 { self.hitbox.x - st } else if dx > 0 { self.hitbox.x + st } else { self.hitbox.x };
        let ny: i64 = if dy < 0 { self.hitbox.y - st } else if dy > 0 { self.hitbox.y + st } else { self.hitbox.y };
        let kx: i64 = if nx < 0 { 0 } else if nx + self.hitbox.w > self.map_width { self.map_width - self.hitbox.w } else { nx };
        let ky: i64 = if ny < 0 { 0 } else if ny + self.hitbox.h > self.map_height { self.map_height - self.hitbox.h } else { ny };
        let moved = Rect::new(kx, ky, self.hitbox.w, self.hitbox.h);
        if !in_some_tree_of(&moved, trees) {
            self.hitbox = moved;
        }
        assert(self.hitbox == pre.stepped(old(trees)@, dt_ms as int));

        let mut i: usize = 0;
        while i < trees.len()
            invariant
                i <= trees@.len(),
                trees@.len() == old(trees)@.len(),
                forall|k: int| 0 <= k < trees@.len() ==> (#[trigger] trees@[k]).hitbox == old(trees)@[k].hitbox,
            decreases trees@.len() - i,
        {
            let mut tree = trees[i];
            if near_of(&self.hitbox, &tree.hitbox) {
                if self.hitbox.y > tree.hitbox.y {
                    tree.draw_before_fabien(true);
                } else if !self.hitbox.overlaps(&tree.hitbox) {
                    tree.draw_before_fabien(false);
                }
                trees.set(i, tree);
            }
            i = i + 1;
        }

        match self.active_powerup {
            Some(Powerups::SpeedBoost(t, m)) => {
                self.active_powerup = if t == 0 { None } else { Some(Powerups::SpeedBoost(t.saturating_sub(dt_ms as u64), m)) };
            },
            Some(Powerups::PiercingBullet(t, nb)) => {
                self.active_powerup = if t == 0 { None } else { Some(Powerups::PiercingBullet(t.saturating_sub(dt_ms as u64), nb)) };
            },
            None => {
                self.speed = self.starting_speed;
            },
            _ => {},
        }

        if self.shooting {
            self.shooting_time = self.shooting_time.saturating_add(dt_ms as u64);
        }
        self.update_shots(dt_ms);
        if self.shooting_time > SHOOTING_DURATION {
            self.shooting = false;
            self.shooting_time = 0;
        }
        update_particles(&mut self.particles, dt_ms);
    }

    /// Flies every projectile one tick and drops the first one out of life.
    fn update_shots(&mut self, dt_ms: u32)
        ensures
            final(self).shots@ == shots_after(old(self).shots@, dt_ms as int),
            *final(self) == (Fabien { shots: final(self).shots, ..*old(self) }),
    {
        let ghost upd = self.shots@.map_values(|b: Bullet| b.advanced(dt_ms as int));
        let mut shots: Vec<Bullet> = Vec::new();
        let mut first: usize = self.shots.len();
        let mut i: usize = 0;
        while i < self.shots.len()
            invariant
                i <= self.shots@.len(),
                upd == self.shots@.map_values(|b: Bullet| b.advanced(dt_ms as int)),
                shots@ == upd.subrange(0, i as int),
                first == self.shots@.len() ==> forall|j: int| 0 <= j < i ==> (#[trigger] upd[j]).alive(),
                first < self.shots@.len() ==> first < i && !upd[first as int].alive() && forall|j: int|
                    0 <= j < first ==> (#[trigger] upd[j]).alive(),
                first <= self.shots@.len(),
            decreases self.shots@.len() - i,
        {
            let mut b = self.shots[i];
            let alive = b.update(dt_ms);
            if !alive && first == self.shots.len() {
                first = i;
            }
            shots.push(b);
            proof {
                assert(shots@ =~= upd.subrange(0, i + 1));
            }
            i = i + 1;
        }
        proof {
            assert(shots@ =~= upd);
            lemma_first_expired(upd, first as int);
        }
        if first < shots.len() {
            shots.remove(first);
        }
        self.shots = shots;
    }

    /// The walking animation, as drawn: the player faces the most recent
    /// intent and steps through four frames while walking, shows the fifth
    /// while shooting, and stands still otherwise.
    pub fn advance_animation(&mut self, dt_ms: u32)
        ensures
            *final(self) == (Fabien {
                facing: final(self).facing,
                animation_cycle: final(self).animation_cycle,
                animation_time: final(self).animation_time,
                ..*old(self)
            }),
            old(self).movement_queue@.len() > 0 && !old(self).shooting ==> {
                let t = crate::utils::sat_add(old(self).animation_time, dt_ms as u64);
                &&& final(self).facing == facing_of(old(self).movement_queue@.last())
                &&& final(self).animation_time == if t > 166 { 0 } else { t }
                &&& final(self).animation_cycle == if t > 166 {
                    (old(self).animation_cycle % 4 + 1) % 4
                } else {
                    (old(self).animation_cycle % 4) as int
                }
            },
            !(old(self).movement_queue@.len() > 0 && !old(self).shooting) ==> final(self).facing
                == old(self).facing && final(self).animation_cycle == if old(self).shooting {
                4u8
            } else {
                0u8
            },
    {
        let n = self.movement_queue.len();
        if n > 0 && !self.shooting {
            self.facing = match self.movement_queue[n - 1] {
                Movement::Up => Facing::Up,
                Movement::Left => Facing::Left,
                Movement::Down => Facing::Down,
                Movement::Right => Facing::Right,
            };
            self.animation_time = self.animation_time.saturating_add(dt_ms as u64);
            if self.animation_time > 166 {
                self.animation_time = 0;
                self.animation_cycle = (self.animation_cycle % 4 + 1) % 4;
            } else {
                self.animation_cycle = self.animation_cycle % 4;
            }
        } else if self.shooting {
            self.animation_cycle = 4;
        } else {
            self.animation_cycle = 0;
        }
    }

    /// `after` is `self` back at the start of a session, as `reset` leaves it.
    pub open spec fn was_reset(self, after: Fabien) -> bool {
        &&& after.wf()
        &&& after == Fabien {
            hitbox: Rect { x: self.spawn_x, y: self.spawn_y, ..self.hitbox },
            camera: after.camera,
            ammos: self.starting_ammos,
            speed: self.starting_speed,
            shooting: false,
            shooting_time: 0,
            health: self.max_health,
            score: 0,
            facing: Facing::Down,
            animation_cycle: 0,
            animation_time: 0,
            active_powerup: None,
            invicibility_frames: 0,
            movement_queue: after.movement_queue,
            shots: after.shots,
            particles: after.particles,
            ..self
        }
        &&& after.movement_queue@.len() == 0
        &&& after.shots@.len() == 0
        &&& after.particles@.len() == 0
    }

    /// Back to the start of a session: full health, starting ammo and speed,
    /// no powerup, no shot, no intent, no projectile, score zero, at the spawn point.
    pub fn reset(&mut self)
        requires
            old(self).wf(),
        ensures
            old(self).was_reset(*final(self)),
    {
        self.hitbox.x = self.spawn_x;
        self.hitbox.y = self.spawn_y;
        self.ammos = self.starting_ammos;
        self.speed = self.starting_speed;
        self.shooting = false;
        self.shooting_time = 0;
        self.health = self.max_health;
        self.score = 0;
        self.facing = Facing::Down;
        self.animation_cycle = 0;
        self.animation_time = 0;
        self.active_powerup = None;
        self.invicibility_frames = 0;
        self.movement_queue = Vec::new();
        self.shots = Vec::new();
        self.particles = Vec::new();
        self.update_camera();
    }
}

/// The way a character looks while walking with intent `m`.
pub open spec fn facing_of(m: Movement) -> Facing {
    match m {
        Movement::Up => Facing::Up,
        Movement::Down => Facing::Down,
        Movement::Left => Facing::Left,
        Movement::Right => Facing::Right,
    }
}

/// `p` moved by `st` in the sense of `d`.
pub open spec fn offset(p: int, d: int, st: int) -> int {
    if d < 0 {
        p - st
    } else if d > 0 {
        p + st
    } else {
        p
    }
}

/// A player's box with its corner at `(x, y)`.
pub open spec fn box_at(x: int, y: int) -> Rect {
    Rect { x: x as i64, y: y as i64, w: FABIEN_WIDTH, h: FABIEN_HEIGHT }
}

/// Every spot of a `mw` by `mh` map where the player's box fits overlaps a tree.
pub open spec fn map_blocked(trees: Seq<Tree>, mw: int, mh: int) -> bool {
    forall|x: int, y: int|
        0 <= x <= mw - FABIEN_WIDTH && 0 <= y <= mh - FABIEN_HEIGHT ==> #[trigger] overlaps_any(
            box_at(x, y),
            trees,
        )
}

/// The `a`-th candidate column of a free spot: the map's left edge, then
/// just right of each tree.
pub open spec fn cand_x(trees: Seq<Tree>, a: int) -> int {
    if a == 0 {
        0
    } else {
        trees[a - 1].hitbox.x + trees[a - 1].hitbox.w + 1
    }
}

/// The `b`-th candidate row of a free spot: the map's top edge, then just
/// below each tree.
pub open spec fn cand_y(trees: Seq<Tree>, b: int) -> int {
    if b == 0 {
        0
    } else {
        trees[b - 1].hitbox.y + trees[b - 1].hitbox.h + 1
    }
}

/// Whether the player's box at height `y` meets box `t`'s rows.
pub open spec fn rows_meet(t: Rect, y: int) -> bool {
    y <= t.y + t.h && y + FABIEN_HEIGHT >= t.y
}

/// Whether the player's box at column `x` meets box `t`'s columns.
pub open spec fn columns_meet(t: Rect, x: int) -> bool {
    x <= t.x + t.w && x + FABIEN_WIDTH >= t.x
}

/// How far left a free player's box at `(x, y)` slides before it would
/// touch a tree or leave the map.
pub open spec fn slide_left(trees: Seq<Tree>, x: int, y: int) -> int
    decreases trees.len(),
{
    if trees.len() == 0 {
        0
    } else {
        let rest = slide_left(trees.drop_last(), x, y);
        let t = trees.last().hitbox;
        if rows_meet(t, y) && t.x + t.w < x && t.x + t.w + 1 > rest {
            t.x + t.w + 1
        } else {
            rest
        }
    }
}

/// How far up a free player's box at `(x, y)` slides before it would touch
/// a tree or leave the map.
pub open spec fn slide_up(trees: Seq<Tree>, x: int, y: int) -> int
    decreases trees.len(),
{
    if trees.len() == 0 {
        0
    } else {
        let rest = slide_up(trees.drop_last(), x, y);
        let t = trees.last().hitbox;
        if columns_meet(t, x) && t.y + t.h < y && t.y + t.h + 1 > rest {
            t.y + t.h + 1
        } else {
            rest
        }
    }
}

proof fn lemma_slide_left(trees: Seq<Tree>, x: int, y: int)
    requires
        0 <= x,
    ensures
        0 <= slide_left(trees, x, y) <= x,
        exists|a: int| 0 <= a <= trees.len() && slide_left(trees, x, y) == cand_x(trees, a),
        forall|i: int|
            0 <= i < trees.len() && rows_meet(#[trigger] trees[i].hitbox, y) && trees[i].hitbox.x
                + trees[i].hitbox.w < x ==> slide_left(trees, x, y) > trees[i].hitbox.x
                + trees[i].hitbox.w,
    decreases trees.len(),
{
    if trees.len() == 0 {
        assert(slide_left(trees, x, y) == cand_x(trees, 0));
    } else {
        let d = trees.drop_last();
        lemma_slide_left(d, x, y);
        let a0 = choose|a: int| 0 <= a <= d.len() && slide_left(d, x, y) == cand_x(d, a);
        let n = trees.len() as int;
        if slide_left(trees, x, y) == slide_left(d, x, y) {
            if a0 > 0 {
                assert(d[a0 - 1] == trees[a0 - 1]);
            }
            assert(slide_left(trees, x, y) == cand_x(trees, a0));
        } else {
            assert(slide_left(trees, x, y) == cand_x(trees, n));
        }
        assert forall|i: int|
            0 <= i < trees.len() && rows_meet(#[trigger] trees[i].hitbox, y) && trees[i].hitbox.x
                + trees[i].hitbox.w < x implies slide_left(trees, x, y) > trees[i].hitbox.x
                + trees[i].hitbox.w by {
            if i < n - 1 {
                assert(d[i] == trees[i]);
            }
        }
    }
}

proof fn lemma_slide_up(trees: Seq<Tree>, x: int, y: int)
    requires
        0 <= y,
    ensures
        0 <= slide_up(trees, x, y) <= y,
        exists|b: int| 0 <= b <= trees.len() && slide_up(trees, x, y) == cand_y(trees, b),
        forall|i: int|
            0 <= i < trees.len() && columns_meet(#[trigger] trees[i].hitbox, x) && trees[i].hitbox.y
                + trees[i].hitbox.h < y ==> slide_up(trees, x, y) > trees[i].hitbox.y
                + trees[i].hitbox.h,
    decreases trees.len(),
{
    if trees.len() == 0 {
        assert(slide_up(trees, x, y) == cand_y(trees, 0));
    } else {
        let d = trees.drop_last();
        lemma_slide_up(d, x, y);
        let b0 = choose|b: int| 0 <= b <= d.len() && slide_up(d, x, y) == cand_y(d, b);
        let n = trees.len() as int;
        if slide_up(trees, x, y) == slide_up(d, x, y) {
            if b0 > 0 {
                assert(d[b0 - 1] == trees[b0 - 1]);
            }
            assert(slide_up(trees, x, y) == cand_y(trees, b0));
        } else {
            assert(slide_up(trees, x, y) == cand_y(trees, n));
        }
        assert forall|i: int|
            0 <= i < trees.len() && columns_meet(#[trigger] trees[i].hitbox, x) && trees[i].hitbox.y
                + trees[i].hitbox.h < y implies slide_up(trees, x, y) > trees[i].hitbox.y
                + trees[i].hitbox.h by {
            if i < n - 1 {
                assert(d[i] == trees[i]);
            }
        }
    }
}

/// If every candidate spot that fits the map is blocked, every spot is: a
/// free box slid left, then up, stops at a candidate and stays free.
proof fn lemma_candidates_suffice(trees: Seq<Tree>, mw: int, mh: int)
    requires
        FABIEN_WIDTH <= mw <= MAX_MAP_SIZE,
        FABIEN_HEIGHT <= mh <= MAX_MAP_SIZE,
        forall|a: int, b: int|
            0 <= a <= trees.len() && 0 <= b <= trees.len() && 0 <= cand_x(trees, a) <= mw
                - FABIEN_WIDTH && 0 <= cand_y(trees, b) <= mh - FABIEN_HEIGHT ==> #[trigger] overlaps_any(
                box_at(cand_x(trees, a), cand_y(trees, b)),
                trees,
            ),
    ensures
        map_blocked(trees, mw, mh),
{
    assert forall|x: int, y: int|
        0 <= x <= mw - FABIEN_WIDTH && 0 <= y <= mh - FABIEN_HEIGHT implies #[trigger] overlaps_any(
            box_at(x, y),
            trees,
        ) by {
        if !overlaps_any(box_at(x, y), trees) {
            lemma_slide_left(trees, x, y);
            let s = slide_left(trees, x, y);
            assert forall|i: int| 0 <= i < trees.len() implies !rects_overlap(
                box_at(s, y),
                #[trigger] trees[i].hitbox,
            ) by {
                assert(!rects_overlap(box_at(x, y), trees[i].hitbox));
            }
            lemma_slide_up(trees, s, y);
            let u = slide_up(trees, s, y);
            assert forall|i: int| 0 <= i < trees.len() implies !rects_overlap(
                box_at(s, u),
                #[trigger] trees[i].hitbox,
            ) by {
                assert(!rects_overlap(box_at(s, y), trees[i].hitbox));
            }
            let a = choose|a: int| 0 <= a <= trees.len() && s == cand_x(trees, a);
            let b = choose|b: int| 0 <= b <= trees.len() && u == cand_y(trees, b);
            assert(overlaps_any(box_at(cand_x(trees, a), cand_y(trees, b)), trees));
        }
    }
}

/// The first spot, among the candidate columns and rows, where the player's
/// box fits the map and overlaps no tree; `None` only when every spot of the
/// map overlaps a tree.
pub fn search_free_box(trees: &Vec<Tree>, mw: i64, mh: i64) -> (r: Option<(i64, i64)>)
    requires
        FABIEN_WIDTH <= mw <= MAX_MAP_SIZE,
        FABIEN_HEIGHT <= mh <= MAX_MAP_SIZE,
    ensures
        r matches Some((x, y)) ==> !overlaps_any(box_at(x as int, y as int), trees@) && 0 <= x <= mw
            - FABIEN_WIDTH && 0 <= y <= mh - FABIEN_HEIGHT,
        r is None ==> map_blocked(trees@, mw as int, mh as int),
{
    let n = trees.len();
    let mut a: usize = 0;
    loop
        invariant
            FABIEN_WIDTH <= mw <= MAX_MAP_SIZE,
            FABIEN_HEIGHT <= mh <= MAX_MAP_SIZE,
            n == trees@.len(),
            a <= n,
            forall|aa: int, bb: int|
                0 <= aa < a && 0 <= bb <= n && 0 <= cand_x(trees@, aa) <= mw - FABIEN_WIDTH && 0
                    <= cand_y(trees@, bb) <= mh - FABIEN_HEIGHT ==> #[trigger] overlaps_any(
                    box_at(cand_x(trees@, aa), cand_y(trees@, bb)),
                    trees@,
                ),
        ensures
            forall|aa: int, bb: int|
                0 <= aa <= n && 0 <= bb <= n && 0 <= cand_x(trees@, aa) <= mw - FABIEN_WIDTH && 0
                    <= cand_y(trees@, bb) <= mh - FABIEN_HEIGHT ==> #[trigger] overlaps_any(
                    box_at(cand_x(trees@, aa), cand_y(trees@, bb)),
                    trees@,
                ),
        decreases n - a,
    {
        let cx: i128 = if a == 0 {
            0
        } else {
            trees[a - 1].hitbox.x as i128 + trees[a - 1].hitbox.w as i128 + 1
        };
        assert(cx == cand_x(trees@, a as int));
        if 0 <= cx && cx <= (mw - FABIEN_WIDTH) as i128 {
            let mut b: usize = 0;
            loop
                invariant
                    FABIEN_WIDTH <= mw <= MAX_MAP_SIZE,
                    FABIEN_HEIGHT <= mh <= MAX_MAP_SIZE,
                    n == trees@.len(),
                    a <= n,
                    b <= n,
                    cx == cand_x(trees@, a as int),
                    0 <= cx <= mw - FABIEN_WIDTH,
                    forall|aa: int, bb: int|
                        0 <= aa < a && 0 <= bb <= n && 0 <= cand_x(trees@, aa) <= mw - FABIEN_WIDTH
                            && 0 <= cand_y(trees@, bb) <= mh - FABIEN_HEIGHT ==> #[trigger] overlaps_any(
                            box_at(cand_x(trees@, aa), cand_y(trees@, bb)),
                            trees@,
                        ),
                    forall|bb: int|
                        0 <= bb < b && 0 <= #[trigger] cand_y(trees@, bb) <= mh - FABIEN_HEIGHT ==> overlaps_any(
                            box_at(cx as int, cand_y(trees@, bb)),
                            trees@,
                        ),
                ensures
                    forall|bb: int|
                        0 <= bb <= n && 0 <= #[trigger] cand_y(trees@, bb) <= mh - FABIEN_HEIGHT ==> overlaps_any(
                            box_at(cx as int, cand_y(trees@, bb)),
                            trees@,
                        ),
                decreases n - b,
            {
                let cy: i128 = if b == 0 {
                    0
                } else {
                    trees[b - 1].hitbox.y as i128 + trees[b - 1].hitbox.h as i128 + 1
                };
                assert(cy == cand_y(trees@, b as int));
                if 0 <= cy && cy <= (mh - FABIEN_HEIGHT) as i128 {
                    let h = Rect::new(cx as i64, cy as i64, FABIEN_WIDTH, FABIEN_HEIGHT);
                    if !overlaps_any_of(&h, trees) {
                        return Some((cx as i64, cy as i64));
                    }
                }
                assert(0 <= cy <= mh - FABIEN_HEIGHT ==> overlaps_any(box_at(cx as int, cand_y(trees@, b as int)), trees@));
                if b == n {
                    break;
                }
                b = b + 1;
            }
        }
        if a == n {
            break;
        }
        a = a + 1;
    }
    proof {
        lemma_candidates_suffice(trees@, mw as int, mh as int);
    }
    None
}

/// Whether the box `h` overlaps any of the trees.
pub open spec fn overlaps_any(h: Rect, trees: Seq<Tree>) -> bool {
    exists|i: int| 0 <= i < trees.len() && rects_overlap(h, #[trigger] trees[i].hitbox)
}

pub fn overlaps_any_of(h: &Rect, trees: &Vec<Tree>) -> (r: bool)
    ensures
        r == overlaps_any(*h, trees@),
{
    let mut i: usize = 0;
    while i < trees.len()
        invariant
            i <= trees@.len(),
            forall|k: int| 0 <= k < i ==> !rects_overlap(*h, #[trigger] trees@[k].hitbox),
        decreases trees@.len() - i,
    {
        if h.overlaps(&trees[i].hitbox) {
            return true;
        }
        i = i + 1;
    }
    false
}

/// The projectiles after a tick of `dt_ms`: each one flown, then the first
/// one out of life dropped.
pub open spec fn shots_after(s: Seq<Bullet>, dt_ms: int) -> Seq<Bullet> {
    let upd = s.map_values(|b: Bullet| b.advanced(dt_ms));
    let k = first_expired(upd);
    if k < upd.len() {
        upd.remove(k)
    } else {
        upd
    }
}

/// `first_expired` finds the first projectile out of life.
pub proof fn lemma_first_expired(s: Seq<Bullet>, k: int)
    requires
        0 <= k <= s.len(),
        forall|j: int| 0 <= j < k ==> (#[trigger] s[j]).alive(),
        k < s.len() ==> !s[k].alive(),
    ensures
        first_expired(s) == k,
    decreases k,
{
    if k > 0 {
        assert(s[0].alive());
        let t = s.drop_first();
        assert forall|j: int| 0 <= j < k - 1 implies (#[trigger] t[j]).alive() by {
            assert(s[j + 1].alive());
        }
        if k < s.len() {
            assert(t[k - 1] == s[k]);
        }
        lemma_first_expired(t, k - 1);
    }
}

/// The player after `n` hits in a row.
pub open spec fn hit_n(f: Fabien, n: nat) -> Fabien
    decreases n,
{
    if n == 0 {
        f
    } else {
        hit_n(f, (n - 1) as nat).hit()
    }
}

/// Health stays within `[0, max_health]`: through any number of hits, and
/// after a heal of any amount.
pub proof fn lemma_health_bounds(f: Fabien, n: nat, amount: u8)
    requires
        f.health <= f.max_health,
    ensures
        0 <= hit_n(f, n).health <= hit_n(f, n).max_health,
        hit_n(f, n).max_health == f.max_health,
        0 <= f.activated(Powerups::Heal(amount)).health <= f.max_health,
    decreases n,
{
    if n > 0 {
        lemma_health_bounds(f, (n - 1) as nat, amount);
    }
}

/// Two hits within the invincibility window change the health exactly once.
pub proof fn lemma_invincibility_idempotent(f: Fabien)
    requires
        f.invicibility_frames == 0,
        f.health > 0,
    ensures
        f.hit().hit().health == f.health - 1,
        f.hit().health == f.health - 1,
{
}

/// Firing never takes ammo below zero: with no ammo it is refused and nothing
/// changes, no projectile and no particle included; otherwise a shot takes
/// exactly one ammo, and a refused one takes none.
pub proof fn lemma_ammo(f: Fabien, after: Fabien, tx: int, ty: int)
    requires
        f.fired(after, tx, ty),
    ensures
        f.ammos == 0 ==> after == f,
        after.ammos == f.ammos || after.ammos == f.ammos - 1,
        after.ammos == f.ammos - 1 <==> after.shots@.len() == f.shots@.len() + 1,
        after.ammos == f.ammos <==> after == f,
        after.ammos >= 0,
{
}

} // verus!
