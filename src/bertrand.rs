use vstd::prelude::*;
use crate::geometry::{rects_overlap, shift, travel, travel_of, Rect};
use crate::map::Tree;
use crate::particle::{spawn_burst, update_particles, BurstStyle, Color, Particle};
use crate::utils::{sat_add, Facing};

verus! {

/// Speed of a pursuer in the open.
pub const BERTRAND_SPEED: u64 = 75_000;

/// A pursuer inside a tree moves this many times slower.
pub const TREE_SLOWDOWN: u64 = 8;

/// Within this distance of the player along both axes, a pursuer tracks the player's live position.
pub const CHASE_RANGE: i64 = 30_000;

/// Trees further than this along both axes are not looked at.
pub const NEAR_RANGE: i64 = 50_000;

/// A swing lasting longer than this many milliseconds is over, and its pursuer gone.
pub const SWING_DURATION: u64 = 500;

/// Leaves that fly when a pursuer enters or leaves a tree.
pub const LEAF_PARTICLES: usize = 15;

/// Whether a tree's box `t` is close enough to `a` to be looked at: within
/// `NEAR_RANGE` along at least one axis.
pub open spec fn near(a: Rect, t: Rect) -> bool {
    !((t.x < a.x - NEAR_RANGE || t.x > a.x + NEAR_RANGE) && (t.y < a.y - NEAR_RANGE || t.y > a.y
        + NEAR_RANGE))
}

pub fn near_of(a: &Rect, t: &Rect) -> (r: bool)
    ensures
        r == near(*a, *t),
{
    let (ax, ay, tx, ty) = (a.x as i128, a.y as i128, t.x as i128, t.y as i128);
    let d = NEAR_RANGE as i128;
    !((tx < ax - d || tx > ax + d) && (ty < ay - d || ty > ay + d))
}

/// Whether the box `h` overlaps a tree that is near it.
pub open spec fn in_some_tree(h: Rect, trees: Seq<Tree>) -> bool {
    exists|i: int|
        0 <= i < trees.len() && near(h, #[trigger] trees[i].hitbox) && rects_overlap(h, trees[i].hitbox)
}

pub fn in_some_tree_of(h: &Rect, trees: &Vec<Tree>) -> (r: bool)
    ensures
        r == in_some_tree(*h, trees@),
{
    let mut i: usize = 0;
    while i < trees.len()
        invariant
            i <= trees@.len(),
            forall|k: int|
                0 <= k < i ==> !(near(*h, #[trigger] trees@[k].hitbox) && rects_overlap(
                    *h,
                    trees@[k].hitbox,
                )),
        decreases trees@.len() - i,
    {
        if near_of(h, &trees[i].hitbox) && h.overlaps(&trees[i].hitbox) {
            return true;
        }
        i = i + 1;
    }
    false
}

/// One axis of a step of length `s` from `p` towards `t`, snapping onto `t`
/// when the step ends closer to it than `s`.
pub open spec fn approach(p: int, t: int, s: int) -> int {
    let landed = if t < p {
        p - s
    } else if t > p {
        p + s
    } else {
        p
    };
    if landed - t < s && t - landed < s {
        t
    } else {
        landed
    }
}

pub fn approach_of(p: i64, t: i64, s: u128) -> (r: i64)
    requires
        s <= u64::MAX as int * u32::MAX as int,
    ensures
        r == approach(p as int, t as int, s as int),
{
    let (pp, tt, ss) = (p as i128, t as i128, s as i128);
    let landed: i128 = if tt < pp {
        pp - ss
    } else if tt > pp {
        pp + ss
    } else {
        pp
    };
    if landed - tt < ss && tt - landed < ss {
        t
    } else {
        landed as i64
    }
}

/// The way a character faces after stepping from `(px, py)` towards `(tx, ty)`:
/// vertical motion decides over horizontal, no motion keeps `f`.
pub open spec fn facing_towards(f: Facing, px: int, py: int, tx: int, ty: int) -> Facing {
    if ty < py {
        Facing::Up
    } else if ty > py {
        Facing::Down
    } else if tx < px {
        Facing::Left
    } else if tx > px {
        Facing::Right
    } else {
        f
    }
}

/// Whether `h` lies within `CHASE_RANGE` of the player's box `f` along both axes.
pub open spec fn within_chase(h: Rect, f: Rect) -> bool {
    &&& f.x - CHASE_RANGE < h.x < f.x + CHASE_RANGE
    &&& f.y - CHASE_RANGE < h.y < f.y + CHASE_RANGE
}

/// A pursuer: it walks towards the player and, once it touches them, swings.
pub struct Bertrand {
    pub hitbox: Rect,
    pub facing: Facing,
    pub animation_cycle: u8,
    pub animation_time: u64,
    pub swinging: bool,
    pub swing_time: u64,
    pub objective_x: i64,
    pub objective_y: i64,
    pub is_in_tree: bool,
    pub particles: Vec<Particle>,
    pub speed: u64,
}

/// Speed `base` slowed down inside a tree.
pub open spec fn speed_in(base: u64, in_tree: bool) -> int {
    if in_tree {
        base as int / TREE_SLOWDOWN as int
    } else {
        base as int
    }
}

impl Bertrand {
    /// The point the pursuer heads for on its next update, given the player's box.
    pub open spec fn target(&self, f: Rect) -> (int, int) {
        if within_chase(self.hitbox, f) || self.animation_cycle == 0 {
            (f.x as int, f.y as int)
        } else {
            (self.objective_x as int, self.objective_y as int)
        }
    }

    pub open spec fn is_dead_spec(&self) -> bool {
        self.swing_time > SWING_DURATION
    }

    /// How `after` relates to `self` after a tick of `dt_ms` with the player
    /// at `f` among `trees`: a swinging pursuer only times its swing; any other
    /// notes whether it stands in a near tree, which slows it down, and steps
    /// towards its target (see `approach`, `target`).
    pub open spec fn stepped(self, after: Bertrand, f: Rect, trees: Seq<Tree>, dt_ms: int) -> bool {
        &&& self.swinging ==> {
            &&& after.hitbox == self.hitbox
            &&& after.swinging
            &&& after.swing_time == sat_add(self.swing_time, dt_ms as u64)
            &&& after.is_in_tree == self.is_in_tree
            &&& after.facing == self.facing
        }
        &&& !self.swinging ==> {
            let s = travel(speed_in(self.speed, after.is_in_tree), dt_ms);
            let t = self.target(f);
            &&& after.is_in_tree == in_some_tree(self.hitbox, trees)
            &&& after.hitbox == Rect {
                x: approach(self.hitbox.x as int, t.0, s) as i64,
                y: approach(self.hitbox.y as int, t.1, s) as i64,
                ..self.hitbox
            }
            &&& after.facing == facing_towards(self.facing, self.hitbox.x as int, self.hitbox.y as int, t.0, t.1)
            &&& (!within_chase(self.hitbox, f) && self.animation_cycle == 0) ==> (after.objective_x == f.x
                && after.objective_y == f.y)
            &&& (within_chase(self.hitbox, f) || self.animation_cycle != 0) ==> (after.objective_x
                == self.objective_x && after.objective_y == self.objective_y)
            &&& !after.swinging
            &&& after.swing_time == self.swing_time
        }
        &&& after.speed == self.speed
        &&& after.animation_cycle == self.animation_cycle
    }

    pub fn new(hitbox: Rect) -> (r: Bertrand)
        ensures
            r.hitbox == hitbox,
            r.facing == Facing::Down,
            r.animation_cycle == 0,
            !r.swinging,
            r.swing_time == 0,
            !r.is_in_tree,
            r.particles@.len() == 0,
            r.speed == BERTRAND_SPEED,
    {
        Bertrand {
            hitbox,
            facing: Facing::Down,
            animation_cycle: 0,
            animation_time: 0,
            swinging: false,
            swing_time: 0,
            objective_x: 0,
            objective_y: 0,
            is_in_tree: false,
            particles: Vec::new(),
            speed: BERTRAND_SPEED,
        }
    }

    /// One tick of `dt_ms`: a swinging pursuer only times its swing; any other
    /// notes whether it stands in a tree (which slows it down), then steps
    /// towards its target.
    pub fn update(&mut self, fabien_hitbox: Rect, trees: &Vec<Tree>, dt_ms: u32)
        ensures
            old(self).stepped(*final(self), fabien_hitbox, trees@, dt_ms as int),
    {
        if self.swinging {
            self.swing_time = self.swing_time.saturating_add(dt_ms as u64);
            update_particles(&mut self.particles, dt_ms);
            return;
        }
        let was_in_tree = self.is_in_tree;
        let now_in_tree = in_some_tree_of(&self.hitbox, trees);
        if now_in_tree != was_in_tree {
            self.spawn_leaf_particles();
        }
        self.is_in_tree = now_in_tree;

        let speed: u64 = if now_in_tree { self.speed / TREE_SLOWDOWN } else { self.speed };
        let next_move = travel_of(speed, dt_ms);
        proof {
            assert(speed as int * dt_ms as int <= u64::MAX as int * u32::MAX as int) by (nonlinear_arith)
                requires speed <= u64::MAX, dt_ms <= u32::MAX;
        }
        let (tx, ty) = if (self.hitbox.x as i128) < (fabien_hitbox.x as i128) + (CHASE_RANGE as i128)
            && (self.hitbox.x as i128) > (fabien_hitbox.x as i128) - (CHASE_RANGE as i128)
            && (self.hitbox.y as i128) < (fabien_hitbox.y as i128) + (CHASE_RANGE as i128)
            && (self.hitbox.y as i128) > (fabien_hitbox.y as i128) - (CHASE_RANGE as i128) {
            (fabien_hitbox.x, fabien_hitbox.y)
        } else {
            if self.animation_cycle == 0 {
                self.objective_x = fabien_hitbox.x;
                self.objective_y = fabien_hitbox.y;
            }
            (self.objective_x, self.objective_y)
        };
        self.move_towards(tx, ty, next_move);
        update_particles(&mut self.particles, dt_ms);
    }

    /// Steps each axis by `step` towards `(tx, ty)`, snapping onto the target.
    fn move_towards(&mut self, tx: i64, ty: i64, step: u128)
        requires
            step <= u64::MAX as int * u32::MAX as int,
        ensures
            final(self).hitbox == (Rect {
                x: approach(old(self).hitbox.x as int, tx as int, step as int) as i64,
                y: approach(old(self).hitbox.y as int, ty as int, step as int) as i64,
                ..old(self).hitbox
            }),
            final(self).facing == facing_towards(
                old(self).facing,
                old(self).hitbox.x as int,
                old(self).hitbox.y as int,
                tx as int,
                ty as int,
            ),
            final(self).swinging == old(self).swinging,
            final(self).swing_time == old(self).swing_time,
            final(self).is_in_tree == old(self).is_in_tree,
            final(self).speed == old(self).speed,
            final(self).animation_cycle == old(self).animation_cycle,
            final(self).objective_x == old(self).objective_x,
            final(self).objective_y == old(self).objective_y,
    {
        if tx < self.hitbox.x {
            self.facing = Facing::Left;
        } else if tx > self.hitbox.x {
            self.facing = Facing::Right;
        }
        if ty < self.hitbox.y {
            self.facing = Facing::Up;
        } else if ty > self.hitbox.y {
            self.facing = Facing::Down;
        }
        self.hitbox.x = approach_of(self.hitbox.x, tx, step);
        self.hitbox.y = approach_of(self.hitbox.y, ty, step);
    }

    fn spawn_leaf_particles(&mut self)
        ensures
            final(self).particles@.len() == old(self).particles@.len() + LEAF_PARTICLES,
            final(self).hitbox == old(self).hitbox,
            final(self).facing == old(self).facing,
            final(self).swinging == old(self).swinging,
            final(self).swing_time == old(self).swing_time,
            final(self).is_in_tree == old(self).is_in_tree,
            final(self).speed == old(self).speed,
            final(self).animation_cycle == old(self).animation_cycle,
            final(self).objective_x == old(self).objective_x,
            final(self).objective_y == old(self).objective_y,
    {
        let style = BurstStyle {
            color_low: Color { r: 77, g: 149, b: 4 },
            color_high: Color { r: 107, g: 189, b: 24 },
            speed: 15000,
            rotation_speed: 20000,
            size_low: 500,
            size_high: 1500,
            life_low: 1000,
            life_high: 2000,
        };
        let cx = shift(self.hitbox.x, self.hitbox.w / 2);
        let cy = shift(self.hitbox.y, self.hitbox.h / 2);
        spawn_burst(&mut self.particles, LEAF_PARTICLES, cx, cy, style);
    }

    /// Advances the walking animation by `dt_ms`, or picks the swing frame.
    pub fn advance_animation(&mut self, dt_ms: u32)
        requires
            old(self).animation_cycle < 6,
        ensures
            final(self).animation_cycle < 6,
            old(self).swinging ==> final(self).animation_cycle == if old(self).swing_time < 250 {
                4u8
            } else {
                5u8
            },
            !old(self).swinging ==> {
                let t = sat_add(old(self).animation_time, dt_ms as u64);
                &&& final(self).animation_time == if t > 166 { 0 } else { t }
                &&& final(self).animation_cycle == if t > 166 {
                    (old(self).animation_cycle + 1) % 4
                } else {
                    old(self).animation_cycle as int
                }
            },
            final(self).hitbox == old(self).hitbox,
            final(self).swinging == old(self).swinging,
            final(self).swing_time == old(self).swing_time,
            final(self).is_in_tree == old(self).is_in_tree,
            final(self).speed == old(self).speed,
    {
        if !self.swinging {
            self.animation_time = self.animation_time.saturating_add(dt_ms as u64);
            if self.animation_time > 166 {
                self.animation_time = 0;
                self.animation_cycle = (self.animation_cycle + 1) % 4;
            }
        } else {
            self.animation_cycle = if self.swing_time < 250 { 4 } else { 5 };
        }
    }

    pub fn get_hitbox(&self) -> (r: Rect)
        ensures
            r == self.hitbox,
    {
        self.hitbox
    }

    /// A pursuer is gone once its swing has lasted `SWING_DURATION`.
    pub fn is_dead(&self) -> (r: bool)
        ensures
            r == self.is_dead_spec(),
    {
        self.swing_time > SWING_DURATION
    }

    pub fn is_swinging(&self) -> (r: bool)
        ensures
            r == self.swinging,
    {
        self.swinging
    }

    /// Starts the swing: the pursuer stops where it stands.
    pub fn swing(&mut self)
        ensures
            *final(self) == (Bertrand { swinging: true, ..*old(self) }),
    {
        self.swinging = true;
    }
}

} // verus!
