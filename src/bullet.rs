use vstd::prelude::*;
use crate::geometry::{clamp_i64, shift, Rect};
use crate::particle::{moved, step_of};

verus! {

/// A projectile: a point-sized box flying in a straight line, with a lifetime
/// and a budget of further pursuers it may pass through.
#[derive(Clone, Copy, Debug)]
pub struct Bullet {
    pub hitbox: Rect,
    pub vx: i64,
    pub vy: i64,
    pub nb_pierce: i8,
    pub life: i64,
}

impl Bullet {
    pub open spec fn alive(&self) -> bool {
        self.life > 0
    }

    pub fn new(vx: i64, vy: i64, hitbox: Rect, nb_pierce: i8, life: i64) -> (r: Bullet)
        ensures
            r == (Bullet { hitbox, vx, vy, nb_pierce, life }),
    {
        Bullet { hitbox, vx, vy, nb_pierce, life }
    }

    /// The projectile after a tick of `dt_ms`: moved along its velocity and aged.
    pub open spec fn advanced(self, dt_ms: int) -> Bullet {
        Bullet {
            hitbox: Rect {
                x: moved(self.hitbox.x as int, self.vx as int, dt_ms) as i64,
                y: moved(self.hitbox.y as int, self.vy as int, dt_ms) as i64,
                ..self.hitbox
            },
            life: clamp_i64(self.life - dt_ms) as i64,
            ..self
        }
    }

    /// Moves the projectile by one tick of `dt_ms` and ages it; the result says
    /// whether it still has life left.
    pub fn update(&mut self, dt_ms: u32) -> (alive: bool)
        ensures
            *final(self) == old(self).advanced(dt_ms as int),
            alive == final(self).alive(),
    {
        self.hitbox.x = shift(self.hitbox.x, step_of(self.vx, dt_ms));
        self.hitbox.y = shift(self.hitbox.y, step_of(self.vy, dt_ms));
        self.life = shift(self.life, -(dt_ms as i64));
        self.life > 0
    }

    pub fn get_hitbox(&self) -> (r: Rect)
        ensures
            r == self.hitbox,
    {
        self.hitbox
    }

    pub fn set_life(&mut self, new_life: i64)
        ensures
            *final(self) == (Bullet { life: new_life, ..*old(self) }),
    {
        self.life = new_life;
    }

    /// Spends one unit of the pierce budget (held at the type's lower bound).
    pub fn hit_something(&mut self)
        ensures
            final(self).nb_pierce == if old(self).nb_pierce > i8::MIN {
                old(self).nb_pierce - 1
            } else {
                old(self).nb_pierce as int
            },
            final(self).hitbox == old(self).hitbox,
            final(self).vx == old(self).vx,
            final(self).vy == old(self).vy,
            final(self).life == old(self).life,
    {
        if self.nb_pierce > i8::MIN {
            self.nb_pierce = self.nb_pierce - 1;
        }
    }

    pub fn get_nb_pierce(&self) -> (r: i8)
        ensures
            r == self.nb_pierce,
    {
        self.nb_pierce
    }
}

} // verus!
