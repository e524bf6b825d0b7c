use vstd::prelude::*;
use crate::bertrand::{Bertrand, BERTRAND_SPEED};
use crate::bullet::Bullet;
use crate::fabien::{
    overlaps_any, overlaps_any_of, Fabien, FABIEN_HEIGHT, FABIEN_SPEED, FABIEN_WIDTH, MAX_HEALTH, MAX_SCREEN,
    STARTING_AMMOS,
};
use crate::geometry::{clamp_i64, rect_holds, rects_overlap, Rect};
use crate::map::{GameMap, Tree};
use crate::powerup::{bob_offset, powerup_of_rolls, Powerup, Powerups, POWERUP_SIZE};
use crate::utils::{
    rand,
    first_index, lemma_filter_step, lemma_first_index, lemma_first_index_range, sat_add, zero_stats,
    Stats,
};

verus! {

/// The `n`-th wave ends once the game has run `WAVE_PERIOD * n` milliseconds.
pub const WAVE_PERIOD: u64 = 60_000;

/// Score granted on reaching a wave, per wave number.
pub const WAVE_BONUS: u64 = 10;

/// Pursuer spawn draws are taken in `0..=BERTRAND_RATE / (9 * wave)` milliseconds.
pub const BERTRAND_RATE: u64 = 6_500_000;

/// Powerup spawn draws are taken in `0..=POWERUP_RATE / (6 * (wave + 1))` milliseconds.
pub const POWERUP_RATE: u64 = 35_000_000;

/// No pursuer appears within this distance of the player along both axes.
pub const EXCLUSION: i64 = 200_000;

/// Random spots tried for a pursuer before its spawn is put off to a later tick.
pub const PLACEMENT_TRIES: u64 = 100;

pub const BERTRAND_WIDTH: i64 = 8_000;

pub const BERTRAND_HEIGHT: i64 = 16_000;

/// Side of the grid searched for a spawn spot once random draws failed.
pub const SCAN_STEP: i64 = 10_000;

/// Whether the point `(x, y)` lies in none of the trees' boxes.
pub open spec fn tree_free(trees: Seq<Tree>, x: int, y: int) -> bool {
    forall|i: int| 0 <= i < trees.len() ==> !rect_holds(#[trigger] trees[i].hitbox, x, y)
}

/// Whether `(x, y)` lies outside the box of half-side `EXCLUSION` around the
/// player's position `f`.
pub open spec fn outside_exclusion(f: Rect, x: int, y: int) -> bool {
    x < f.x - EXCLUSION || x > f.x + EXCLUSION || y < f.y - EXCLUSION || y > f.y + EXCLUSION
}

/// Whether a pursuer may appear at `(x, y)`: the point lies in no tree's box,
/// and outside the exclusion box around the player.
pub open spec fn spawn_ok(trees: Seq<Tree>, f: Rect, x: int, y: int) -> bool {
    tree_free(trees, x, y) && outside_exclusion(f, x, y)
}

/// A spot free of trees and, when `strict`, outside the exclusion box.
pub open spec fn spot_ok(trees: Seq<Tree>, f: Rect, x: int, y: int, strict: bool) -> bool {
    tree_free(trees, x, y) && (strict ==> outside_exclusion(f, x, y))
}

/// Whether the grid point `(i * SCAN_STEP, j * SCAN_STEP)` is such a spot.
pub open spec fn grid_ok(trees: Seq<Tree>, f: Rect, i: int, j: int, strict: bool) -> bool {
    spot_ok(trees, f, i * SCAN_STEP, j * SCAN_STEP, strict)
}

/// No grid point of a `w` by `h` map is such a spot.
pub open spec fn no_grid_spot(trees: Seq<Tree>, f: Rect, w: int, h: int, strict: bool) -> bool {
    forall|i: int, j: int|
        0 <= i && i * SCAN_STEP <= w && 0 <= j && j * SCAN_STEP <= h ==> !#[trigger] grid_ok(
            trees,
            f,
            i,
            j,
            strict,
        )
}

/// Where a new pursuer may stand on a `w` by `h` map: on the map, at a spot
/// where a pursuer may appear unless no grid point is one, and free of trees
/// unless no grid point is.
pub open spec fn well_placed(trees: Seq<Tree>, f: Rect, w: int, h: int, x: int, y: int) -> bool {
    &&& 0 <= x <= w
    &&& 0 <= y <= h
    &&& spawn_ok(trees, f, x, y) || no_grid_spot(trees, f, w, h, true)
    &&& tree_free(trees, x, y) || no_grid_spot(trees, f, w, h, false)
}

/// `score` raised by the bonus of reaching wave `wave`, held at `u32::MAX`.
pub open spec fn with_bonus(score: u32, wave: u32) -> u32 {
    if score + WAVE_BONUS * wave > u32::MAX {
        u32::MAX
    } else {
        (score + WAVE_BONUS * wave) as u32
    }
}

/// A new powerup of a random kind lying at a point of a `w` by `h` map.
pub open spec fn fresh_powerup(p: Powerup, w: int, h: int) -> bool {
    &&& exists|k: int, a: int, b: int|
        0 <= k < 100 && 0 <= a && 0 <= b && p.powerup == powerup_of_rolls(k, a, b)
    &&& 0 <= p.hitbox.x < w
    &&& 0 <= p.base_y < h
    &&& p.hitbox == Rect { x: p.hitbox.x, y: p.base_y, w: POWERUP_SIZE, h: POWERUP_SIZE }
    &&& p.particles@.len() == 0
    &&& p.time_since_last_particle == 0
}

/// A new pursuer standing at `(x, y)`.
pub open spec fn fresh_bertrand(b: Bertrand, x: int, y: int) -> bool {
    &&& b.hitbox == Rect { x: x as i64, y: y as i64, w: BERTRAND_WIDTH, h: BERTRAND_HEIGHT }
    &&& !b.swinging
    &&& b.swing_time == 0
    &&& !b.is_in_tree
    &&& b.speed == BERTRAND_SPEED
}

/// A session: the map, the player, the pursuers and powerups on the map, the
/// statistics gathered, and the clock that drives waves and spawns.
pub struct Game {
    pub map: GameMap,
    pub fabien: Fabien,
    pub bertrands: Vec<Bertrand>,
    pub powerups: Vec<Powerup>,
    pub stats: Stats,
    pub ms_since_last_bertrand: u64,
    pub ms_since_last_powerup: u64,
    pub time_passed: u64,
    pub wave: u32,
    pub game_over: bool,
}

/// Holds of a pursuer that no projectile of `shots` touches.
pub open spec fn unharmed(shots: Seq<Bullet>) -> spec_fn(Bertrand) -> bool {
    |b: Bertrand| forall|i: int| 0 <= i < shots.len() ==> !rects_overlap(b.hitbox, #[trigger] shots[i].hitbox)
}

/// Holds of a projectile that touches the box `h`.
pub open spec fn touching(h: Rect) -> spec_fn(Bullet) -> bool {
    |s: Bullet| rects_overlap(h, s.hitbox)
}

/// Holds of a pursuer whose first touching projectile in `shots` is the `i`-th.
pub open spec fn struck_by(shots: Seq<Bullet>, i: int) -> spec_fn(Bertrand) -> bool {
    |b: Bertrand| first_index(shots, touching(b.hitbox)) == i
}

/// A pierce budget `p` after `n` hits, held at the type's lower bound.
pub open spec fn pierce_after(p: int, n: int) -> int {
    if p - n < i8::MIN {
        i8::MIN as int
    } else {
        p - n
    }
}

/// Projectile `s` once it has struck `n` pursuers in a pass: its budget spent
/// by `n`, and its life ended if the budget went negative.
pub open spec fn after_strikes(s: Bullet, n: int) -> Bullet {
    let p = pierce_after(s.nb_pierce as int, n);
    Bullet { nb_pierce: p as i8, life: if p < 0 { 0 } else { s.life }, ..s }
}

/// Holds of a projectile whose pierce budget went negative.
pub open spec fn spent_shot() -> spec_fn(Bullet) -> bool {
    |s: Bullet| s.nb_pierce < 0
}

/// Holds of a pursuer that is not swinging and touches the box `f`.
pub open spec fn contact(f: Rect) -> spec_fn(Bertrand) -> bool {
    |b: Bertrand| !b.swinging && rects_overlap(b.hitbox, f)
}

pub open spec fn alive_bertrand() -> spec_fn(Bertrand) -> bool {
    |b: Bertrand| !b.is_dead_spec()
}

/// Holds of a powerup that touches the box `f`.
pub open spec fn reachable(f: Rect) -> spec_fn(Powerup) -> bool {
    |p: Powerup| rects_overlap(p.hitbox, f)
}

/// Holds of a projectile that touches one of the trees.
pub open spec fn in_a_tree(trees: Seq<Tree>) -> spec_fn(Bullet) -> bool {
    |s: Bullet| overlaps_any(s.hitbox, trees)
}

fn first_touching(h: &Rect, shots: &Vec<Bullet>) -> (r: usize)
    ensures
        r <= shots@.len(),
        r < shots@.len() ==> rects_overlap(*h, shots@[r as int].hitbox),
        forall|j: int| 0 <= j < r ==> !rects_overlap(*h, #[trigger] shots@[j].hitbox),
{
    let mut i: usize = 0;
    while i < shots.len()
        invariant
            i <= shots@.len(),
            forall|j: int| 0 <= j < i ==> !rects_overlap(*h, #[trigger] shots@[j].hitbox),
        decreases shots@.len() - i,
    {
        if h.overlaps(&shots[i].hitbox) {
            return i;
        }
        i = i + 1;
    }
    i
}

impl Game {
    pub open spec fn wf(&self) -> bool {
        &&& self.map.wf()
        &&& self.fabien.wf()
        &&& self.fabien.map_width == self.map.width
        &&& self.fabien.map_height == self.map.height
        &&& self.wave >= 1
    }

    /// Projectiles against pursuers, as `resolve_shots` does it, with
    /// `removed` pursuers gone.
    pub open spec fn shots_resolved(self, after: Game, removed: int) -> bool {
        &&& after.bertrands@ == self.bertrands@.filter(unharmed(self.fabien.shots@))
        &&& removed == self.bertrands@.len() - after.bertrands@.len()
        &&& after.fabien.shots@.len() == self.fabien.shots@.len()
        &&& forall|i: int|
            0 <= i < after.fabien.shots@.len() ==> #[trigger] after.fabien.shots@[i] == after_strikes(
                self.fabien.shots@[i],
                self.bertrands@.filter(struck_by(self.fabien.shots@, i)).len() as int,
            )
        &&& after == Game {
            bertrands: after.bertrands,
            fabien: Fabien { shots: after.fabien.shots, ..self.fabien },
            stats: Stats {
                shots: sat_add(self.stats.shots, after.fabien.shots@.filter(spent_shot()).len() as u64),
                ..self.stats
            },
            ..self
        }
    }

    /// The `removed` pursuers shot down added to the score and the kill count.
    pub open spec fn scored(self, after: Game, removed: int) -> bool {
        after == Game {
            fabien: Fabien {
                score: if self.fabien.score + removed > u32::MAX {
                    u32::MAX
                } else {
                    (self.fabien.score + removed) as u32
                },
                ..self.fabien
            },
            stats: Stats {
                bertrand_killed: sat_add(self.stats.bertrand_killed, removed as u64),
                ..self.stats
            },
            ..self
        }
    }

    /// Pursuers against the player, as `resolve_contact` does it.
    pub open spec fn contact_resolved(self, after: Game) -> bool {
        let k = first_index(self.bertrands@, contact(self.fabien.hitbox));
        if k < self.bertrands@.len() {
            &&& after == Game {
                fabien: self.fabien.hit(),
                stats: Stats {
                    hits_taken: sat_add(
                        self.stats.hits_taken,
                        if self.fabien.invicibility_frames == 0 { 1u64 } else { 0u64 },
                    ),
                    ..self.stats
                },
                bertrands: after.bertrands,
                ..self
            }
            &&& after.bertrands@ == self.bertrands@.update(k, Bertrand { swinging: true, ..self.bertrands@[k] })
        } else {
            after == self
        }
    }

    /// Pursuers whose swing is over removed.
    pub open spec fn dead_pruned(self, after: Game) -> bool {
        &&& after.bertrands@ == self.bertrands@.filter(alive_bertrand())
        &&& after == Game { bertrands: after.bertrands, ..self }
    }

    /// The first powerup touching the player picked up, as `pick_powerup` does it.
    pub open spec fn powerup_picked(self, after: Game) -> bool {
        let k = first_index(self.powerups@, reachable(self.fabien.hitbox));
        if k < self.powerups@.len() {
            &&& after == Game {
                fabien: self.fabien.activated(self.powerups@[k].powerup),
                stats: Stats {
                    powerups_activated: sat_add(self.stats.powerups_activated, 1),
                    ..self.stats
                },
                powerups: after.powerups,
                ..self
            }
            &&& after.powerups@ == self.powerups@.remove(k)
        } else {
            after == self
        }
    }

    /// The first projectile touching a tree removed.
    pub open spec fn tree_shot_removed(self, after: Game) -> bool {
        let k = first_index(self.fabien.shots@, in_a_tree(self.map.trees@));
        if k < self.fabien.shots@.len() {
            &&& after == Game { fabien: Fabien { shots: after.fabien.shots, ..self.fabien }, ..self }
            &&& after.fabien.shots@ == self.fabien.shots@.remove(k)
        } else {
            after == self
        }
    }

    /// One pass of collision resolution, phase after phase.
    pub open spec fn collisions_resolved(self, after: Game) -> bool {
        exists|g1: Game, removed: int, g2: Game, g3: Game, g4: Game, g5: Game|
            self.shots_resolved(g1, removed) && g1.scored(g2, removed) && g2.contact_resolved(g3)
                && g3.dead_pruned(g4) && g4.powerup_picked(g5) && g5.tree_shot_removed(after)
    }

    /// Every entity moved by one tick of `dt_ms`, `self` being the session
    /// once collisions are resolved: the player, then each pursuer towards the
    /// moved player, then each powerup bobbing.
    pub open spec fn entities_moved(self, after: Game, dt_ms: int) -> bool {
        &&& self.fabien.updated(after.fabien, self.map.trees@, dt_ms)
        &&& after.map.width == self.map.width
        &&& after.map.height == self.map.height
        &&& after.map.trees@.len() == self.map.trees@.len()
        &&& forall|i: int| 0 <= i < after.map.trees@.len() ==> (#[trigger] after.map.trees@[i]).hitbox == self.map.trees@[i].hitbox
        &&& after.bertrands@.len() == self.bertrands@.len()
        &&& forall|j: int|
            0 <= j < self.bertrands@.len() ==> #[trigger] self.bertrands@[j].stepped(
                after.bertrands@[j],
                after.fabien.hitbox,
                after.map.trees@,
                dt_ms,
            )
        &&& after.powerups@.len() == self.powerups@.len()
        &&& forall|j: int|
            0 <= j < self.powerups@.len() ==> {
                let (p, q) = (self.powerups@[j], #[trigger] after.powerups@[j]);
                &&& q.powerup == p.powerup
                &&& q.base_y == p.base_y
                &&& q.hitbox == Rect { y: clamp_i64(p.base_y + bob_offset(self.time_passed as int)) as i64, ..p.hitbox }
            }
        &&& after.stats == self.stats
        &&& after.wave == self.wave
        &&& after.time_passed == self.time_passed
        &&& after.game_over == self.game_over
        &&& after.ms_since_last_bertrand == self.ms_since_last_bertrand
        &&& after.ms_since_last_powerup == self.ms_since_last_powerup
    }

    /// Pursuer spawning over a tick of `dt_ms`, as `bertrand_spawning` does
    /// it. The wave goes up by one, with its bonus, once the game has run past
    /// `WAVE_PERIOD` times the wave number. The time since the last spawn grows
    /// by `dt_ms`; a draw in `0..=BERTRAND_RATE / (9 * wave)` below it brings
    /// one fresh pursuer at a well-placed spot and restarts the count. So a
    /// count past that bound always spawns, and a count of zero never does.
    pub open spec fn pursuers_spawned(self, after: Game, dt_ms: int) -> bool {
        let up = self.time_passed > WAVE_PERIOD * self.wave && self.wave < u32::MAX;
        let wave: u32 = if up { (self.wave + 1) as u32 } else { self.wave };
        let score: u32 = if up { with_bonus(self.fabien.score, wave) } else { self.fabien.score };
        let count = sat_add(self.ms_since_last_bertrand, dt_ms as u64);
        let n = self.bertrands@.len();
        let b = after.bertrands@.last();
        &&& after == Game {
            wave,
            fabien: Fabien { score, ..self.fabien },
            bertrands: after.bertrands,
            ms_since_last_bertrand: after.ms_since_last_bertrand,
            ..self
        }
        &&& after.bertrands@.len() == n || after.bertrands@.len() == n + 1
        &&& after.bertrands@.len() == n ==> after.bertrands@ == self.bertrands@
            && after.ms_since_last_bertrand == count
        &&& after.bertrands@.len() == n + 1 ==> {
            &&& after.bertrands@.drop_last() == self.bertrands@
            &&& fresh_bertrand(b, b.hitbox.x as int, b.hitbox.y as int)
            &&& well_placed(
                self.map.trees@,
                self.fabien.hitbox,
                self.map.width as int,
                self.map.height as int,
                b.hitbox.x as int,
                b.hitbox.y as int,
            )
            &&& after.ms_since_last_bertrand == 0
        }
        &&& count > BERTRAND_RATE as int / (9 * wave as int) ==> after.bertrands@.len() == n + 1
        &&& count == 0 ==> after.bertrands@.len() == n
    }

    /// Powerup spawning over a tick of `dt_ms`, as `powerup_spawning` does it:
    /// the time since the last powerup grows by `dt_ms`; a draw in
    /// `0..=POWERUP_RATE / (6 * (wave + 1))` below it brings one random
    /// powerup at a random point of the map and restarts the count.
    pub open spec fn powerups_spawned(self, after: Game, dt_ms: int) -> bool {
        let count = sat_add(self.ms_since_last_powerup, dt_ms as u64);
        let n = self.powerups@.len();
        &&& after == Game {
            powerups: after.powerups,
            ms_since_last_powerup: after.ms_since_last_powerup,
            ..self
        }
        &&& after.powerups@.len() == n || after.powerups@.len() == n + 1
        &&& after.powerups@.len() == n ==> after.powerups@ == self.powerups@
            && after.ms_since_last_powerup == count
        &&& after.powerups@.len() == n + 1 ==> {
            &&& after.powerups@.drop_last() == self.powerups@
            &&& fresh_powerup(after.powerups@.last(), self.map.width as int, self.map.height as int)
            &&& after.ms_since_last_powerup == 0
        }
        &&& count > POWERUP_RATE as int / (6 * (self.wave + 1)) ==> after.powerups@.len() == n + 1
        &&& count == 0 ==> after.powerups@.len() == n
    }

    /// A session at its start on `map`, for a window of the given size in pixels.
    pub fn new(map: GameMap, screen_width: i64, screen_height: i64) -> (r: Game)
        requires
            map.wf(),
            FABIEN_WIDTH <= map.width,
            FABIEN_HEIGHT <= map.height,
            0 <= screen_width <= MAX_SCREEN,
            0 <= screen_height <= MAX_SCREEN,
        ensures
            r.wf(),
            r.wave == 1,
            r.time_passed == 0,
            r.stats == zero_stats(),
            r.bertrands@.len() == 0,
            r.powerups@.len() == 0,
            !r.game_over,
            r.map.width == map.width,
            r.map.height == map.height,
            r.map.trees@ == map.trees@,
            r.fabien.health == MAX_HEALTH,
            r.fabien.invicibility_frames == 0,
            r.fabien.ammos == STARTING_AMMOS,
            r.fabien.score == 0,
            r.fabien.speed == FABIEN_SPEED,
            r.fabien.active_powerup.is_none(),
            !r.fabien.shooting,
            r.fabien.shots@.len() == 0,
            r.fabien.movement_queue@.len() == 0,
            r.ms_since_last_bertrand == 0,
            r.ms_since_last_powerup == 0,
    {
        let fabien = Fabien::new(&map.trees, map.width, map.height, screen_width, screen_height);
        Game {
            map,
            fabien,
            bertrands: Vec::new(),
            powerups: Vec::new(),
            stats: Stats::new(),
            ms_since_last_bertrand: 0,
            ms_since_last_powerup: 0,
            time_passed: 0,
            wave: 1,
            game_over: false,
        }
    }

    /// Projectiles against pursuers. Every pursuer touched by a projectile is
    /// removed, and the first projectile touching it spends one unit of its
    /// pierce budget; a projectile whose budget went negative has its life
    /// ended and is counted as a shot. The result is the number removed.
    pub fn resolve_shots(&mut self) -> (removed: u64)
        ensures
            old(self).shots_resolved(*final(self), removed as int),
    {
        let ghost pre = self.bertrands@;
        let ghost shots0 = self.fabien.shots@;
        let mut j: usize = 0;
        let ghost mut k: int = 0;
        let total: usize = self.bertrands.len();
        let mut removed: usize = 0;
        while j < self.bertrands.len()
            invariant
                total == pre.len(),
                0 <= k <= pre.len(),
                j <= self.bertrands@.len(),
                self.bertrands@.subrange(0, j as int) == pre.subrange(0, k).filter(unharmed(shots0)),
                self.bertrands@.subrange(j as int, self.bertrands@.len() as int) == pre.subrange(k, pre.len() as int),
                removed == k - j,
                self.fabien.shots@.len() == shots0.len(),
                forall|i: int|
                    0 <= i < shots0.len() ==> #[trigger] self.fabien.shots@[i] == (Bullet {
                        nb_pierce: pierce_after(
                            shots0[i].nb_pierce as int,
                            pre.subrange(0, k).filter(struck_by(shots0, i)).len() as int,
                        ) as i8,
                        ..shots0[i]
                    }),
                self.bertrands@.len() - j == pre.len() - k,
                *self == (Game {
                    bertrands: self.bertrands,
                    fabien: Fabien { shots: self.fabien.shots, ..old(self).fabien },
                    ..*old(self)
                }),
            decreases pre.len() - k,
        {
            let ghost b = pre[k];
            let ghost before = self.bertrands@;
            assert(self.bertrands@[j as int] == b) by {
                assert(self.bertrands@.subrange(j as int, self.bertrands@.len() as int)[0] == pre.subrange(k, pre.len() as int)[0]);
            }
            let h = self.bertrands[j].hitbox;
            let i = first_touching(&h, &self.fabien.shots);
            proof {
                assert(k < pre.len());
                assert forall|q: int| 0 <= q < i implies !touching(h)(#[trigger] shots0[q]) by {
                    assert(self.fabien.shots@[q].hitbox == shots0[q].hitbox);
                }
                if i < shots0.len() {
                    assert(self.fabien.shots@[i as int].hitbox == shots0[i as int].hitbox);
                }
                lemma_first_index(shots0, touching(h), i as int);
                assert(unharmed(shots0)(b) == (i == shots0.len())) by {
                    if i == shots0.len() {
                        assert forall|q: int| 0 <= q < shots0.len() implies !rects_overlap(b.hitbox, #[trigger] shots0[q].hitbox) by {
                            assert(!touching(h)(shots0[q]));
                        }
                    } else {
                        assert(touching(h)(shots0[i as int]));
                    }
                }
                lemma_filter_step(pre, k, unharmed(shots0));
                assert forall|q: int| 0 <= q < shots0.len() implies #[trigger] pre.subrange(0, k + 1).filter(struck_by(shots0, q)) == if q == i {
                    pre.subrange(0, k).filter(struck_by(shots0, q)).push(b)
                } else {
                    pre.subrange(0, k).filter(struck_by(shots0, q))
                } by {
                    lemma_filter_step(pre, k, struck_by(shots0, q));
                    assert(struck_by(shots0, q)(b) == (q == i));
                }
            }
            if i < self.fabien.shots.len() {
                let _gone = self.bertrands.remove(j);
                removed = removed + 1;
                let mut s = self.fabien.shots[i];
                s.hit_something();
                self.fabien.shots.set(i, s);
                proof {
                    assert(self.bertrands@ =~= before.remove(j as int));
                    assert(self.bertrands@.subrange(0, j as int) =~= before.subrange(0, j as int));
                    assert(self.bertrands@.subrange(j as int, self.bertrands@.len() as int) =~= pre.subrange(k + 1, pre.len() as int)) by {
                        assert forall|q: int| 0 <= q < self.bertrands@.len() - j implies
                            #[trigger] self.bertrands@.subrange(j as int, self.bertrands@.len() as int)[q] == pre.subrange(k + 1, pre.len() as int)[q] by {
                            assert(before.subrange(j as int, before.len() as int)[q + 1] == pre.subrange(k, pre.len() as int)[q + 1]);
                        }
                    }
                }
            } else {
                proof {
                    assert(self.bertrands@.subrange(0, j + 1) =~= before.subrange(0, j as int).push(b));
                    assert(self.bertrands@.subrange(j + 1, self.bertrands@.len() as int) =~= pre.subrange(k + 1, pre.len() as int)) by {
                        assert forall|q: int| 0 <= q < self.bertrands@.len() - j - 1 implies
                            #[trigger] self.bertrands@.subrange(j + 1, self.bertrands@.len() as int)[q] == pre.subrange(k + 1, pre.len() as int)[q] by {
                            assert(before.subrange(j as int, before.len() as int)[q + 1] == pre.subrange(k, pre.len() as int)[q + 1]);
                        }
                    }
                }
                j = j + 1;
            }
            proof {
                k = k + 1;
            }
        }
        proof {
            assert(pre.subrange(0, k) =~= pre);
            assert(self.bertrands@.subrange(0, j as int) =~= self.bertrands@);
            assert forall|q: int| 0 <= q < shots0.len() implies #[trigger] self.fabien.shots@[q]
                == (Bullet {
                    nb_pierce: pierce_after(
                        shots0[q].nb_pierce as int,
                        pre.filter(struck_by(shots0, q)).len() as int,
                    ) as i8,
                    ..shots0[q]
                }) by {
                assert(self.fabien.shots@[q] == (Bullet {
                    nb_pierce: pierce_after(
                        shots0[q].nb_pierce as int,
                        pre.subrange(0, k).filter(struck_by(shots0, q)).len() as int,
                    ) as i8,
                    ..shots0[q]
                }));
            }
        }
        let ghost struck = self.fabien.shots@;
        let mut n: u64 = 0;
        let mut i: usize = 0;
        while i < self.fabien.shots.len()
            invariant
                i <= self.fabien.shots@.len(),
                self.fabien.shots@.len() == struck.len(),
                forall|q: int| 0 <= q < i ==> #[trigger] self.fabien.shots@[q] == (Bullet {
                    life: if struck[q].nb_pierce < 0 { 0 } else { struck[q].life },
                    ..struck[q]
                }),
                forall|q: int| i <= q < struck.len() ==> #[trigger] self.fabien.shots@[q] == struck[q],
                n == self.fabien.shots@.subrange(0, i as int).filter(spent_shot()).len(),
                n <= i,
                *self == (Game {
                    bertrands: self.bertrands,
                    fabien: Fabien { shots: self.fabien.shots, ..old(self).fabien },
                    ..*old(self)
                }),
                self.bertrands@ == pre.filter(unharmed(shots0)),
                k == pre.len(),
                self.bertrands@.len() == pre.len() - removed,
            decreases struck.len() - i,
        {
            let mut s = self.fabien.shots[i];
            if s.get_nb_pierce() < 0 {
                s.set_life(0);
                n = n + 1;
            }
            let ghost prev = self.fabien.shots@;
            self.fabien.shots.set(i, s);
            proof {
                assert(self.fabien.shots@.subrange(0, i as int) =~= prev.subrange(0, i as int));
                lemma_filter_step(self.fabien.shots@, i as int, spent_shot());
            }
            i = i + 1;
        }
        proof {
            assert(self.fabien.shots@.subrange(0, i as int) =~= self.fabien.shots@);
        }
        self.stats.shots = self.stats.shots.saturating_add(n);
        removed as u64
    }

    /// Pursuers against the player: the first pursuer, in storage order, that
    /// is not swinging and touches the player hits them (counted when the hit
    /// was not absorbed by invincibility) and starts its swing. Only one
    /// pursuer hits per tick.
    pub fn resolve_contact(&mut self)
        ensures
            old(self).contact_resolved(*final(self)),
    {
        let f = self.fabien.hitbox;
        let mut i: usize = 0;
        while i < self.bertrands.len()
            invariant
                i <= self.bertrands@.len(),
                f == self.fabien.hitbox,
                *self == *old(self),
                forall|j: int| 0 <= j < i ==> !contact(f)(#[trigger] self.bertrands@[j]),
            decreases self.bertrands@.len() - i,
        {
            if !self.bertrands[i].is_swinging() && self.bertrands[i].hitbox.overlaps(&f) {
                proof {
                    lemma_first_index(self.bertrands@, contact(f), i as int);
                }
                if self.fabien.take_hit() {
                    self.stats.hits_taken = self.stats.hits_taken.saturating_add(1);
                }
                let ghost before = self.bertrands@;
                let mut b = self.bertrands.remove(i);
                b.swing();
                self.bertrands.insert(i, b);
                proof {
                    assert(self.bertrands@ =~= before.update(i as int, Bertrand { swinging: true, ..before[i as int] }));
                }
                return;
            }
            i = i + 1;
        }
        proof {
            lemma_first_index(self.bertrands@, contact(f), i as int);
        }
    }

    /// Removes the pursuers whose swing is over, keeping the order of the rest.
    pub fn prune_dead(&mut self)
        ensures
            old(self).dead_pruned(*final(self)),
    {
        let ghost pre = self.bertrands@;
        let total: usize = self.bertrands.len();
        let mut j: usize = 0;
        let ghost mut k: int = 0;
        while j < self.bertrands.len()
            invariant
                total == pre.len(),
                0 <= k <= pre.len(),
                j <= self.bertrands@.len(),
                self.bertrands@.len() - j == pre.len() - k,
                self.bertrands@.subrange(0, j as int) == pre.subrange(0, k).filter(alive_bertrand()),
                self.bertrands@.subrange(j as int, self.bertrands@.len() as int) == pre.subrange(k, pre.len() as int),
                *self == (Game { bertrands: self.bertrands, ..*old(self) }),
            decreases pre.len() - k,
        {
            let ghost b = pre[k];
            let ghost before = self.bertrands@;
            assert(self.bertrands@[j as int] == b) by {
                assert(self.bertrands@.subrange(j as int, self.bertrands@.len() as int)[0] == pre.subrange(k, pre.len() as int)[0]);
            }
            proof {
                lemma_filter_step(pre, k, alive_bertrand());
            }
            if self.bertrands[j].is_dead() {
                let _gone = self.bertrands.remove(j);
                proof {
                    assert(self.bertrands@ =~= before.remove(j as int));
                    assert(self.bertrands@.subrange(0, j as int) =~= before.subrange(0, j as int));
                    assert(self.bertrands@.subrange(j as int, self.bertrands@.len() as int) =~= pre.subrange(k + 1, pre.len() as int)) by {
                        assert forall|q: int| 0 <= q < self.bertrands@.len() - j implies
                            #[trigger] self.bertrands@.subrange(j as int, self.bertrands@.len() as int)[q] == pre.subrange(k + 1, pre.len() as int)[q] by {
                            assert(before.subrange(j as int, before.len() as int)[q + 1] == pre.subrange(k, pre.len() as int)[q + 1]);
                        }
                    }
                }
            } else {
                proof {
                    assert(self.bertrands@.subrange(0, j + 1) =~= before.subrange(0, j as int).push(b));
                    assert(self.bertrands@.subrange(j + 1, self.bertrands@.len() as int) =~= pre.subrange(k + 1, pre.len() as int)) by {
                        assert forall|q: int| 0 <= q < self.bertrands@.len() - j - 1 implies
                            #[trigger] self.bertrands@.subrange(j + 1, self.bertrands@.len() as int)[q] == pre.subrange(k + 1, pre.len() as int)[q] by {
                            assert(before.subrange(j as int, before.len() as int)[q + 1] == pre.subrange(k, pre.len() as int)[q + 1]);
                        }
                    }
                }
                j = j + 1;
            }
            proof {
                k = k + 1;
            }
        }
        proof {
            assert(pre.subrange(0, k) =~= pre);
            assert(self.bertrands@.subrange(0, j as int) =~= self.bertrands@);
        }
    }

    /// The player picks up the first powerup, in storage order, that touches
    /// them: its effect applies, it is counted, and it leaves the map. At most
    /// one powerup is picked up per tick.
    pub fn pick_powerup(&mut self)
        requires
            old(self).wf(),
        ensures
            final(self).wf(),
            old(self).powerup_picked(*final(self)),
    {
        let f = self.fabien.hitbox;
        let mut i: usize = 0;
        while i < self.powerups.len()
            invariant
                old(self).wf(),
                i <= self.powerups@.len(),
                f == self.fabien.hitbox,
                *self == *old(self),
                forall|j: int| 0 <= j < i ==> !reachable(f)(#[trigger] self.powerups@[j]),
            decreases self.powerups@.len() - i,
        {
            if self.powerups[i].hitbox.overlaps(&f) {
                proof {
                    lemma_first_index(self.powerups@, reachable(f), i as int);
                }
                let p = self.powerups[i].get_powerup();
                self.fabien.activate_powerup(p);
                self.stats.powerups_activated = self.stats.powerups_activated.saturating_add(1);
                let ghost before = self.powerups@;
                let _gone = self.powerups.remove(i);
                proof {
                    assert forall|q: int| 0 <= q < self.powerups@.len() implies #[trigger] self.powerups@[q] == before[if q < i { q } else { q + 1 }] by {}
                }
                return;
            }
            i = i + 1;
        }
        proof {
            lemma_first_index(self.powerups@, reachable(f), i as int);
        }
    }

    /// Projectiles against trees: the first projectile, in order, that touches
    /// a tree is removed. At most one per tick.
    pub fn remove_shot_in_tree(&mut self)
        ensures
            old(self).tree_shot_removed(*final(self)),
    {
        let mut i: usize = 0;
        while i < self.fabien.shots.len()
            invariant
                i <= self.fabien.shots@.len(),
                *self == *old(self),
                forall|j: int| 0 <= j < i ==> !in_a_tree(self.map.trees@)(#[trigger] self.fabien.shots@[j]),
            decreases self.fabien.shots@.len() - i,
        {
            if overlaps_any_of(&self.fabien.shots[i].hitbox, &self.map.trees) {
                proof {
                    lemma_first_index(self.fabien.shots@, in_a_tree(self.map.trees@), i as int);
                }
                let _gone = self.fabien.shots.remove(i);
                return;
            }
            i = i + 1;
        }
        proof {
            lemma_first_index(self.fabien.shots@, in_a_tree(self.map.trees@), i as int);
        }
    }

    /// One pass of collision resolution, in this order: projectiles against
    /// pursuers (the pursuers removed are added to the score and to the kill
    /// count), pursuers against the player, removal of pursuers whose swing is
    /// over, powerup pickup, projectiles against trees.
    pub fn check_collisions(&mut self)
        requires
            old(self).wf(),
        ensures
            old(self).collisions_resolved(*final(self)),
            final(self).wf(),
            final(self).wave == old(self).wave,
            final(self).time_passed == old(self).time_passed,
            final(self).game_over == old(self).game_over,
            final(self).fabien.health <= final(self).fabien.max_health,
            final(self).fabien.ammos >= old(self).fabien.ammos,
            final(self).fabien.score >= old(self).fabien.score,
            final(self).bertrands@.len() <= old(self).bertrands@.len(),
            final(self).fabien.shots@.len() <= old(self).fabien.shots@.len(),
            final(self).stats.bertrand_killed >= old(self).stats.bertrand_killed,
            final(self).stats.time_played == old(self).stats.time_played,
            final(self).ms_since_last_bertrand == old(self).ms_since_last_bertrand,
            final(self).ms_since_last_powerup == old(self).ms_since_last_powerup,
    {
        let ghost g0 = *self;
        let removed = self.resolve_shots();
        let ghost g1 = *self;
        let to_add: u32 = if removed > u32::MAX as u64 { u32::MAX } else { removed as u32 };
        self.fabien.add_to_score(to_add);
        self.stats.bertrand_killed = self.stats.bertrand_killed.saturating_add(removed);
        let ghost mid = *self;
        assert(g1.scored(mid, removed as int));
        proof {
            lemma_first_index_range(mid.bertrands@, contact(mid.fabien.hitbox));
        }
        self.resolve_contact();
        proof {
            assert(self.bertrands@.len() == mid.bertrands@.len());
            assert(self.fabien.shots@ == mid.fabien.shots@);
        }
        let ghost before_prune = self.bertrands@;
        let ghost before_prune_game = *self;
        self.prune_dead();
        proof {
            before_prune.lemma_filter_len(alive_bertrand());
        }
        let ghost before_pick = *self;
        proof {
            lemma_first_index_range(before_pick.powerups@, reachable(before_pick.fabien.hitbox));
        }
        self.pick_powerup();
        proof {
            assert(self.fabien.shots@ == before_pick.fabien.shots@);
            lemma_first_index_range(self.fabien.shots@, in_a_tree(self.map.trees@));
        }
        let ghost g5 = *self;
        self.remove_shot_in_tree();
        assert(g0.shots_resolved(g1, removed as int) && g1.scored(mid, removed as int) && mid.contact_resolved(before_prune_game)
            && before_prune_game.dead_pruned(before_pick) && before_pick.powerup_picked(g5) && g5.tree_shot_removed(*self));
    }


    pub fn spot_ok_of(&self, x: i64, y: i64, strict: bool) -> (r: bool)
        ensures
            r == spot_ok(self.map.trees@, self.fabien.hitbox, x as int, y as int, strict),
    {
        let mut i: usize = 0;
        while i < self.map.trees.len()
            invariant
                i <= self.map.trees@.len(),
                forall|k: int| 0 <= k < i ==> !rect_holds(#[trigger] self.map.trees@[k].hitbox, x as int, y as int),
            decreases self.map.trees@.len() - i,
        {
            if self.map.trees[i].hitbox.contains(x, y) {
                return false;
            }
            i = i + 1;
        }
        if !strict {
            return true;
        }
        let (fx, fy, e) = (self.fabien.hitbox.x as i128, self.fabien.hitbox.y as i128, EXCLUSION as i128);
        let (px, py) = (x as i128, y as i128);
        px < fx - e || px > fx + e || py < fy - e || py > fy + e
    }

    pub fn spawn_ok_of(&self, x: i64, y: i64) -> (r: bool)
        ensures
            r == spawn_ok(self.map.trees@, self.fabien.hitbox, x as int, y as int),
    {
        self.spot_ok_of(x, y, true)
    }

    /// The first point, row by row, of the grid of step `SCAN_STEP` over the
    /// map that is a spot free of trees and, when `strict`, outside the
    /// exclusion box; `None` when no grid point is.
    pub fn scan_spot(&self, strict: bool) -> (r: Option<(i64, i64)>)
        requires
            self.wf(),
        ensures
            r matches Some((x, y)) ==> spot_ok(self.map.trees@, self.fabien.hitbox, x as int, y as int, strict)
                && 0 <= x <= self.map.width && 0 <= y <= self.map.height,
            r is None ==> no_grid_spot(
                self.map.trees@,
                self.fabien.hitbox,
                self.map.width as int,
                self.map.height as int,
                strict,
            ),
    {
        let w = self.map.width;
        let h = self.map.height;
        let mut j: i64 = 0;
        while j * SCAN_STEP <= h
            invariant
                self.wf(),
                w == self.map.width,
                h == self.map.height,
                0 <= j,
                j * SCAN_STEP <= h + SCAN_STEP,
                forall|ii: int, jj: int|
                    0 <= ii && ii * SCAN_STEP <= w && 0 <= jj < j ==> !#[trigger] grid_ok(
                        self.map.trees@,
                        self.fabien.hitbox,
                        ii,
                        jj,
                        strict,
                    ),
            decreases h + SCAN_STEP - j * SCAN_STEP,
        {
            let mut i: i64 = 0;
            while i * SCAN_STEP <= w
                invariant
                    self.wf(),
                    w == self.map.width,
                    h == self.map.height,
                    0 <= j,
                    j * SCAN_STEP <= h,
                    0 <= i,
                    i * SCAN_STEP <= w + SCAN_STEP,
                    forall|ii: int, jj: int|
                        0 <= ii && ii * SCAN_STEP <= w && 0 <= jj < j ==> !#[trigger] grid_ok(
                            self.map.trees@,
                            self.fabien.hitbox,
                            ii,
                            jj,
                            strict,
                        ),
                    forall|ii: int| 0 <= ii < i ==> !#[trigger] grid_ok(self.map.trees@, self.fabien.hitbox, ii, j as int, strict),
                decreases w + SCAN_STEP - i * SCAN_STEP,
            {
                if self.spot_ok_of(i * SCAN_STEP, j * SCAN_STEP, strict) {
                    return Some((i * SCAN_STEP, j * SCAN_STEP));
                }
                proof {
                    assert(!grid_ok(self.map.trees@, self.fabien.hitbox, i as int, j as int, strict));
                }
                i = i + 1;
            }
            proof {
                assert forall|ii: int, jj: int|
                    0 <= ii && ii * SCAN_STEP <= w && 0 <= jj < j + 1 implies !#[trigger] grid_ok(
                        self.map.trees@,
                        self.fabien.hitbox,
                        ii,
                        jj,
                        strict,
                    ) by {
                    if jj == j {
                        assert(ii < i);
                    }
                }
            }
            j = j + 1;
        }
        None
    }

    /// A spot for a new pursuer: up to `PLACEMENT_TRIES` uniform draws over
    /// the map, kept at the first valid one; failing that, the first valid
    /// point of the grid; failing that, the first grid point free of trees,
    /// close to the player as it may be; failing that, the map's corner.
    pub fn place_bertrand(&self) -> (r: (i64, i64))
        requires
            self.wf(),
        ensures
            well_placed(
                self.map.trees@,
                self.fabien.hitbox,
                self.map.width as int,
                self.map.height as int,
                r.0 as int,
                r.1 as int,
            ),
    {
        let mut n: u64 = 0;
        while n < PLACEMENT_TRIES
            invariant
                self.wf(),
            decreases PLACEMENT_TRIES - n,
        {
            let x = rand(self.map.width as u64) as i64;
            let y = rand(self.map.height as u64) as i64;
            if self.spawn_ok_of(x, y) {
                return (x, y);
            }
            n = n + 1;
        }
        let strict = self.scan_spot(true);
        if let Some(p) = strict {
            return p;
        }
        let loose = self.scan_spot(false);
        if let Some(p) = loose {
            return p;
        }
        (0, 0)
    }

    /// Wave escalation: once the game has run past `WAVE_PERIOD` times the
    /// wave number, the next wave starts and its number times `WAVE_BONUS` is
    /// added to the score.
    pub fn advance_wave(&mut self)
        ensures
            (old(self).time_passed > WAVE_PERIOD * old(self).wave && old(self).wave < u32::MAX) ==> {
                &&& final(self).wave == old(self).wave + 1
                &&& *final(self) == Game {
                    wave: final(self).wave,
                    fabien: Fabien { score: with_bonus(old(self).fabien.score, final(self).wave), ..old(self).fabien },
                    ..*old(self)
                }
            },
            !(old(self).time_passed > WAVE_PERIOD * old(self).wave && old(self).wave < u32::MAX)
                ==> *final(self) == *old(self),
    {
        if self.time_passed > WAVE_PERIOD * (self.wave as u64) && self.wave < u32::MAX {
            self.wave = self.wave + 1;
            let bonus: u64 = WAVE_BONUS * (self.wave as u64);
            let to_add: u32 = if bonus > u32::MAX as u64 { u32::MAX } else { bonus as u32 };
            self.fabien.add_to_score(to_add);
        }
    }

    /// The pursuer spawn decision for the draw `draw`: when the draw is below
    /// the time since the last spawn, a pursuer appears at the spot
    /// `place_bertrand` finds and the counter restarts.
    pub fn spawn_bertrand_with(&mut self, draw: u64)
        requires
            old(self).wf(),
        ensures
            final(self).wf(),
            draw >= old(self).ms_since_last_bertrand ==> *final(self) == *old(self),
            draw < old(self).ms_since_last_bertrand ==> {
                let b = final(self).bertrands@.last();
                &&& final(self).bertrands@.len() == old(self).bertrands@.len() + 1
                &&& final(self).bertrands@.drop_last() == old(self).bertrands@
                &&& fresh_bertrand(b, b.hitbox.x as int, b.hitbox.y as int)
                &&& well_placed(
                    old(self).map.trees@,
                    old(self).fabien.hitbox,
                    old(self).map.width as int,
                    old(self).map.height as int,
                    b.hitbox.x as int,
                    b.hitbox.y as int,
                )
                &&& *final(self) == Game {
                    bertrands: final(self).bertrands,
                    ms_since_last_bertrand: 0,
                    ..*old(self)
                }
            },
    {
        if draw < self.ms_since_last_bertrand {
            let (x, y) = self.place_bertrand();
            let ghost before = self.bertrands@;
            self.bertrands.push(Bertrand::new(Rect::new(x, y, BERTRAND_WIDTH, BERTRAND_HEIGHT)));
            self.ms_since_last_bertrand = 0;
            proof {
                assert(self.bertrands@.drop_last() =~= before);
            }
        }
    }

    /// Pursuer spawning for a tick of `dt_ms`: the wave may escalate, the time
    /// since the last spawn grows, and a draw in `0..=BERTRAND_RATE / (9 * wave)`
    /// decides (see `spawn_bertrand_with`, `pursuers_spawned`).
    pub fn bertrand_spawning(&mut self, dt_ms: u32)
        requires
            old(self).wf(),
        ensures
            final(self).wf(),
            old(self).pursuers_spawned(*final(self), dt_ms as int),
    {
        self.advance_wave();
        self.ms_since_last_bertrand = self.ms_since_last_bertrand.saturating_add(dt_ms as u64);
        let rate: u64 = BERTRAND_RATE / (9 * self.wave as u64);
        let draw = rand(rate);
        self.spawn_bertrand_with(draw);
    }

    /// The powerup spawn decision for the draw `draw`: when the draw is below
    /// the time since the last powerup, a random powerup appears at a random
    /// point of the map and the counter restarts.
    pub fn spawn_powerup_with(&mut self, draw: u64)
        requires
            old(self).wf(),
        ensures
            final(self).wf(),
            draw >= old(self).ms_since_last_powerup ==> *final(self) == *old(self),
            draw < old(self).ms_since_last_powerup ==> {
                &&& final(self).powerups@.len() == old(self).powerups@.len() + 1
                &&& final(self).powerups@.drop_last() == old(self).powerups@
                &&& fresh_powerup(final(self).powerups@.last(), old(self).map.width as int, old(self).map.height as int)
                &&& *final(self) == Game {
                    powerups: final(self).powerups,
                    ms_since_last_powerup: 0,
                    ..*old(self)
                }
            },
    {
        if draw < self.ms_since_last_powerup {
            let kind = Powerups::random();
            let x = rand(self.map.width as u64 - 1) as i64;
            let y = rand(self.map.height as u64 - 1) as i64;
            let ghost before = self.powerups@;
            self.powerups.push(Powerup::new(kind, x, y));
            self.ms_since_last_powerup = 0;
            proof {
                assert(self.powerups@.drop_last() =~= before);
            }
        }
    }

    /// Powerup spawning for a tick of `dt_ms`: the time since the last powerup
    /// grows and a draw in `0..=POWERUP_RATE / (6 * (wave + 1))` decides (see
    /// `spawn_powerup_with`, `powerups_spawned`).
    pub fn powerup_spawning(&mut self, dt_ms: u32)
        requires
            old(self).wf(),
        ensures
            final(self).wf(),
            old(self).powerups_spawned(*final(self), dt_ms as int),
    {
        self.ms_since_last_powerup = self.ms_since_last_powerup.saturating_add(dt_ms as u64);
        let rate: u64 = POWERUP_RATE / (6 * (self.wave as u64 + 1));
        let draw = rand(rate);
        self.spawn_powerup_with(draw);
    }

    /// One simulation tick of `dt_ms`: collisions are resolved, then the player,
    /// every pursuer and every powerup are updated, the clock advances, and
    /// pursuers then powerups may spawn. When the player's health is then at
    /// zero the game is over, and the time played (in whole seconds) is added
    /// to the statistics once. The result says whether the game is over.
    pub fn update(&mut self, dt_ms: u32) -> (over: bool)
        requires
            old(self).wf(),
        ensures
            exists|g1: Game, g2: Game, g3: Game, g4: Game|
                old(self).collisions_resolved(g1) && g1.entities_moved(g2, dt_ms as int) && (Game {
                    time_passed: sat_add(g2.time_passed, dt_ms as u64),
                    ..g2
                }).pursuers_spawned(g3, dt_ms as int) && g3.powerups_spawned(g4, dt_ms as int)
                    && *final(self) == (Game {
                    stats: Stats { time_played: final(self).stats.time_played, ..g4.stats },
                    game_over: final(self).game_over,
                    ..g4
                }),
            final(self).wf(),
            final(self).wave >= old(self).wave,
            final(self).time_passed == sat_add(old(self).time_passed, dt_ms as u64),
            final(self).game_over == (old(self).game_over || final(self).fabien.health == 0),
            over == final(self).game_over,
            final(self).stats.time_played == if !old(self).game_over && final(self).game_over {
                sat_add(old(self).stats.time_played, final(self).time_passed / 1000)
            } else {
                old(self).stats.time_played
            },
    {
        self.check_collisions();
        let ghost g1 = *self;
        self.fabien.update(&mut self.map.trees, dt_ms);

        let f = self.fabien.hitbox;
        let ghost s1 = *self;
        let mut i: usize = 0;
        while i < self.bertrands.len()
            invariant
                s1.wf(),
                f == s1.fabien.hitbox,
                i <= self.bertrands@.len(),
                self.bertrands@.len() == s1.bertrands@.len(),
                forall|j: int| 0 <= j < i ==> #[trigger] s1.bertrands@[j].stepped(self.bertrands@[j], f, s1.map.trees@, dt_ms as int),
                forall|j: int| i <= j < self.bertrands@.len() ==> #[trigger] self.bertrands@[j] == s1.bertrands@[j],
                *self == (Game { bertrands: self.bertrands, ..s1 }),
            decreases self.bertrands@.len() - i,
        {
            let ghost before = self.bertrands@;
            let mut b = self.bertrands.remove(i);
            b.update(f, &self.map.trees, dt_ms);
            self.bertrands.insert(i, b);
            proof {
                assert forall|j: int| 0 <= j < self.bertrands@.len() && j != i implies #[trigger] self.bertrands@[j] == before[j] by {}
            }
            i = i + 1;
        }
        i = 0;
        let ghost s2 = *self;
        while i < self.powerups.len()
            invariant
                self.wf(),
                i <= self.powerups@.len(),
                self.powerups@.len() == s2.powerups@.len(),
                forall|j: int| 0 <= j < i ==> {
                    let (p, q) = (s2.powerups@[j], #[trigger] self.powerups@[j]);
                    &&& q.powerup == p.powerup
                    &&& q.base_y == p.base_y
                    &&& q.hitbox == Rect { y: clamp_i64(p.base_y + bob_offset(s2.time_passed as int)) as i64, ..p.hitbox }
                },
                forall|j: int| i <= j < self.powerups@.len() ==> #[trigger] self.powerups@[j] == s2.powerups@[j],
                *self == (Game { powerups: self.powerups, ..s2 }),
            decreases self.powerups@.len() - i,
        {
            let ghost before = self.powerups@;
            let mut p = self.powerups.remove(i);
            p.update(self.time_passed, dt_ms);
            self.powerups.insert(i, p);
            proof {
                assert forall|j: int| 0 <= j < self.powerups@.len() && j != i implies #[trigger] self.powerups@[j] == before[j] by {}
            }
            i = i + 1;
        }

        let ghost g2 = *self;
        assert(g1.entities_moved(g2, dt_ms as int));
        self.time_passed = self.time_passed.saturating_add(dt_ms as u64);
        assert(*self == (Game { time_passed: sat_add(g2.time_passed, dt_ms as u64), ..g2 }));
        self.bertrand_spawning(dt_ms);
        let ghost g3 = *self;
        self.powerup_spawning(dt_ms);
        let ghost g4 = *self;

        if self.fabien.health == 0 && !self.game_over {
            self.stats.time_played = self.stats.time_played.saturating_add(self.time_passed / 1000);
            self.game_over = true;
        }
        assert(*self == (Game {
            stats: Stats { time_played: self.stats.time_played, ..g4.stats },
            game_over: self.game_over,
            ..g4
        }));
        self.game_over
    }

    /// Back to the start of a session: wave one, clock and statistics at zero,
    /// no pursuer and no powerup on the map, and the player reset.
    pub fn reset(&mut self)
        requires
            old(self).wf(),
        ensures
            final(self).wf(),
            final(self).wave == 1,
            final(self).time_passed == 0,
            final(self).stats == zero_stats(),
            final(self).bertrands@.len() == 0,
            final(self).powerups@.len() == 0,
            final(self).ms_since_last_bertrand == 0,
            final(self).ms_since_last_powerup == 0,
            !final(self).game_over,
            old(self).fabien.was_reset(final(self).fabien),
            final(self).map == old(self).map,
    {
        self.time_passed = 0;
        self.wave = 1;
        self.stats = Stats::new();
        self.fabien.reset();
        self.bertrands = Vec::new();
        self.powerups = Vec::new();
        self.ms_since_last_bertrand = 0;
        self.ms_since_last_powerup = 0;
        self.game_over = false;
    }

}


/// A projectile's pierce budget never grows: strikes only spend it, and a
/// tick of flight leaves it as it is. A projectile whose budget went negative
/// has no life left.
pub proof fn lemma_pierce_monotone(s: Bullet, n: nat, dt_ms: int)
    ensures
        after_strikes(s, n as int).nb_pierce <= s.nb_pierce,
        spent_shot()(after_strikes(s, n as int)) ==> after_strikes(s, n as int).life == 0,
        s.advanced(dt_ms).nb_pierce == s.nb_pierce,
{
}

/// A projectile whose life was ended (its budget went negative) is gone after
/// the player's next update, unless an earlier projectile runs out of life in
/// that same update: only the first one out of life is dropped per tick.
pub proof fn lemma_spent_shot_removed(shots: Seq<Bullet>, i: int, dt_ms: int)
    requires
        0 <= i < shots.len(),
        shots[i].life == 0,
        dt_ms >= 0,
        forall|j: int| 0 <= j < i ==> (#[trigger] shots[j].advanced(dt_ms)).alive(),
    ensures
        crate::fabien::shots_after(shots, dt_ms) == shots.map_values(|b: Bullet| b.advanced(dt_ms)).remove(i),
{
    let upd = shots.map_values(|b: Bullet| b.advanced(dt_ms));
    assert forall|j: int| 0 <= j < i implies #[trigger] upd[j].alive() by {
        assert(shots[j].advanced(dt_ms).alive());
    }
    assert(!upd[i].alive());
    crate::fabien::lemma_first_expired(upd, i);
}

} // verus!
