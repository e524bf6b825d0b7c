use vstd::prelude::*;
use crate::geometry::Rect;
use crate::utils::rand;

verus! {

/// Largest width or height of a map.
pub const MAX_MAP_SIZE: i64 = 1_000_000_000;

/// Trees planted for each tree sprite.
pub const TREES_PER_SPRITE: u64 = 30;

/// Width and height of a sprite.
#[derive(Clone, Copy, Debug, PartialEq, Eq, Structural)]
pub struct SpriteSize {
    pub w: i64,
    pub h: i64,
}

/// A static obstacle. Its hitbox is the trunk, the lower two fifths of the sprite.
#[derive(Clone, Copy, Debug)]
pub struct Tree {
    pub sprite: usize,
    pub x: i64,
    pub y: i64,
    pub hitbox: Rect,
    pub draw_before_fabien: bool,
}

/// The trunk of a tree sprite of size `size` drawn at `(x, y)`.
pub open spec fn trunk_of(x: int, y: int, size: SpriteSize) -> Rect {
    Rect {
        x: x as i64,
        y: (y + 3 * size.h / 5) as i64,
        w: size.w,
        h: (2 * size.h / 5) as i64,
    }
}

impl Tree {
    pub fn new(sprite: usize, x: i64, y: i64, size: SpriteSize) -> (r: Tree)
        requires
            0 <= x <= MAX_MAP_SIZE,
            0 <= y <= MAX_MAP_SIZE,
            0 <= size.w <= MAX_MAP_SIZE,
            0 <= size.h <= MAX_MAP_SIZE,
        ensures
            r.sprite == sprite,
            r.x == x,
            r.y == y,
            r.hitbox == trunk_of(x as int, y as int, size),
            r.draw_before_fabien,
    {
        Tree {
            sprite,
            x,
            y,
            hitbox: Rect::new(x, y + 3 * size.h / 5, size.w, 2 * size.h / 5),
            draw_before_fabien: true,
        }
    }

    pub fn get_hitbox(&self) -> (r: Rect)
        ensures
            r == self.hitbox,
    {
        self.hitbox
    }

    pub fn draw_before_fabien(&mut self, draw: bool)
        ensures
            *final(self) == (Tree { draw_before_fabien: draw, ..*old(self) }),
    {
        self.draw_before_fabien = draw;
    }
}

/// The playing field: its size and the trees standing on it.
pub struct GameMap {
    pub width: i64,
    pub height: i64,
    pub trees: Vec<Tree>,
}

impl GameMap {
    pub open spec fn wf(&self) -> bool {
        &&& 0 < self.width <= MAX_MAP_SIZE
        &&& 0 < self.height <= MAX_MAP_SIZE
    }

    /// A map with the given trees.
    pub fn from_trees(width: i64, height: i64, trees: Vec<Tree>) -> (r: GameMap)
        ensures
            r.width == width,
            r.height == height,
            r.trees@ == trees@,
    {
        GameMap { width, height, trees }
    }

    /// A map with `TREES_PER_SPRITE` trees of each sprite, each drawn at a
    /// random point of the map.
    pub fn new(width: i64, height: i64, sprites: &Vec<SpriteSize>) -> (r: GameMap)
        requires
            0 <= width <= MAX_MAP_SIZE,
            0 <= height <= MAX_MAP_SIZE,
            forall|i: int|
                0 <= i < sprites@.len() ==> 0 <= #[trigger] sprites@[i].w <= MAX_MAP_SIZE && 0
                    <= sprites@[i].h <= MAX_MAP_SIZE,
        ensures
            width > 0 && height > 0 ==> r.wf(),
            r.width == width,
            r.height == height,
            r.trees@.len() == sprites@.len() * TREES_PER_SPRITE,
            forall|i: int|
                0 <= i < r.trees@.len() ==> {
                    let t = #[trigger] r.trees@[i];
                    &&& t.sprite < sprites@.len()
                    &&& 0 <= t.x <= width
                    &&& 0 <= t.y <= height
                    &&& t.hitbox == trunk_of(t.x as int, t.y as int, sprites@[t.sprite as int])
                    &&& t.draw_before_fabien
                },
    {
        let mut trees: Vec<Tree> = Vec::new();
        let mut s: usize = 0;
        while s < sprites.len()
            invariant
                s <= sprites@.len(),
                trees@.len() == s * TREES_PER_SPRITE,
                0 <= width <= MAX_MAP_SIZE,
                0 <= height <= MAX_MAP_SIZE,
                forall|i: int|
                    0 <= i < sprites@.len() ==> 0 <= #[trigger] sprites@[i].w <= MAX_MAP_SIZE && 0
                        <= sprites@[i].h <= MAX_MAP_SIZE,
                forall|i: int|
                    0 <= i < trees@.len() ==> {
                        let t = #[trigger] trees@[i];
                        &&& t.sprite < sprites@.len()
                        &&& 0 <= t.x <= width
                        &&& 0 <= t.y <= height
                        &&& t.hitbox == trunk_of(t.x as int, t.y as int, sprites@[t.sprite as int])
                        &&& t.draw_before_fabien
                    },
            decreases sprites@.len() - s,
        {
            let mut n: u64 = 0;
            while n < TREES_PER_SPRITE
                invariant
                    s < sprites@.len(),
                    n <= TREES_PER_SPRITE,
                    trees@.len() == s * TREES_PER_SPRITE + n,
                    0 <= width <= MAX_MAP_SIZE,
                    0 <= height <= MAX_MAP_SIZE,
                    0 <= sprites@[s as int].w <= MAX_MAP_SIZE,
                    0 <= sprites@[s as int].h <= MAX_MAP_SIZE,
                    forall|i: int|
                        0 <= i < trees@.len() ==> {
                            let t = #[trigger] trees@[i];
                            &&& t.sprite < sprites@.len()
                            &&& 0 <= t.x <= width
                            &&& 0 <= t.y <= height
                            &&& t.hitbox == trunk_of(
                                t.x as int,
                                t.y as int,
                                sprites@[t.sprite as int],
                            )
                            &&& t.draw_before_fabien
                        },
                decreases TREES_PER_SPRITE - n,
            {
                let x = rand(width as u64) as i64;
                let y = rand(height as u64) as i64;
                trees.push(Tree::new(s, x, y, sprites[s]));
                n = n + 1;
            }
            proof {
                assert((s + 1) * TREES_PER_SPRITE == s * TREES_PER_SPRITE + TREES_PER_SPRITE) by (nonlinear_arith);
            }
            s = s + 1;
        }
        GameMap { width, height, trees }
    }

    pub fn get_width(&self) -> (r: i64)
        ensures
            r == self.width,
    {
        self.width
    }

    pub fn get_height(&self) -> (r: i64)
        ensures
            r == self.height,
    {
        self.height
    }

    pub fn get_trees(&self) -> (r: &Vec<Tree>)
        ensures
            r@ == self.trees@,
    {
        &self.trees
    }
}

} // verus!
