use bhunt::bertrand::{approach_of, Bertrand, BERTRAND_SPEED};
use bhunt::bullet::Bullet;
use bhunt::geometry::{isqrt, shift, Rect};
use bhunt::map::{GameMap, SpriteSize, Tree, TREES_PER_SPRITE};
use bhunt::particle::{spawn_burst, update_particles, BurstStyle, Color, Particle};
use bhunt::powerup::{Powerup, Powerups};
use bhunt::utils::{rand, rand_between, Facing};

#[test]
fn overlap_includes_borders() {
    let a = Rect::new(0, 0, 10, 10);
    assert!(a.overlaps(&Rect::new(10, 10, 5, 5)));
    assert!(!a.overlaps(&Rect::new(11, 0, 5, 5)));
    assert!(a.contains(10, 0));
    assert!(!a.contains(-1, 0));
}

#[test]
fn integer_square_roots() {
    assert_eq!(isqrt(0), 0);
    assert_eq!(isqrt(1), 1);
    assert_eq!(isqrt(24), 4);
    assert_eq!(isqrt(25), 5);
    assert_eq!(isqrt(u64::MAX), 4_294_967_295);
}

#[test]
fn shift_saturates() {
    assert_eq!(shift(i64::MAX, 5), i64::MAX);
    assert_eq!(shift(i64::MIN, -5), i64::MIN);
    assert_eq!(shift(3, -5), -2);
}

#[test]
fn approach_snaps_onto_target() {
    assert_eq!(approach_of(0, 100, 30), 30);
    assert_eq!(approach_of(0, 50, 30), 50);
    assert_eq!(approach_of(0, 59, 30), 59);
    assert_eq!(approach_of(0, 60, 30), 30);
    assert_eq!(approach_of(100, 0, 30), 70);
    assert_eq!(approach_of(7, 7, 30), 7);
}

#[test]
fn pursuer_chases_player_and_faces_up() {
    let mut b = Bertrand::new(Rect::new(0, 1_000_000, 8_000, 16_000));
    let player = Rect::new(500_000, 0, 8_000, 16_000);
    b.update(player, &Vec::new(), 1_000);
    assert_eq!(b.get_hitbox().x, 75_000);
    assert_eq!(b.get_hitbox().y, 925_000);
    assert_eq!(b.facing, Facing::Up);
    assert_eq!(b.objective_x, 500_000);
    // a moving player is not followed until the next idle cycle
    b.animation_cycle = 1;
    b.update(Rect::new(0, 0, 8_000, 16_000), &Vec::new(), 1_000);
    assert_eq!(b.get_hitbox().x, 150_000);
}

#[test]
fn pursuer_slowed_in_tree_and_restored() {
    let trees = vec![Tree::new(0, 0, -30_000, SpriteSize { w: 100_000, h: 100_000 })];
    let mut b = Bertrand::new(Rect::new(10_000, 20_000, 8_000, 16_000));
    b.update(Rect::new(1_000_000, 20_000, 8_000, 16_000), &trees, 100);
    assert!(b.is_in_tree);
    assert_eq!(b.get_hitbox().x, 10_000 + BERTRAND_SPEED as i64 / 8 / 10);
    assert_eq!(b.particles.len(), 15);
    b.update(Rect::new(1_000_000, 20_000, 8_000, 16_000), &trees, 100);
    assert!(b.is_in_tree);
    assert_eq!(b.particles.len(), 15);
    b.hitbox.x = 300_000;
    b.update(Rect::new(1_000_000, 20_000, 8_000, 16_000), &trees, 1_000);
    assert!(!b.is_in_tree);
    assert_eq!(b.speed, BERTRAND_SPEED);
    assert_eq!(b.get_hitbox().x, 375_000);
}

#[test]
fn swinging_pursuer_stays_and_dies_after_half_a_second() {
    let mut b = Bertrand::new(Rect::new(0, 0, 8_000, 16_000));
    b.swing();
    b.update(Rect::new(0, 0, 8_000, 16_000), &Vec::new(), 300);
    assert!(!b.is_dead());
    b.advance_animation(1);
    assert_eq!(b.animation_cycle, 5);
    b.update(Rect::new(900_000, 0, 8_000, 16_000), &Vec::new(), 200);
    assert!(!b.is_dead());
    b.update(Rect::new(900_000, 0, 8_000, 16_000), &Vec::new(), 1);
    assert!(b.is_dead());
    assert_eq!(b.get_hitbox().x, 0);
}

#[test]
fn bullet_flies_and_expires() {
    let mut b = Bullet::new(300_000, -150_000, Rect::new(0, 0, 1_000, 1_000), 0, 5_000);
    assert!(b.update(1_000));
    assert_eq!(b.get_hitbox().x, 300_000);
    assert_eq!(b.get_hitbox().y, -150_000);
    assert!(!b.update(4_000));
    b.hit_something();
    assert_eq!(b.get_nb_pierce(), -1);
    b.set_life(7);
    assert_eq!(b.life, 7);
}

#[test]
fn powerup_rolls_pick_kinds() {
    assert_eq!(Powerups::from_rolls(0, 0, 0), Powerups::PiercingBullet(10_000, 1));
    assert_eq!(Powerups::from_rolls(19, 10, 2), Powerups::PiercingBullet(20_000, 3));
    assert_eq!(Powerups::from_rolls(20, 0, 0), Powerups::SpeedBoost(15_000, 1_400));
    assert_eq!(Powerups::from_rolls(49, 5, 2), Powerups::SpeedBoost(20_000, 1_600));
    assert_eq!(Powerups::from_rolls(50, 2, 0), Powerups::Heal(3));
    assert_eq!(Powerups::from_rolls(69, 0, 0), Powerups::Heal(1));
    assert_eq!(Powerups::from_rolls(70, 0, 0), Powerups::AmmoRestock(15));
    assert_eq!(Powerups::from_rolls(99, 5, 0), Powerups::AmmoRestock(20));
}

#[test]
fn random_powerups_stay_in_range() {
    for _ in 0..200 {
        match Powerups::random() {
            Powerups::PiercingBullet(t, n) => assert!((10_000..=20_000).contains(&t) && (1..=3).contains(&n)),
            Powerups::SpeedBoost(t, m) => assert!((15_000..=20_000).contains(&t) && (1_400..=1_600).contains(&m)),
            Powerups::Heal(h) => assert!((1..=3).contains(&h)),
            Powerups::AmmoRestock(a) => assert!((15..=20).contains(&a)),
        }
    }
}

#[test]
fn random_draws_vary_within_bounds() {
    let draws: Vec<u64> = (0..200).map(|_| rand(10)).collect();
    assert!(draws.iter().all(|d| *d <= 10));
    assert!(draws.iter().any(|d| *d != 10));
    assert!(draws.iter().any(|d| *d != draws[0]));
    assert_eq!(rand(0), 0);
    assert_eq!(rand_between(4, 4), 4);
}

#[test]
fn powerup_bobs_and_sparkles() {
    let mut p = Powerup::new(Powerups::Heal(1), 10_000, 20_000);
    p.update(0, 100);
    assert_eq!(p.get_hitbox().y, 19_500);
    assert_eq!(p.particles.len(), 0);
    p.update(1_000, 150);
    assert_eq!(p.get_hitbox().y, 20_500);
    assert_eq!(p.particles.len(), 1);
    p.update(1_500, 10);
    assert_eq!(p.get_hitbox().y, 20_000);
}

#[test]
fn map_plants_trees_per_sprite() {
    let sprites = vec![SpriteSize { w: 30_000, h: 50_000 }, SpriteSize { w: 20_000, h: 40_000 }];
    let map = GameMap::new(2_000_000, 1_000_000, &sprites);
    assert_eq!(map.get_trees().len(), 2 * TREES_PER_SPRITE as usize);
    for t in map.get_trees().iter() {
        assert!(t.x >= 0 && t.x <= map.get_width());
        assert!(t.y >= 0 && t.y <= map.get_height());
        let s = sprites[t.sprite];
        assert_eq!(t.get_hitbox(), Rect::new(t.x, t.y + 3 * s.h / 5, s.w, 2 * s.h / 5));
    }
}

#[test]
fn particles_fade_and_are_pruned() {
    let mut ps = vec![
        Particle::new(0, 0, 1_000, 0, 0, 100, Color { r: 1, g: 2, b: 3 }, 1_000),
        Particle::new(0, 0, 0, 0, 0, 1_000, Color { r: 1, g: 2, b: 3 }, 1_000),
    ];
    update_particles(&mut ps, 500);
    assert_eq!(ps.len(), 1);
    assert_eq!(ps[0].scale_permille(), 500);
    let style = BurstStyle {
        color_low: Color { r: 10, g: 10, b: 10 },
        color_high: Color { r: 20, g: 20, b: 20 },
        speed: 1_000,
        rotation_speed: 1_000,
        size_low: 500,
        size_high: 1_500,
        life_low: 1_000,
        life_high: 2_000,
    };
    spawn_burst(&mut ps, 5, 7, 9, style);
    assert_eq!(ps.len(), 6);
    for p in ps[1..].iter() {
        assert_eq!((p.x, p.y), (7, 9));
        assert!(p.life_total >= 1_000 && p.life_total <= 2_000);
        assert!(p.color.r >= 10 && p.color.r <= 20);
    }
}

#[test]
fn new_trees_are_drawn_before_the_player() {
    let sprites = vec![SpriteSize { w: 30_000, h: 50_000 }];
    let map = GameMap::new(500_000, 500_000, &sprites);
    assert!(map.get_trees().iter().all(|t| t.draw_before_fabien));
}

#[test]
fn zero_sized_maps_are_planted() {
    let sprites = vec![SpriteSize { w: 30_000, h: 50_000 }];
    let map = GameMap::new(0, 0, &sprites);
    assert_eq!(map.get_trees().len(), TREES_PER_SPRITE as usize);
    assert!(map.get_trees().iter().all(|t| t.x == 0 && t.y == 0));
}
