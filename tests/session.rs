use bhunt::bertrand::Bertrand;
use bhunt::bullet::Bullet;
use bhunt::game::{Game, BERTRAND_HEIGHT, BERTRAND_WIDTH, EXCLUSION};
use bhunt::geometry::Rect;
use bhunt::map::{GameMap, SpriteSize, Tree};
use bhunt::powerup::{Powerup, Powerups};

fn trunk(hitbox: Rect) -> Tree {
    Tree { sprite: 0, x: hitbox.x, y: hitbox.y, hitbox, draw_before_fabien: true }
}

fn open_game() -> Game {
    Game::new(GameMap::from_trees(2_000_000, 2_000_000, Vec::new()), 1600, 900)
}

#[test]
fn wave_escalates_with_bonus() {
    let mut game = open_game();
    assert_eq!(game.wave, 1);
    game.time_passed = 60_000;
    game.advance_wave();
    assert_eq!(game.wave, 1);
    game.time_passed = 60_001;
    game.advance_wave();
    assert_eq!(game.wave, 2);
    assert_eq!(game.fabien.get_score(), 20);
    game.advance_wave();
    assert_eq!(game.wave, 2);
    game.time_passed = 120_001;
    game.advance_wave();
    assert_eq!(game.wave, 3);
    assert_eq!(game.fabien.get_score(), 50);
}

#[test]
fn wave_never_drops_until_reset() {
    let mut game = open_game();
    let mut last = game.wave;
    for _ in 0..200 {
        game.bertrands.clear();
        game.fabien.set_health(10);
        game.update(1_000);
        assert!(game.wave >= last);
        last = game.wave;
    }
    assert!(game.wave >= 3);
    game.reset();
    assert_eq!(game.wave, 1);
    assert_eq!(game.time_passed, 0);
    assert_eq!(game.stats.shots, 0);
    assert_eq!(game.bertrands.len(), 0);
    assert_eq!(game.powerups.len(), 0);
}

#[test]
fn spawned_pursuers_avoid_trees_and_player() {
    let trees = vec![
        Tree::new(0, 0, 0, SpriteSize { w: 1_000_000, h: 2_500_000 }),
    ];
    let mut game = Game::new(GameMap::from_trees(2_000_000, 2_000_000, trees), 1600, 900);
    let t = game.map.trees[0].get_hitbox();
    let f = game.fabien.get_hitbox();
    for _ in 0..50 {
        game.ms_since_last_bertrand = 1_000;
        game.spawn_bertrand_with(0);
    }
    assert!(game.bertrands.len() > 0);
    for b in game.bertrands.iter() {
        let h = b.get_hitbox();
        assert!(!t.contains(h.x, h.y));
        assert!(
            h.x < f.x - EXCLUSION || h.x > f.x + EXCLUSION || h.y < f.y - EXCLUSION || h.y > f.y + EXCLUSION
        );
        assert_eq!((h.w, h.h), (BERTRAND_WIDTH, BERTRAND_HEIGHT));
    }
}

#[test]
fn spawn_spot_rules() {
    let trees = vec![Tree::new(0, 0, 0, SpriteSize { w: 100_000, h: 100_000 })];
    let game = Game::new(GameMap::from_trees(2_000_000, 2_000_000, trees), 1600, 900);
    let f = game.fabien.get_hitbox();
    assert!(!game.spawn_ok_of(50_000, 80_000));
    assert!(game.spawn_ok_of(50_000, 50_000));
    assert!(!game.spawn_ok_of(f.x + EXCLUSION, f.y - EXCLUSION));
    assert!(game.spawn_ok_of(f.x + EXCLUSION + 1, f.y));
    assert!(game.spawn_ok_of(f.x, f.y - EXCLUSION - 1));
}

#[test]
fn no_spawn_when_draw_not_below_counter() {
    let mut game = open_game();
    game.ms_since_last_bertrand = 500;
    game.spawn_bertrand_with(500);
    assert_eq!(game.bertrands.len(), 0);
    assert_eq!(game.ms_since_last_bertrand, 500);
    game.spawn_bertrand_with(499);
    assert_eq!(game.bertrands.len(), 1);
    assert_eq!(game.ms_since_last_bertrand, 0);
    game.ms_since_last_powerup = 10;
    game.spawn_powerup_with(10);
    assert_eq!(game.powerups.len(), 0);
    game.spawn_powerup_with(9);
    assert_eq!(game.powerups.len(), 1);
    assert_eq!(game.ms_since_last_powerup, 0);
}

#[test]
fn only_first_overlapping_pursuer_strikes() {
    let mut game = open_game();
    let h = game.fabien.get_hitbox();
    let mut swinging = Bertrand::new(Rect::new(h.x, h.y, 8_000, 16_000));
    swinging.swing();
    game.bertrands.push(swinging);
    game.bertrands.push(Bertrand::new(Rect::new(h.x + 1_000, h.y, 8_000, 16_000)));
    game.bertrands.push(Bertrand::new(Rect::new(h.x + 2_000, h.y, 8_000, 16_000)));
    game.check_collisions();
    assert_eq!(game.fabien.get_health(), 9);
    assert_eq!(game.stats.hits_taken, 1);
    assert!(game.bertrands[1].is_swinging());
    assert!(!game.bertrands[2].is_swinging());
    // the next tick the player is invincible: the strike does not count
    game.check_collisions();
    assert_eq!(game.fabien.get_health(), 9);
    assert_eq!(game.stats.hits_taken, 1);
    assert!(game.bertrands[2].is_swinging());
}

#[test]
fn finished_swings_are_pruned() {
    let mut game = open_game();
    let mut a = Bertrand::new(Rect::new(0, 0, 8_000, 16_000));
    a.swing();
    a.swing_time = 501;
    let mut b = Bertrand::new(Rect::new(10_000, 0, 8_000, 16_000));
    b.swing();
    b.swing_time = 500;
    game.bertrands.push(a);
    game.bertrands.push(b);
    game.prune_dead();
    assert_eq!(game.bertrands.len(), 1);
    assert_eq!(game.bertrands[0].get_hitbox().x, 10_000);
}

#[test]
fn first_powerup_only_is_picked() {
    let mut game = open_game();
    let h = game.fabien.get_hitbox();
    game.fabien.set_health(5);
    game.powerups.push(Powerup::new(Powerups::Heal(2), 0, 0));
    game.powerups.push(Powerup::new(Powerups::Heal(3), h.x, h.y));
    game.powerups.push(Powerup::new(Powerups::AmmoRestock(15), h.x, h.y));
    game.check_collisions();
    assert_eq!(game.fabien.get_health(), 8);
    assert_eq!(game.fabien.get_nb_ammos(), 44);
    assert_eq!(game.powerups.len(), 2);
    assert_eq!(game.stats.powerups_activated, 1);
    assert_eq!(game.powerups[1].get_powerup(), Powerups::AmmoRestock(15));
}

#[test]
fn first_shot_in_a_tree_is_removed() {
    let trees = vec![Tree::new(0, 0, 0, SpriteSize { w: 50_000, h: 50_000 })];
    let mut game = Game::new(GameMap::from_trees(2_000_000, 2_000_000, trees), 1600, 900);
    game.fabien.shots.push(Bullet::new(1, 0, Rect::new(500_000, 500_000, 1_000, 1_000), 0, 5_000));
    game.fabien.shots.push(Bullet::new(2, 0, Rect::new(10_000, 40_000, 1_000, 1_000), 0, 5_000));
    game.fabien.shots.push(Bullet::new(3, 0, Rect::new(20_000, 40_000, 1_000, 1_000), 0, 5_000));
    game.check_collisions();
    assert_eq!(game.fabien.shots.len(), 2);
    assert_eq!(game.fabien.shots[0].vx, 1);
    assert_eq!(game.fabien.shots[1].vx, 3);
}

#[test]
fn piercing_shot_survives_one_pursuer() {
    let mut game = open_game();
    game.fabien.shots.push(Bullet::new(0, 0, Rect::new(100_000, 100_000, 1_000, 1_000), 1, 5_000));
    game.fabien.shots.push(Bullet::new(0, 0, Rect::new(100_500, 100_000, 1_000, 1_000), 0, 5_000));
    game.bertrands.push(Bertrand::new(Rect::new(96_000, 95_000, 8_000, 16_000)));
    game.bertrands.push(Bertrand::new(Rect::new(500_000, 500_000, 8_000, 16_000)));
    game.check_collisions();
    assert_eq!(game.bertrands.len(), 1);
    assert_eq!(game.fabien.shots[0].get_nb_pierce(), 0);
    assert_eq!(game.fabien.shots[0].life, 5_000);
    assert_eq!(game.fabien.shots[1].get_nb_pierce(), 0);
    assert_eq!(game.stats.shots, 0);
    assert_eq!(game.fabien.get_score(), 1);
}

#[test]
fn pierce_budget_never_grows() {
    let mut game = open_game();
    game.fabien.shots.push(Bullet::new(10_000, 0, Rect::new(100_000, 100_000, 1_000, 1_000), 3, 5_000));
    let mut last = 3;
    for i in 0..6 {
        game.bertrands.push(Bertrand::new(Rect::new(100_000 + i * 10, 95_000, 8_000, 16_000)));
        game.check_collisions();
        let p = game.fabien.shots[0].get_nb_pierce();
        assert!(p <= last);
        last = p;
        if p < 0 {
            break;
        }
        let mut trees = Vec::new();
        game.fabien.update(&mut trees, 1);
    }
    assert_eq!(last, -1);
    let mut trees = Vec::new();
    game.fabien.update(&mut trees, 1);
    assert_eq!(game.fabien.shots.len(), 0);
}

#[test]
fn spawn_falls_back_to_a_corner_when_trees_cover_the_map() {
    let trees = vec![trunk(Rect::new(0, 0, 2_000_000, 2_000_000))];
    let mut game = Game::new(GameMap::from_trees(2_000_000, 2_000_000, trees), 1600, 900);
    game.ms_since_last_bertrand = 1;
    game.spawn_bertrand_with(0);
    assert_eq!(game.bertrands.len(), 1);
    assert_eq!(game.ms_since_last_bertrand, 0);
    let h = game.bertrands[0].get_hitbox();
    assert_eq!((h.x, h.y), (0, 0));
}

#[test]
fn spawn_ignores_the_exclusion_box_as_a_last_resort() {
    let mut game = Game::new(GameMap::from_trees(100_000, 100_000, Vec::new()), 1600, 900);
    game.ms_since_last_bertrand = 1;
    game.spawn_bertrand_with(0);
    assert_eq!(game.bertrands.len(), 1);
    let h = game.bertrands[0].get_hitbox();
    assert_eq!((h.x, h.y), (0, 0));
}

#[test]
fn spawn_scan_finds_a_narrow_gap() {
    let trees = vec![trunk(Rect::new(0, 0, 1_980_000, 2_000_000))];
    let mut game = Game::new(GameMap::from_trees(2_000_000, 2_000_000, trees), 1600, 900);
    game.fabien.hitbox.x = 0;
    game.fabien.hitbox.y = 0;
    for _ in 0..5 {
        game.ms_since_last_bertrand = 1;
        game.spawn_bertrand_with(0);
    }
    for b in game.bertrands.iter() {
        let h = b.get_hitbox();
        assert!(game.spawn_ok_of(h.x, h.y));
        assert!(h.x > 1_980_000);
    }
    assert_eq!(game.bertrands.len(), 5);
}

#[test]
fn pursuer_counter_grows_or_restarts() {
    let mut game = open_game();
    game.ms_since_last_bertrand = 0;
    game.bertrand_spawning(0);
    assert_eq!(game.bertrands.len(), 0);
    assert_eq!(game.ms_since_last_bertrand, 0);
    game.ms_since_last_bertrand = 10_000_000;
    game.bertrand_spawning(16);
    assert_eq!(game.bertrands.len(), 1);
    assert_eq!(game.ms_since_last_bertrand, 0);
    game.bertrands.clear();
    game.bertrand_spawning(0);
    assert_eq!(game.bertrands.len(), 0);
    assert_eq!(game.ms_since_last_bertrand, 0);
}

#[test]
fn pursuer_spawning_steps_the_wave() {
    let mut game = open_game();
    game.time_passed = 60_001;
    game.bertrand_spawning(0);
    assert_eq!(game.wave, 2);
    assert_eq!(game.fabien.get_score(), 20);
    game.bertrand_spawning(0);
    assert_eq!(game.wave, 2);
    assert_eq!(game.fabien.get_score(), 20);
}

#[test]
fn powerup_counter_grows_or_restarts() {
    let mut game = open_game();
    game.powerup_spawning(0);
    assert_eq!(game.powerups.len(), 0);
    assert_eq!(game.ms_since_last_powerup, 0);
    game.ms_since_last_powerup = 100_000_000;
    game.powerup_spawning(5);
    assert_eq!(game.powerups.len(), 1);
    assert_eq!(game.ms_since_last_powerup, 0);
}

#[test]
fn powerups_land_strictly_inside_the_map() {
    let mut game = Game::new(GameMap::from_trees(8_000, 16_000, Vec::new()), 1600, 900);
    for _ in 0..300 {
        game.ms_since_last_powerup = 1;
        game.spawn_powerup_with(0);
    }
    assert_eq!(game.powerups.len(), 300);
    for p in game.powerups.iter() {
        let h = p.get_hitbox();
        assert!(h.x >= 0 && h.x < 8_000);
        assert!(h.y >= 0 && h.y < 16_000);
    }
}

#[test]
fn session_reset_resets_the_player() {
    let mut game = open_game();
    game.fabien.key_down_event(bhunt::utils::Movement::Up);
    game.fabien.activate_powerup(Powerups::SpeedBoost(10_000, 1_500));
    game.fabien.shoot(0, 0);
    game.fabien.take_hit();
    game.update(16);
    game.reset();
    assert_eq!(game.fabien.speed, 50_000);
    assert_eq!(game.fabien.active_powerup, None);
    assert_eq!(game.fabien.get_shots().len(), 0);
    assert_eq!(game.fabien.movement_queue.len(), 0);
    assert_eq!(game.fabien.invicibility_frames, 0);
    assert!(!game.fabien.is_shooting());
    assert_eq!(game.fabien.get_health(), 10);
    assert_eq!(game.wave, 1);
}
