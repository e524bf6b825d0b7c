use bhunt::bertrand::Bertrand;
use bhunt::bullet::Bullet;
use bhunt::fabien::{Fabien, MAX_SPEED};
use bhunt::game::Game;
use bhunt::geometry::Rect;
use bhunt::map::GameMap;
use bhunt::powerup::Powerups;

fn open_game() -> Game {
    let map = GameMap::from_trees(2_000_000, 2_000_000, Vec::new());
    Game::new(map, 1600, 900)
}

#[test]
fn hit_by_one_pursuer_at_one_health() {
    let mut game = open_game();
    game.fabien.set_health(1);
    assert_eq!(game.fabien.invicibility_frames, 0);
    let h = game.fabien.get_hitbox();
    game.bertrands.push(Bertrand::new(Rect::new(h.x, h.y, 8_000, 16_000)));
    game.check_collisions();
    assert_eq!(game.fabien.get_health(), 0);
    assert_eq!(game.bertrands.len(), 1);
    assert!(game.bertrands[0].is_swinging());
    assert_eq!(game.stats.hits_taken, 1);
}

#[test]
fn hit_at_one_health_ends_the_game() {
    let mut game = open_game();
    game.fabien.set_health(1);
    let h = game.fabien.get_hitbox();
    game.bertrands.push(Bertrand::new(Rect::new(h.x, h.y, 8_000, 16_000)));
    assert!(game.update(16));
    assert!(game.game_over);
    assert_eq!(game.fabien.get_health(), 0);
}

#[test]
fn unpierceable_shot_through_two_pursuers() {
    let mut game = open_game();
    game.fabien.shots.push(Bullet::new(0, 0, Rect::new(100_000, 100_000, 1_000, 1_000), 0, 5_000));
    game.bertrands.push(Bertrand::new(Rect::new(96_000, 95_000, 8_000, 16_000)));
    game.bertrands.push(Bertrand::new(Rect::new(99_000, 90_000, 8_000, 16_000)));
    let score = game.fabien.get_score();
    game.check_collisions();
    assert_eq!(game.bertrands.len(), 0);
    assert_eq!(game.fabien.get_score(), score + 2);
    assert_eq!(game.stats.bertrand_killed, 2);
    assert_eq!(game.fabien.shots.len(), 1);
    assert_eq!(game.fabien.shots[0].get_nb_pierce(), -2);
    assert_eq!(game.fabien.shots[0].life, 0);
    assert_eq!(game.stats.shots, 1);
    let mut trees = Vec::new();
    game.fabien.update(&mut trees, 16);
    assert_eq!(game.fabien.get_shots().len(), 0);
}

#[test]
fn fire_with_no_ammo() {
    let mut game = open_game();
    game.fabien.ammos = 0;
    game.fabien.shoot(0, 0);
    assert_eq!(game.fabien.get_nb_ammos(), 0);
    assert_eq!(game.fabien.get_shots().len(), 0);
    assert_eq!(game.fabien.particles.len(), 0);
    assert!(!game.fabien.is_shooting());
}

#[test]
fn speed_boosts_stack_up_to_the_cap() {
    let mut f = Fabien::new(&Vec::new(), 2_000_000, 2_000_000, 1600, 900);
    assert_eq!(f.speed, 50_000);
    f.activate_powerup(Powerups::SpeedBoost(10_000, 1_500));
    assert_eq!(f.speed, 75_000);
    assert_eq!(f.active_powerup, Some(Powerups::SpeedBoost(10_000, 1_500)));
    f.activate_powerup(Powerups::SpeedBoost(5_000, 3_000));
    assert_eq!(f.speed, MAX_SPEED);
    assert_eq!(f.speed, 170_000);
    assert_eq!(f.active_powerup, Some(Powerups::SpeedBoost(15_000, 3_000)));
}
