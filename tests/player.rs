use bhunt::fabien::{aim_velocity_of, Fabien, INVINCIBILITY_FRAMES, MAX_HEALTH, STARTING_AMMOS};
use bhunt::geometry::Rect;
use bhunt::map::{SpriteSize, Tree};
use bhunt::powerup::Powerups;
use bhunt::utils::{Facing, Movement};

fn player() -> Fabien {
    Fabien::new(&Vec::new(), 2_000_000, 2_000_000, 1600, 900)
}

#[test]
fn new_player_defaults() {
    let f = player();
    assert_eq!(f.get_health(), MAX_HEALTH);
    assert_eq!(f.get_nb_ammos(), STARTING_AMMOS);
    assert_eq!(f.get_score(), 0);
    assert_eq!(f.get_hitbox().x, 1_000_000);
    assert_eq!(f.get_hitbox().y, 1_000_000);
    let cam = f.get_camera();
    assert_eq!(cam.w, 1600 * 2000 / 9);
    assert_eq!(cam.x, 1_000_000 - cam.w / 2);
}

#[test]
fn new_player_steps_out_of_a_tree() {
    let trees = vec![Tree::new(0, 990_000, 990_000, SpriteSize { w: 20_000, h: 20_000 })];
    let f = Fabien::new(&trees, 2_000_000, 2_000_000, 1600, 900);
    let t = trees[0].get_hitbox();
    assert!(!f.get_hitbox().overlaps(&t));
    assert_eq!(f.get_hitbox().x, f.get_hitbox().y);
    assert!(f.get_hitbox().x < 1_000_000);
}

#[test]
fn health_never_below_zero_over_many_hits() {
    let mut f = player();
    for _ in 0..40 {
        f.take_hit();
        f.invicibility_frames = 0;
    }
    assert_eq!(f.get_health(), 0);
    assert!(f.take_hit());
    assert_eq!(f.get_health(), 0);
}

#[test]
fn heal_is_capped_at_max_health() {
    let mut f = player();
    f.set_health(8);
    f.activate_powerup(Powerups::Heal(3));
    assert_eq!(f.get_health(), MAX_HEALTH);
    f.set_health(2);
    f.activate_powerup(Powerups::Heal(3));
    assert_eq!(f.get_health(), 5);
}

#[test]
fn second_hit_in_window_is_absorbed() {
    let mut f = player();
    assert!(f.take_hit());
    assert_eq!(f.invicibility_frames, INVINCIBILITY_FRAMES);
    assert!(!f.take_hit());
    assert_eq!(f.get_health(), MAX_HEALTH - 1);
}

#[test]
fn invincibility_wears_off_with_ticks() {
    let mut f = player();
    f.take_hit();
    let mut trees = Vec::new();
    for _ in 0..INVINCIBILITY_FRAMES {
        f.update(&mut trees, 16);
    }
    assert_eq!(f.invicibility_frames, 0);
    assert!(f.take_hit());
    assert_eq!(f.get_health(), MAX_HEALTH - 2);
}

#[test]
fn one_shot_takes_one_ammo() {
    let mut f = player();
    f.shoot(1_500_000, 1_008_000);
    assert_eq!(f.get_nb_ammos(), STARTING_AMMOS - 1);
    assert_eq!(f.get_shots().len(), 1);
    assert_eq!(f.particles.len(), 10);
    let b = f.get_shots()[0];
    assert_eq!(b.get_hitbox().x, 1_001_000);
    assert_eq!(b.get_hitbox().y, 1_008_000);
    assert_eq!(b.vx, 300_000);
    assert_eq!(b.vy, 0);
    assert_eq!(b.get_nb_pierce(), 0);
    // a second shot while the first is under way is refused
    f.shoot(0, 0);
    assert_eq!(f.get_nb_ammos(), STARTING_AMMOS - 1);
    assert_eq!(f.get_shots().len(), 1);
}

#[test]
fn shot_can_fire_again_after_the_animation() {
    let mut f = player();
    f.shoot(0, 0);
    let mut trees = Vec::new();
    for _ in 0..30 {
        f.update(&mut trees, 16);
    }
    assert!(!f.is_shooting());
    f.shoot(0, 0);
    assert_eq!(f.get_nb_ammos(), STARTING_AMMOS - 2);
}

#[test]
fn aim_follows_a_three_four_five_triangle() {
    assert_eq!(aim_velocity_of(0, 0, 3_000, 4_000), (180_000, 240_000));
    assert_eq!(aim_velocity_of(0, 0, -3_000, -4_000), (-180_000, -240_000));
    assert_eq!(aim_velocity_of(5, 5, 5, 5), (300_000, 0));
    assert_eq!(aim_velocity_of(0, 0, 0, -7), (0, -300_000));
    assert_eq!(aim_velocity_of(0, 0, i64::MAX, 0), (300_000, 0));
}

#[test]
fn piercing_powerup_arms_the_next_shot() {
    let mut f = player();
    f.activate_powerup(Powerups::PiercingBullet(12_000, 2));
    f.shoot(0, 0);
    assert_eq!(f.get_shots()[0].get_nb_pierce(), 2);
    f.activate_powerup(Powerups::PiercingBullet(3_000, 3));
    assert_eq!(f.active_powerup, Some(Powerups::PiercingBullet(15_000, 2)));
}

#[test]
fn piercing_cancels_speed_boost() {
    let mut f = player();
    f.activate_powerup(Powerups::SpeedBoost(10_000, 1_500));
    f.activate_powerup(Powerups::PiercingBullet(10_000, 1));
    assert_eq!(f.speed, 50_000);
    assert_eq!(f.active_powerup, Some(Powerups::PiercingBullet(10_000, 1)));
}

#[test]
fn ammo_restock_adds_without_cap() {
    let mut f = player();
    f.activate_powerup(Powerups::AmmoRestock(20));
    assert_eq!(f.get_nb_ammos(), STARTING_AMMOS + 20);
    f.ammos = u32::MAX - 1;
    f.activate_powerup(Powerups::AmmoRestock(20));
    assert_eq!(f.get_nb_ammos(), u32::MAX);
}

#[test]
fn speed_boost_runs_out_and_speed_returns() {
    let mut f = player();
    f.activate_powerup(Powerups::SpeedBoost(100, 1_500));
    let mut trees = Vec::new();
    f.update(&mut trees, 60);
    assert_eq!(f.active_powerup, Some(Powerups::SpeedBoost(40, 1_500)));
    f.update(&mut trees, 60);
    assert_eq!(f.active_powerup, Some(Powerups::SpeedBoost(0, 1_500)));
    assert_eq!(f.speed, 75_000);
    f.update(&mut trees, 60);
    assert_eq!(f.active_powerup, None);
    f.update(&mut trees, 60);
    assert_eq!(f.speed, 50_000);
}

#[test]
fn most_recent_key_wins_and_release_removes_all() {
    let mut f = player();
    f.key_down_event(Movement::Up);
    f.key_down_event(Movement::Right);
    f.key_down_event(Movement::Up);
    f.key_up_event(Movement::Up);
    assert_eq!(f.movement_queue, vec![Movement::Right]);
    let mut trees = Vec::new();
    f.update(&mut trees, 1000);
    assert_eq!(f.get_hitbox().x, 1_050_000);
    assert_eq!(f.get_hitbox().y, 1_000_000);
    f.advance_animation(16);
    assert_eq!(f.facing, Facing::Right);
}

#[test]
fn player_held_inside_the_map() {
    let mut f = player();
    f.key_down_event(Movement::Left);
    let mut trees = Vec::new();
    f.update(&mut trees, 100_000);
    assert_eq!(f.get_hitbox().x, 0);
    f.update_camera();
    assert_eq!(f.get_camera().x, 0);
}

#[test]
fn walking_into_a_tree_is_undone() {
    let mut f = player();
    let mut trees = vec![Tree::new(0, 1_009_000, 980_000, SpriteSize { w: 10_000, h: 50_000 })];
    f.key_down_event(Movement::Right);
    f.update(&mut trees, 100);
    assert_eq!(f.get_hitbox().x, 1_000_000);
    f.update(&mut trees, 10);
    assert_eq!(f.get_hitbox().x, 1_000_500);
}

#[test]
fn camera_clamped_to_map_corner() {
    let mut f = player();
    f.hitbox.x = 1_999_000 - 8_000;
    f.hitbox.y = 1_999_000 - 16_000;
    f.update_camera();
    let c = f.get_camera();
    assert_eq!(c.x, 2_000_000 - c.w);
    assert_eq!(c.y, 2_000_000 - c.h);
}

#[test]
fn click_maps_screen_to_world() {
    let mut f = player();
    f.resize_event(900, 900);
    f.update_camera();
    let c = f.get_camera();
    assert_eq!(c.w, 200_000);
    f.mouse_button_down_event(900, 450, 900, 900);
    assert_eq!(c.x, 900_000);
    assert_eq!(c.y, 900_000);
    let b = f.get_shots()[0];
    assert_eq!((b.vx, b.vy), (299027, -24163));
}

#[test]
fn reset_restores_defaults() {
    let mut f = player();
    f.key_down_event(Movement::Down);
    f.shoot(0, 0);
    f.take_hit();
    f.add_to_score(12);
    f.activate_powerup(Powerups::SpeedBoost(10_000, 1_500));
    let mut trees = Vec::new();
    f.update(&mut trees, 500);
    f.reset();
    assert_eq!(f.get_health(), MAX_HEALTH);
    assert_eq!(f.get_nb_ammos(), STARTING_AMMOS);
    assert_eq!(f.get_score(), 0);
    assert_eq!(f.speed, 50_000);
    assert_eq!(f.active_powerup, None);
    assert_eq!(f.get_shots().len(), 0);
    assert_eq!(f.movement_queue.len(), 0);
    assert_eq!(f.get_hitbox().x, 1_000_000);
    assert_eq!(f.get_hitbox().y, 1_000_000);
    assert_eq!(f.invicibility_frames, 0);
}

#[test]
fn score_saturates() {
    let mut f = player();
    f.add_to_score(u32::MAX - 1);
    f.add_to_score(5);
    assert_eq!(f.get_score(), u32::MAX);
}

#[test]
fn new_player_scans_for_a_free_spot() {
    // a trunk over the whole diagonal walk, leaving the right edge free
    let hitbox = Rect::new(0, 0, 1_900_000, 2_000_000);
    let trees = vec![Tree { sprite: 0, x: 0, y: 0, hitbox, draw_before_fabien: true }];
    let f = Fabien::new(&trees, 2_000_000, 2_000_000, 1600, 900);
    let h = f.get_hitbox();
    assert!(!h.overlaps(&trees[0].get_hitbox()));
    assert_eq!((h.x, h.y), (1_900_001, 0));
    assert_eq!((f.spawn_x, f.spawn_y), (h.x, h.y));
}

#[test]
fn new_player_finds_a_spot_between_grid_points() {
    let trees: Vec<Tree> = (0..20)
        .map(|i| {
            let hitbox = Rect::new(10_000 * i + 4_000, 0, 0, 100_000);
            Tree { sprite: 0, x: hitbox.x, y: 0, hitbox, draw_before_fabien: true }
        })
        .collect();
    let f = Fabien::new(&trees, 200_000, 100_000, 1600, 900);
    let h = f.get_hitbox();
    assert!(trees.iter().all(|t| !h.overlaps(&t.get_hitbox())));
    assert_eq!((h.x, h.y), (4_001, 0));
}
