use code_invaders::bullet::Bullet;
use code_invaders::enemy::{compute_speed, Direction, Enemy};
use code_invaders::engine::{calculate_enemy_movement, check_collision, is_collision, spawn_enemies};

fn enemy_at(x: i64, y: i64, w: i64, h: i64, level: i8) -> Enemy {
    Enemy::new(w, h, level, x, y)
}

#[test]
fn wall_trigger_flips_every_enemy_and_descends_one_sprite_height() {
    // The first enemy sits within the left wall margin, so the whole
    // formation must flip and descend this frame.
    let mut enemies = vec![
        enemy_at(5, 0, 50, 20, 0),
        enemy_at(500, 100, 50, 20, 0),
        enemy_at(700, 40, 50, 20, 0),
    ];
    calculate_enemy_movement(&mut enemies, 1000, 100);
    // base speed 1000/25 = 40, level 0, dx = 40*100/1000 = 4; after the
    // flip every enemy travels right, which subtracts.
    assert_eq!(enemies.len(), 3);
    for e in &enemies {
        assert!(matches!(e.current_direction, Direction::Right));
    }
    assert_eq!((enemies[0].x, enemies[0].y), (1, 20));
    assert_eq!((enemies[1].x, enemies[1].y), (496, 120));
    assert_eq!((enemies[2].x, enemies[2].y), (696, 60));
}

#[test]
fn no_wall_trigger_keeps_direction_and_height() {
    let mut enemies = vec![enemy_at(500, 100, 50, 20, 0)];
    calculate_enemy_movement(&mut enemies, 1000, 100);
    let e = &enemies[0];
    assert!(matches!(e.current_direction, Direction::Left));
    assert_eq!((e.x, e.y), (504, 100));
}

#[test]
fn level_speed_grows_by_half_per_level() {
    assert_eq!(compute_speed(40, 0), 40);
    assert_eq!(compute_speed(40, 1), 60);
    assert_eq!(compute_speed(40, 2), 90);
    assert_eq!(compute_speed(40, 3), 135);
}

#[test]
fn strict_hit_inside_box() {
    let e = enemy_at(20, 20, 100, 100, 1);
    assert!(is_collision(&Bullet::new(50, 50), &e));
}

#[test]
fn boundary_edges_do_not_hit() {
    let e = enemy_at(20, 20, 100, 100, 1);
    assert!(!is_collision(&Bullet::new(20, 50), &e)); // left edge
    assert!(!is_collision(&Bullet::new(120, 50), &e)); // right edge
    assert!(!is_collision(&Bullet::new(50, 20), &e)); // top edge
    assert!(!is_collision(&Bullet::new(50, 120), &e)); // bottom edge
}

#[test]
fn single_hit_awards_ten_and_removes_both() {
    let mut bullets = vec![Bullet::new(50, 50)];
    let mut enemies = vec![enemy_at(20, 20, 100, 100, 1)];
    let mut score = 0i32;
    check_collision(&mut bullets, &mut enemies, &mut score);
    assert_eq!(score, 10);
    assert!(bullets.is_empty());
    assert!(enemies.is_empty());
}

#[test]
fn boundary_bullet_changes_nothing() {
    let mut bullets = vec![Bullet::new(20, 50)];
    let mut enemies = vec![enemy_at(20, 20, 100, 100, 1)];
    let mut score = 7i32;
    check_collision(&mut bullets, &mut enemies, &mut score);
    assert_eq!(score, 7);
    assert_eq!(bullets.len(), 1);
    assert_eq!(enemies.len(), 1);
}

#[test]
fn overlapping_enemies_are_all_awarded_for_one_bullet() {
    // Two enemies over the same spot: one projectile point inside both
    // boxes scores twice and removes all three entities.
    let mut bullets = vec![Bullet::new(50, 50)];
    let mut enemies = vec![enemy_at(20, 20, 100, 100, 1), enemy_at(30, 30, 100, 100, 1)];
    let mut score = 0i32;
    check_collision(&mut bullets, &mut enemies, &mut score);
    assert_eq!(score, 20);
    assert!(bullets.is_empty());
    assert!(enemies.is_empty());
}

#[test]
fn spawn_builds_five_by_ten_grid() {
    let mut enemies: Vec<Enemy> = Vec::new();
    // screen 1000: sprite width 1000/20 = 50; square source image keeps
    // the height at 50; spacing 60.
    spawn_enemies(&mut enemies, 1, 64, 64, 1000, 5);
    assert_eq!(enemies.len(), 50);
    assert_eq!((enemies[0].x, enemies[0].y), (11, 10));
    assert_eq!((enemies[1].x, enemies[1].y), (71, 10));
    assert_eq!((enemies[10].x, enemies[10].y), (11, 70));
    assert_eq!((enemies[49].x, enemies[49].y), (9 * 60 + 11, 4 * 60 + 10));
    for e in &enemies {
        assert_eq!(e.width, 50);
        assert_eq!(e.height, 50);
        assert_eq!(e.level, 1);
        assert!(!e.collided);
        assert!(matches!(e.current_direction, Direction::Left));
    }
}

#[test]
fn spawn_keeps_aspect_ratio() {
    let mut enemies: Vec<Enemy> = Vec::new();
    // 2:1 source image: width 50, height 25.
    spawn_enemies(&mut enemies, 2, 128, 64, 1000, 5);
    assert_eq!(enemies[0].width, 50);
    assert_eq!(enemies[0].height, 25);
}
