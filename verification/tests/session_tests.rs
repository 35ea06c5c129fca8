use code_invaders::bullet::Bullet;
use code_invaders::enemy::{compute_speed, Enemy};
use code_invaders::engine::check_collision;
use code_invaders::high_scores::HighScores;
use code_invaders::name_input::NameInput;
use code_invaders::player::Player;
use code_invaders::session::{
    enemy_texture_name, frame_tick, shoot_bullet, FrameInput, GameState, Session,
};

fn quiet_input() -> FrameInput {
    FrameInput {
        enter_pressed: false,
        h_pressed: false,
        escape_pressed: false,
        space_down: false,
        left_down: false,
        right_down: false,
        typed: None,
        now_ms: 0,
        dt_ms: 0,
        screen_w: 1000,
        screen_h: 1000,
        player_tex_w: 64,
        player_tex_h: 64,
        enemy_tex_w: 64,
        enemy_tex_h: 64,
    }
}

fn fresh_session() -> Session {
    Session::new(1000, 1000, 64, 64, 0, HighScores::new())
}

fn playing_session(enemies: Vec<Enemy>, bullets: Vec<Bullet>) -> Session {
    let mut s = fresh_session();
    s.game_state = GameState::Playing;
    s.level = 1;
    s.enemies = enemies;
    s.bullets = bullets;
    s
}

#[test]
fn texture_names_follow_levels_with_fixed_fallback() {
    assert_eq!(enemy_texture_name(1), "python.png");
    assert_eq!(enemy_texture_name(2), "java.png");
    assert_eq!(enemy_texture_name(3), "dart.png");
    assert_eq!(enemy_texture_name(4), "cplusplus.png");
    assert_eq!(enemy_texture_name(5), "c.png");
    assert_eq!(enemy_texture_name(42), "c.png");
    assert_eq!(enemy_texture_name(0), "c.png");
}

#[test]
fn menu_enter_starts_level_one_with_fifty_enemies() {
    let mut s = fresh_session();
    let mut inp = quiet_input();
    inp.enter_pressed = true;
    frame_tick(&mut s, &inp);
    assert!(matches!(s.game_state, GameState::Playing));
    assert_eq!(s.level, 1);
    assert_eq!(s.score, 0);
    assert_eq!(s.enemies.len(), 50);
    assert!(s.bullets.is_empty());
}

#[test]
fn menu_h_shows_high_scores() {
    let mut s = fresh_session();
    let mut inp = quiet_input();
    inp.h_pressed = true;
    frame_tick(&mut s, &inp);
    assert!(matches!(s.game_state, GameState::HighScores));
}

#[test]
fn high_scores_escape_returns_to_menu() {
    let mut s = fresh_session();
    s.game_state = GameState::HighScores;
    let mut inp = quiet_input();
    inp.escape_pressed = true;
    frame_tick(&mut s, &inp);
    assert!(matches!(s.game_state, GameState::Menu));
}

#[test]
fn game_over_enter_or_escape_resets_counters_to_menu() {
    let mut s = fresh_session();
    s.game_state = GameState::GameOver;
    s.level = 4;
    s.score = 123;
    let mut inp = quiet_input();
    inp.enter_pressed = true;
    frame_tick(&mut s, &inp);
    assert!(matches!(s.game_state, GameState::Menu));
    assert_eq!(s.level, 0);
    assert_eq!(s.score, 0);
}

#[test]
fn game_over_h_resets_counters_to_high_scores() {
    let mut s = fresh_session();
    s.game_state = GameState::GameOver;
    s.level = 4;
    s.score = 123;
    let mut inp = quiet_input();
    inp.h_pressed = true;
    frame_tick(&mut s, &inp);
    assert!(matches!(s.game_state, GameState::HighScores));
    assert_eq!(s.level, 0);
    assert_eq!(s.score, 0);
}

#[test]
fn level_complete_escape_resets_level_and_asks_for_name() {
    let mut s = fresh_session();
    s.game_state = GameState::LevelComplete;
    s.level = 3;
    s.score = 70;
    let mut inp = quiet_input();
    inp.escape_pressed = true;
    frame_tick(&mut s, &inp);
    assert!(matches!(s.game_state, GameState::EnterName));
    assert_eq!(s.level, 0);
    assert_eq!(s.score, 70);
}

#[test]
fn playing_escape_ends_the_round() {
    let mut s = playing_session(vec![Enemy::new(50, 20, 1, 500, 100)], Vec::new());
    let mut inp = quiet_input();
    inp.escape_pressed = true;
    frame_tick(&mut s, &inp);
    assert!(matches!(s.game_state, GameState::EnterName));
}

#[test]
fn emptying_the_formation_completes_the_level_on_the_same_frame() {
    let enemies = vec![Enemy::new(100, 100, 1, 400, 100)];
    let bullets = vec![Bullet::new(450, 150)];
    let mut s = playing_session(enemies, bullets);
    frame_tick(&mut s, &quiet_input());
    assert!(matches!(s.game_state, GameState::LevelComplete));
    assert!(s.enemies.is_empty());
    assert!(s.bullets.is_empty());
    assert_eq!(s.score, 10);
}

#[test]
fn enemy_on_player_line_ends_round_while_others_remain() {
    // player spawned by Session::new sits at y == 924
    let enemies = vec![
        Enemy::new(50, 50, 1, 400, 100),
        Enemy::new(50, 50, 1, 500, 900), // bottom edge 950 >= 924
    ];
    let mut s = playing_session(enemies, Vec::new());
    frame_tick(&mut s, &quiet_input());
    assert!(matches!(s.game_state, GameState::EnterName));
    assert_eq!(s.enemies.len(), 2);
}

#[test]
fn bullets_past_the_top_edge_are_destroyed() {
    let enemies = vec![Enemy::new(50, 50, 1, 400, 700)];
    let bullets = vec![Bullet::new(5, 100), Bullet::new(5, 500)];
    let mut s = playing_session(enemies, bullets);
    let mut inp = quiet_input();
    inp.dt_ms = 1000; // bullets climb screen_h/3 = 333 this frame
    frame_tick(&mut s, &inp);
    // the bullet that crossed the top edge is destroyed, the other
    // remains at its new height
    assert_eq!(s.bullets.len(), 1);
    assert_eq!(s.bullets[0].y, 167);
}

#[test]
fn firing_n_shots_with_zero_hits_scores_minus_n() {
    let mut bullets: Vec<Bullet> = Vec::new();
    let player = Player::new(1000, 1000, 64, 64);
    let mut last_shot = 0i64;
    let mut score = 0i32;
    for k in 1..=3i64 {
        shoot_bullet(&mut bullets, &player, &mut last_shot, k * 1000, 10, true, &mut score);
    }
    assert_eq!(score, -3);
    assert_eq!(bullets.len(), 3);
    assert_eq!(bullets[0].x, player.x + player.width / 2);
    assert_eq!(bullets[0].y, player.y);
}

#[test]
fn cooldown_blocks_a_shot_until_strictly_elapsed() {
    let mut bullets: Vec<Bullet> = Vec::new();
    let player = Player::new(1000, 1000, 64, 64);
    let mut last_shot = 0i64;
    let mut score = 0i32;
    // cooldown is 50 * dt = 500; neither 400 nor exactly 500 fires
    shoot_bullet(&mut bullets, &player, &mut last_shot, 400, 10, true, &mut score);
    shoot_bullet(&mut bullets, &player, &mut last_shot, 500, 10, true, &mut score);
    assert!(bullets.is_empty());
    assert_eq!(score, 0);
    // key not held: no shot either
    shoot_bullet(&mut bullets, &player, &mut last_shot, 5000, 10, false, &mut score);
    assert!(bullets.is_empty());
    // held and elapsed: fires
    shoot_bullet(&mut bullets, &player, &mut last_shot, 501, 10, true, &mut score);
    assert_eq!(bullets.len(), 1);
    assert_eq!(score, -1);
    assert_eq!(last_shot, 501);
}

#[test]
fn firing_n_shots_with_all_hits_scores_nine_n() {
    let player = Player::new(1000, 1000, 64, 64);
    let mut score = 0i32;
    let mut last_shot = 0i64;
    for k in 1..=4i64 {
        let mut bullets: Vec<Bullet> = Vec::new();
        shoot_bullet(&mut bullets, &player, &mut last_shot, k * 1000, 10, true, &mut score);
        assert_eq!(bullets.len(), 1);
        // an enemy box strictly around the fresh projectile
        let mut enemies = vec![Enemy::new(200, 200, 1, bullets[0].x - 100, bullets[0].y - 100)];
        check_collision(&mut bullets, &mut enemies, &mut score);
        assert!(enemies.is_empty());
    }
    assert_eq!(score, 36);
}

#[test]
fn qualifying_score_takes_typed_name_on_enter() {
    let mut s = fresh_session();
    s.game_state = GameState::EnterName;
    s.score = 42;
    let mut inp = quiet_input();
    inp.typed = Some('A');
    frame_tick(&mut s, &inp);
    assert!(matches!(s.game_state, GameState::EnterName));
    inp.typed = Some('x');
    frame_tick(&mut s, &inp);
    inp.typed = Some('\u{8}'); // backspace removes the x
    frame_tick(&mut s, &inp);
    inp.typed = Some('b');
    inp.enter_pressed = true;
    frame_tick(&mut s, &inp);
    assert!(matches!(s.game_state, GameState::GameOver));
    assert_eq!(s.high_scores.entries.len(), 1);
    assert_eq!(s.high_scores.entries[0].name, "Ab");
    assert_eq!(s.high_scores.entries[0].score, 42);
}

#[test]
fn non_qualifying_score_skips_name_entry() {
    let mut s = fresh_session();
    for k in 0..10 {
        s.high_scores.add_score(format!("p{}", k), 100 + k);
    }
    s.game_state = GameState::EnterName;
    s.score = 5;
    frame_tick(&mut s, &quiet_input());
    assert!(matches!(s.game_state, GameState::GameOver));
    assert_eq!(s.high_scores.entries.len(), 10);
    assert!(s.high_scores.entries.iter().all(|e| e.score >= 100));
}

#[test]
fn name_input_appends_deletes_and_ignores_newline() {
    let mut n = NameInput::new();
    n.update(Some('J'));
    n.update(Some('o'));
    n.update(None);
    n.update(Some('\n'));
    n.update(Some('e'));
    assert_eq!(n.name, "Joe");
    n.update(Some('\u{8}'));
    assert_eq!(n.name, "Jo");
}

#[test]
fn player_moves_and_clamps_at_both_edges() {
    let mut p = Player::new(1000, 1000, 64, 64);
    // speed 1000/3 = 333 px/s; one second left runs into the left bound
    for _ in 0..3 {
        p.update(true, false, 1000, 1000);
    }
    assert_eq!(p.x, 10);
    for _ in 0..3 {
        p.update(false, true, 1000, 1000);
    }
    assert_eq!(p.x, 1000 - p.width - 10);
}

#[test]
fn full_round_scenario_levels_up_with_new_sprite_and_speed() {
    let mut s = fresh_session();
    assert_eq!(s.level, 0);
    assert_eq!(s.score, 0);
    let mut enter = quiet_input();
    enter.enter_pressed = true;
    frame_tick(&mut s, &enter);
    assert!(matches!(s.game_state, GameState::Playing));
    assert_eq!(s.level, 1);
    assert_eq!(s.enemies.len(), 50);
    // destroy all fifty, one per frame, with a planted projectile
    let mut frames = 0;
    while !s.enemies.is_empty() {
        let target = &s.enemies[0];
        let b = Bullet::new(target.x + target.width / 2, target.y + target.height / 2);
        s.bullets = vec![b];
        frame_tick(&mut s, &quiet_input());
        frames += 1;
        assert!(frames <= 50);
    }
    assert!(matches!(s.game_state, GameState::LevelComplete));
    assert_eq!(s.level, 1);
    assert_eq!(s.score, 500);
    // Enter advances to level two: fresh formation, another sprite,
    // faster movement
    frame_tick(&mut s, &enter);
    assert!(matches!(s.game_state, GameState::Playing));
    assert_eq!(s.level, 2);
    assert_eq!(s.enemies.len(), 50);
    assert_eq!(s.score, 500);
    assert_eq!(enemy_texture_name(s.level), "java.png");
    assert!(compute_speed(40, 2) > compute_speed(40, 1));
}
