//! The game-flow state machine: the session context, the per-frame
//! tick, and the per-state handlers reacting to polled input. The
//! presentation layer polls keys, measures time, loads sprites and
//! draws; everything it hands in arrives here as plain values.

use vstd::prelude::*;
use crate::bullet::{bullet_step, Bullet};
use crate::enemy::Enemy;
use crate::engine::{
    calculate_enemy_movement, check_collision, formation_spawn, formation_step, spawn_enemies,
    surviving_bullets, surviving_enemies, total_hits,
};
use crate::high_scores::{spec_add_score, spec_qualifies, EntryV, HighScores};
use crate::name_input::{name_step, NameInput};
use crate::player::{player_start, player_step, Player};
use crate::{
    clamp_coord, clamp_score, coord_add, score_add, DT_LIMIT, SCREEN_LIMIT, TIME_LIMIT,
};

verus! {

/// The top-level game-flow states; exactly one handler runs per frame.
#[derive(Clone, Copy, PartialEq, Eq, Structural, Debug)]
pub enum GameState {
    Menu,
    Playing,
    LevelComplete,
    GameOver,
    HighScores,
    EnterName,
}

/// Everything the presentation layer polls or measures for one frame,
/// as plain values: key states, the typed character, the clock, the
/// frame delta, the screen size, and the pixel sizes of the source
/// images the new round would use.
#[derive(Clone, Copy, PartialEq, Eq, Structural, Debug)]
pub struct FrameInput {
    pub enter_pressed: bool,
    pub h_pressed: bool,
    pub escape_pressed: bool,
    pub space_down: bool,
    pub left_down: bool,
    pub right_down: bool,
    pub typed: Option<char>,
    pub now_ms: i64,
    pub dt_ms: i64,
    pub screen_w: i64,
    pub screen_h: i64,
    pub player_tex_w: i64,
    pub player_tex_h: i64,
    pub enemy_tex_w: i64,
    pub enemy_tex_h: i64,
}

impl FrameInput {
    /// Clock, delta and dimensions within the ranges frame arithmetic
    /// needs.
    pub open spec fn wf(self) -> bool {
        &&& 0 <= self.dt_ms <= DT_LIMIT
        &&& 0 <= self.now_ms <= TIME_LIMIT
        &&& 1 <= self.screen_w <= SCREEN_LIMIT
        &&& 1 <= self.screen_h <= SCREEN_LIMIT
        &&& 1 <= self.player_tex_w <= SCREEN_LIMIT
        &&& 1 <= self.player_tex_h <= SCREEN_LIMIT
        &&& 1 <= self.enemy_tex_w <= SCREEN_LIMIT
        &&& 1 <= self.enemy_tex_h <= SCREEN_LIMIT
    }
}

/// The whole mutable session: flow state, counters, leaderboard, name
/// entry, and the live entities.
#[derive(Debug)]
pub struct Session {
    pub game_state: GameState,
    pub level: i8,
    pub score: i32,
    pub high_scores: HighScores,
    pub name_input: NameInput,
    pub player: Player,
    pub enemies: Vec<Enemy>,
    pub bullets: Vec<Bullet>,
    pub last_shot: i64,
}

/// The mathematical view of a session.
#[verifier::ext_equal]
pub struct SessionV {
    pub game_state: GameState,
    pub level: int,
    pub score: int,
    pub scores: Seq<EntryV>,
    pub name: Seq<char>,
    pub player: Player,
    pub enemies: Seq<Enemy>,
    pub bullets: Seq<Bullet>,
    pub last_shot: int,
}

impl View for Session {
    type V = SessionV;

    open spec fn view(&self) -> SessionV {
        SessionV {
            game_state: self.game_state,
            level: self.level as int,
            score: self.score as int,
            scores: self.high_scores@,
            name: self.name_input.name@,
            player: self.player,
            enemies: self.enemies@,
            bullets: self.bullets@,
            last_shot: self.last_shot as int,
        }
    }
}

/// The sprite file a level's formation uses; levels past the last
/// defined one fall back to the final sprite.
pub open spec fn texture_file(level: int) -> Seq<char> {
    if level == 1 {
        "python.png"@
    } else if level == 2 {
        "java.png"@
    } else if level == 3 {
        "dart.png"@
    } else if level == 4 {
        "cplusplus.png"@
    } else {
        "c.png"@
    }
}

/// The sprite file for a level's formation.
pub fn enemy_texture_name(level: i8) -> (r: &'static str)
    ensures
        r@ == texture_file(level as int),
{
    match level {
        1 => "python.png",
        2 => "java.png",
        3 => "dart.png",
        4 => "cplusplus.png",
        _ => "c.png",
    }
}

/// Whether some enemy's bottom edge has reached or passed the player's
/// vertical position.
pub open spec fn spec_overrun(es: Seq<Enemy>, p: Player) -> bool {
    exists|i: int| 0 <= i < es.len() && es[i].y + es[i].height >= p.y
}

/// The flow state after the per-frame round checks: an overrun enemy
/// ends the round even when the emptiness check also fired.
pub open spec fn round_outcome(es: Seq<Enemy>, p: Player, st: GameState) -> GameState {
    if spec_overrun(es, p) {
        GameState::EnterName
    } else if es.len() == 0 {
        GameState::LevelComplete
    } else {
        st
    }
}

/// Runs the two independent round checks: an empty formation completes
/// the level; any enemy on the player's line ends the round, and wins
/// when both apply.
pub fn check_round_finished(player: &Player, enemies: &Vec<Enemy>, game_state: &mut GameState)
    requires
        player.wf(),
        forall|i: int| 0 <= i < enemies@.len() ==> (#[trigger] enemies@[i]).wf(),
    ensures
        *final(game_state) == round_outcome(enemies@, *player, *old(game_state)),
{
    if enemies.is_empty() {
        *game_state = GameState::LevelComplete;
    }
    let n = enemies.len();
    let mut i: usize = 0;
    while i < n
        invariant
            n == enemies@.len(),
            0 <= i <= n,
            player.wf(),
            forall|k: int| 0 <= k < n ==> (#[trigger] enemies@[k]).wf(),
            *game_state == (if exists|k: int|
                0 <= k < i && enemies@[k].y + enemies@[k].height >= player.y {
                GameState::EnterName
            } else if n == 0 {
                GameState::LevelComplete
            } else {
                *old(game_state)
            }),
        decreases n - i,
    {
        let e = enemies[i];
        if e.y + e.height >= player.y {
            *game_state = GameState::EnterName;
        }
        i = i + 1;
    }
}

/// Whether the fire key is held and the cooldown has elapsed: the
/// elapsed time must strictly exceed the speed constant scaled by the
/// frame delta.
pub open spec fn can_shoot(space_down: bool, now_ms: int, last_shot: int, dt_ms: int) -> bool {
    space_down && now_ms - last_shot > 50 * dt_ms
}

/// A fresh projectile at the middle of the player's top edge.
pub open spec fn bullet_spawn(p: Player) -> Bullet {
    Bullet { x: clamp_coord(p.x + p.width / 2) as i64, y: p.y, collided: false }
}

/// Fires while the key is held and the cooldown allows it: pushes a
/// projectile above the player's middle, restarts the cooldown, and
/// charges one point of score.
pub fn shoot_bullet(
    bullets: &mut Vec<Bullet>,
    player: &Player,
    last_shot: &mut i64,
    now_ms: i64,
    dt_ms: i64,
    space_down: bool,
    score: &mut i32,
)
    requires
        player.wf(),
        0 <= dt_ms <= DT_LIMIT,
        0 <= now_ms <= TIME_LIMIT,
        0 <= *old(last_shot) <= TIME_LIMIT,
        forall|i: int| 0 <= i < old(bullets)@.len() ==> (#[trigger] old(bullets)@[i]).wf(),
    ensures
        can_shoot(space_down, now_ms as int, *old(last_shot) as int, dt_ms as int) ==> {
            &&& final(bullets)@ == old(bullets)@.push(bullet_spawn(*player))
            &&& *final(last_shot) == now_ms
            &&& *final(score) == clamp_score(*old(score) - 1)
        },
        !can_shoot(space_down, now_ms as int, *old(last_shot) as int, dt_ms as int) ==> {
            &&& final(bullets)@ == old(bullets)@
            &&& *final(last_shot) == *old(last_shot)
            &&& *final(score) == *old(score)
        },
        forall|i: int| 0 <= i < final(bullets)@.len() ==> (#[trigger] final(bullets)@[i]).wf(),
        0 <= *final(last_shot) <= TIME_LIMIT,
{
    let cooldown: i64 = 50 * dt_ms;
    if space_down && now_ms - *last_shot > cooldown {
        let x = coord_add(player.x, player.width / 2);
        bullets.push(Bullet { x, y: player.y, collided: false });
        *last_shot = now_ms;
        *score = score_add(*score, -1);
    }
}

/// The saturated next level counter.
pub open spec fn next_level(level: int) -> int {
    if level < 127 {
        level + 1
    } else {
        127
    }
}

/// What starting a round does: the level advances, the player is put
/// back at its start position, the entity lists are replaced by a fresh
/// five-row formation for the new level, and play begins.
pub open spec fn spec_init_game(s: SessionV, inp: FrameInput) -> SessionV {
    let lvl = next_level(s.level);
    SessionV {
        game_state: GameState::Playing,
        level: lvl,
        player: player_start(
            inp.screen_w as int,
            inp.screen_h as int,
            inp.player_tex_w as int,
            inp.player_tex_h as int,
        ),
        enemies: formation_spawn(
            lvl as i8,
            inp.enemy_tex_w as int,
            inp.enemy_tex_h as int,
            inp.screen_w as int,
            5,
        ),
        bullets: Seq::empty(),
        ..s
    }
}

/// What one frame in the menu does: Enter starts a round, H shows the
/// leaderboard; when both are pressed in one frame the round is started
/// and the leaderboard still wins the flow state.
pub open spec fn spec_menu(s: SessionV, inp: FrameInput) -> SessionV {
    let s1 = if inp.enter_pressed {
        spec_init_game(s, inp)
    } else {
        s
    };
    if inp.h_pressed {
        SessionV { game_state: GameState::HighScores, ..s1 }
    } else {
        s1
    }
}

/// What one frame on the level-complete screen does: Enter starts the
/// next round; otherwise Escape resets the level and asks for a name.
pub open spec fn spec_level_complete(s: SessionV, inp: FrameInput) -> SessionV {
    if inp.enter_pressed {
        spec_init_game(s, inp)
    } else if inp.escape_pressed {
        SessionV { game_state: GameState::EnterName, level: 0, ..s }
    } else {
        s
    }
}

/// What one frame on the game-over screen does: Escape or Enter clears
/// the counters and returns to the menu; otherwise H clears them and
/// shows the leaderboard.
pub open spec fn spec_game_over(s: SessionV, inp: FrameInput) -> SessionV {
    if inp.escape_pressed || inp.enter_pressed {
        SessionV { game_state: GameState::Menu, level: 0, score: 0, ..s }
    } else if inp.h_pressed {
        SessionV { game_state: GameState::HighScores, level: 0, score: 0, ..s }
    } else {
        s
    }
}

/// What one frame of name entry does: a score that does not qualify
/// goes straight to game over; otherwise the typed character is applied
/// and Enter records the score under the entered name.
pub open spec fn spec_enter_name(s: SessionV, inp: FrameInput) -> SessionV {
    if !spec_qualifies(s.scores, s.score) {
        SessionV { game_state: GameState::GameOver, ..s }
    } else {
        let name1 = name_step(s.name, inp.typed);
        if inp.enter_pressed {
            SessionV {
                game_state: GameState::GameOver,
                name: name1,
                scores: spec_add_score(s.scores, name1, s.score),
                ..s
            }
        } else {
            SessionV { name: name1, ..s }
        }
    }
}

/// What one frame on the leaderboard screen does: Escape returns to the
/// menu.
pub open spec fn spec_high_scores(s: SessionV, inp: FrameInput) -> SessionV {
    if inp.escape_pressed {
        SessionV { game_state: GameState::Menu, ..s }
    } else {
        s
    }
}

/// What one playing frame does, in order: the player moves; the
/// formation scans for a wall trigger and moves; a shot may be fired;
/// every projectile (the new one included) moves and those that left
/// the top of the visible area are destroyed; collisions are resolved;
/// the round checks run; Escape last overrides the flow state.
pub open spec fn spec_playing(s: SessionV, inp: FrameInput) -> SessionV {
    let p1 = player_step(s.player, inp.left_down, inp.right_down, inp.screen_w as int, inp.dt_ms as int);
    let es1 = formation_step(s.enemies, inp.screen_w as int, inp.dt_ms as int);
    let shoot = can_shoot(inp.space_down, inp.now_ms as int, s.last_shot, inp.dt_ms as int);
    let bs1 = if shoot {
        s.bullets.push(bullet_spawn(p1))
    } else {
        s.bullets
    };
    let sc1 = if shoot {
        clamp_score(s.score - 1)
    } else {
        s.score
    };
    let ls1 = if shoot {
        inp.now_ms as int
    } else {
        s.last_shot
    };
    let bs2 = Seq::new(bs1.len(), |i: int| bullet_step(bs1[i], inp.screen_h as int, inp.dt_ms as int));
    let bs3 = on_screen(bs2);
    let bs4 = surviving_bullets(bs3, es1);
    let es2 = surviving_enemies(es1, bs3);
    let sc2 = clamp_score(sc1 + 10 * total_hits(bs3, es1));
    let st1 = round_outcome(es2, p1, GameState::Playing);
    let st2 = if inp.escape_pressed {
        GameState::EnterName
    } else {
        st1
    };
    SessionV {
        game_state: st2,
        score: sc2,
        player: p1,
        enemies: es2,
        bullets: bs4,
        last_shot: ls1,
        ..s
    }
}

/// The projectiles still inside the visible area: one that has left
/// the top edge is destroyed.
pub open spec fn on_screen(bs: Seq<Bullet>) -> Seq<Bullet>
    decreases bs.len(),
{
    if bs.len() == 0 {
        Seq::empty()
    } else if bs.last().y >= 0 {
        on_screen(bs.drop_last()).push(bs.last())
    } else {
        on_screen(bs.drop_last())
    }
}

/// One full frame: exactly one state's handler runs.
pub open spec fn spec_step(s: SessionV, inp: FrameInput) -> SessionV {
    match s.game_state {
        GameState::Menu => spec_menu(s, inp),
        GameState::Playing => spec_playing(s, inp),
        GameState::LevelComplete => spec_level_complete(s, inp),
        GameState::GameOver => spec_game_over(s, inp),
        GameState::EnterName => spec_enter_name(s, inp),
        GameState::HighScores => spec_high_scores(s, inp),
    }
}

impl Session {
    /// Entities in range, the leaderboard well formed, the counters in
    /// range, and a live formation whenever play is on.
    pub open spec fn wf(self) -> bool {
        &&& self.player.wf()
        &&& forall|i: int| 0 <= i < self.enemies@.len() ==> (#[trigger] self.enemies@[i]).wf()
        &&& forall|i: int| 0 <= i < self.bullets@.len() ==> (#[trigger] self.bullets@[i]).wf()
        &&& self.high_scores.wf()
        &&& 0 <= self.level
        &&& 0 <= self.last_shot <= TIME_LIMIT
        &&& (self.game_state == GameState::Playing ==> self.enemies@.len() > 0)
    }

    /// A fresh session at the menu, with the loaded leaderboard and the
    /// avatar placed from the screen and its source image sizes.
    pub fn new(
        screen_w: i64,
        screen_h: i64,
        player_tex_w: i64,
        player_tex_h: i64,
        now_ms: i64,
        high_scores: HighScores,
    ) -> (r: Session)
        requires
            1 <= screen_w <= SCREEN_LIMIT,
            1 <= screen_h <= SCREEN_LIMIT,
            1 <= player_tex_w <= SCREEN_LIMIT,
            1 <= player_tex_h <= SCREEN_LIMIT,
            0 <= now_ms <= TIME_LIMIT,
            high_scores.wf(),
        ensures
            r@.game_state == GameState::Menu,
            r@.level == 0,
            r@.score == 0,
            r@.scores == high_scores@,
            r@.name == Seq::<char>::empty(),
            r@.player == player_start(
                screen_w as int,
                screen_h as int,
                player_tex_w as int,
                player_tex_h as int,
            ),
            r@.enemies == Seq::<Enemy>::empty(),
            r@.bullets == Seq::<Bullet>::empty(),
            r@.last_shot == now_ms,
            r.wf(),
    {
        Session {
            game_state: GameState::Menu,
            level: 0,
            score: 0,
            high_scores,
            name_input: NameInput::new(),
            player: Player::new(screen_w, screen_h, player_tex_w, player_tex_h),
            enemies: Vec::new(),
            bullets: Vec::new(),
            last_shot: now_ms,
        }
    }

    /// Starts a round: advances the level, resets the player, clears
    /// the entity lists, spawns the new formation, and begins play.
    pub fn init_game(&mut self, inp: &FrameInput)
        requires
            old(self).wf(),
            inp.wf(),
        ensures
            final(self)@ == spec_init_game(old(self)@, *inp),
            final(self).wf(),
    {
        if self.level < 127 {
            self.level = self.level + 1;
        }
        self.player.reset(inp.screen_w, inp.screen_h, inp.player_tex_w, inp.player_tex_h);
        self.bullets.clear();
        self.enemies.clear();
        spawn_enemies(
            &mut self.enemies,
            self.level,
            inp.enemy_tex_w,
            inp.enemy_tex_h,
            inp.screen_w,
            5,
        );
        self.game_state = GameState::Playing;
        proof {
            let grid = formation_spawn(
                self.level,
                inp.enemy_tex_w as int,
                inp.enemy_tex_h as int,
                inp.screen_w as int,
                5,
            );
            assert(Seq::<Enemy>::empty() + grid =~= grid);
            assert(self@ =~= spec_init_game(old(self)@, *inp));
        }
    }
}

/// One frame in the menu.
pub fn handle_menu(session: &mut Session, inp: &FrameInput)
    requires
        old(session).wf(),
        inp.wf(),
    ensures
        final(session)@ == spec_menu(old(session)@, *inp),
        final(session).wf(),
{
    if inp.enter_pressed {
        session.init_game(inp);
    }
    if inp.h_pressed {
        session.game_state = GameState::HighScores;
    }
    proof {
        assert(session@ =~= spec_menu(old(session)@, *inp));
    }
}

/// One frame on the level-complete screen.
pub fn handle_level_complete(session: &mut Session, inp: &FrameInput)
    requires
        old(session).wf(),
        inp.wf(),
    ensures
        final(session)@ == spec_level_complete(old(session)@, *inp),
        final(session).wf(),
{
    if inp.enter_pressed {
        session.init_game(inp);
        return ;
    }
    if inp.escape_pressed {
        session.level = 0;
        session.game_state = GameState::EnterName;
    }
    proof {
        assert(session@ =~= spec_level_complete(old(session)@, *inp));
    }
}

/// One frame on the game-over screen.
pub fn handle_game_over(session: &mut Session, inp: &FrameInput)
    requires
        old(session).wf(),
        inp.wf(),
    ensures
        final(session)@ == spec_game_over(old(session)@, *inp),
        final(session).wf(),
{
    if inp.escape_pressed || inp.enter_pressed {
        session.level = 0;
        session.score = 0;
        session.game_state = GameState::Menu;
        return ;
    }
    if inp.h_pressed {
        session.level = 0;
        session.score = 0;
        session.game_state = GameState::HighScores;
    }
    proof {
        assert(session@ =~= spec_game_over(old(session)@, *inp));
    }
}

/// One frame of name entry.
pub fn handle_enter_name(session: &mut Session, inp: &FrameInput)
    requires
        old(session).wf(),
        inp.wf(),
    ensures
        final(session)@ == spec_enter_name(old(session)@, *inp),
        final(session).wf(),
{
    if !session.high_scores.qualifies(session.score) {
        session.game_state = GameState::GameOver;
        proof {
            assert(session@ =~= spec_enter_name(old(session)@, *inp));
        }
        return ;
    }
    session.name_input.update(inp.typed);
    if inp.enter_pressed {
        let name = session.name_input.name.clone();
        session.high_scores.add_score(name, session.score);
        session.game_state = GameState::GameOver;
    }
    proof {
        assert(session@ =~= spec_enter_name(old(session)@, *inp));
    }
}

/// One frame on the leaderboard screen.
pub fn handle_high_scores(session: &mut Session, inp: &FrameInput)
    requires
        old(session).wf(),
        inp.wf(),
    ensures
        final(session)@ == spec_high_scores(old(session)@, *inp),
        final(session).wf(),
{
    if inp.escape_pressed {
        session.game_state = GameState::Menu;
    }
    proof {
        assert(session@ =~= spec_high_scores(old(session)@, *inp));
    }
}

/// One playing frame.
pub fn handle_playing(session: &mut Session, inp: &FrameInput)
    requires
        old(session).wf(),
        inp.wf(),
        old(session).game_state == GameState::Playing,
    ensures
        final(session)@ == spec_playing(old(session)@, *inp),
        final(session).wf(),
{
    let ghost s0 = old(session)@;
    let ghost inpv = *inp;
    session.player.update(inp.left_down, inp.right_down, inp.screen_w, inp.dt_ms);
    calculate_enemy_movement(&mut session.enemies, inp.screen_w, inp.dt_ms);
    shoot_bullet(
        &mut session.bullets,
        &session.player,
        &mut session.last_shot,
        inp.now_ms,
        inp.dt_ms,
        inp.space_down,
        &mut session.score,
    );
    let ghost bs1 = session.bullets@;
    let ghost bs2 = Seq::new(
        bs1.len(),
        |k: int| bullet_step(bs1[k], inpv.screen_h as int, inpv.dt_ms as int),
    );
    let n = session.bullets.len();
    let mut kept: Vec<Bullet> = Vec::new();
    let mut k: usize = 0;
    while k < n
        invariant
            n == bs1.len() == session.bullets@.len(),
            bs1 == session.bullets@,
            bs2 == Seq::new(
                bs1.len(),
                |m: int| bullet_step(bs1[m], inpv.screen_h as int, inpv.dt_ms as int),
            ),
            0 <= k <= n,
            forall|m: int| 0 <= m < n ==> (#[trigger] bs1[m]).wf(),
            kept@ == on_screen(bs2.take(k as int)),
            forall|m: int| 0 <= m < kept@.len() ==> (#[trigger] kept@[m]).wf(),
            1 <= inpv.screen_h <= SCREEN_LIMIT,
            0 <= inpv.dt_ms <= DT_LIMIT,
            inpv == *inp,
        decreases n - k,
    {
        let mut b = session.bullets[k];
        b.update(inp.screen_h, inp.dt_ms);
        proof {
            assert(b == bs2[k as int]);
            assert(bs2.take(k as int + 1).drop_last() =~= bs2.take(k as int));
            assert(bs2.take(k as int + 1).last() == bs2[k as int]);
        }
        if b.y >= 0 {
            kept.push(b);
        }
        k = k + 1;
    }
    proof {
        assert(bs2.take(n as int) =~= bs2);
    }
    session.bullets = kept;
    check_collision(&mut session.bullets, &mut session.enemies, &mut session.score);
    check_round_finished(&session.player, &session.enemies, &mut session.game_state);
    if inp.escape_pressed {
        session.game_state = GameState::EnterName;
    }
    proof {
        assert(session@ =~= spec_playing(s0, inpv));
    }
}

/// The score after `n` shots that each pay the one-point ammo cost and
/// hit nothing, exactly as the firing handler charges it.
pub open spec fn score_after_misses(s0: int, n: nat) -> int
    decreases n,
{
    if n == 0 {
        s0
    } else {
        clamp_score(score_after_misses(s0, (n - 1) as nat) - 1)
    }
}

/// The score after `n` shots that each pay the one-point ammo cost and
/// then earn the ten-point hit bonus, exactly as the firing handler and
/// the collision resolver account them.
pub open spec fn score_after_paid_hits(s0: int, n: nat) -> int
    decreases n,
{
    if n == 0 {
        s0
    } else {
        clamp_score(clamp_score(score_after_paid_hits(s0, (n - 1) as nat) - 1) + 10)
    }
}

/// Firing `n` shots with zero hits nets a score of exactly minus `n`.
pub proof fn lemma_score_all_misses(n: nat)
    requires
        n <= 0x7fff_ffff,
    ensures
        score_after_misses(0, n) == -(n as int),
    decreases n,
{
    if n > 0 {
        lemma_score_all_misses((n - 1) as nat);
    }
}

/// Firing `n` shots that all hit nets a score of exactly nine times
/// `n`: ten points of bonus less one of ammo cost for each.
pub proof fn lemma_score_all_hits(n: nat)
    requires
        9 * n <= i32::MAX,
    ensures
        score_after_paid_hits(0, n) == 9 * n,
    decreases n,
{
    if n > 0 {
        lemma_score_all_hits((n - 1) as nat);
    }
}

/// A formation emptied by this frame's hits completes the level on the
/// same frame.
pub proof fn lemma_round_empty(p: Player, st: GameState)
    ensures
        round_outcome(Seq::<Enemy>::empty(), p, st) == GameState::LevelComplete,
{
}

/// An enemy on the player's line ends the round, even when other
/// enemies remain.
pub proof fn lemma_round_overrun(es: Seq<Enemy>, p: Player, st: GameState, i: int)
    requires
        0 <= i < es.len(),
        es[i].y + es[i].height >= p.y,
    ensures
        round_outcome(es, p, st) == GameState::EnterName,
{
}

/// Runs exactly one state's handler for this frame.
pub fn frame_tick(session: &mut Session, inp: &FrameInput)
    requires
        old(session).wf(),
        inp.wf(),
    ensures
        final(session)@ == spec_step(old(session)@, *inp),
        final(session).wf(),
{
    let state = session.game_state;
    match state {
        GameState::Menu => handle_menu(session, inp),
        GameState::Playing => handle_playing(session, inp),
        GameState::LevelComplete => handle_level_complete(session, inp),
        GameState::GameOver => handle_game_over(session, inp),
        GameState::EnterName => handle_enter_name(session, inp),
        GameState::HighScores => handle_high_scores(session, inp),
    }
}

} // verus!
