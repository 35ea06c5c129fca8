//! The formation movement engine and the collision resolver: wall
//! detection over the whole formation, the synchronized per-frame
//! update, grid spawning, and strict point-in-box hit resolution.

use vstd::prelude::*;
use crate::bullet::Bullet;
use crate::enemy::{enemy_step, Direction, Enemy};
use crate::{
    clamp_score, filtered, lemma_clamp_score_chain, lemma_filtered_all, lemma_filtered_push,
    score_add, COORD_LIMIT, DIM_LIMIT, DT_LIMIT, PADDING, SCREEN_LIMIT,
};

verus! {

/// Whether one enemy is within the wall margin of either screen edge.
/// The right-hand test uses the formation leader's width, as the scan
/// does.
pub open spec fn at_wall(e: Enemy, lead_width: int, screen_w: int) -> bool {
    e.x + lead_width >= screen_w - PADDING || e.x <= PADDING
}

/// The wall-trigger condition: some enemy of the (pre-move) formation
/// is within the margin of either edge. The width of the first enemy
/// stands in for every enemy's width, as all enemies of one formation
/// share one sprite size.
pub open spec fn wall_hit(es: Seq<Enemy>, screen_w: int) -> bool
    recommends
        es.len() > 0,
{
    exists|i: int| 0 <= i < es.len() && at_wall(es[i], es[0].width as int, screen_w)
}

/// The whole formation after one frame: the single wall-trigger flag is
/// computed from the pre-move positions and applied uniformly to every
/// enemy.
pub open spec fn formation_step(es: Seq<Enemy>, screen_w: int, dt_ms: int) -> Seq<Enemy>
    recommends
        es.len() > 0,
{
    let hit = wall_hit(es, screen_w);
    Seq::new(es.len(), |i: int| enemy_step(es[i], hit, screen_w, dt_ms))
}

/// Scans the pre-move formation for a wall trigger, then applies the
/// one shared flag to every enemy's update.
pub fn calculate_enemy_movement(enemies: &mut Vec<Enemy>, screen_w: i64, dt_ms: i64)
    requires
        old(enemies).len() > 0,
        forall|i: int| 0 <= i < old(enemies).len() ==> (#[trigger] old(enemies)@[i]).wf(),
        0 <= screen_w <= SCREEN_LIMIT,
        0 <= dt_ms <= DT_LIMIT,
    ensures
        final(enemies)@ == formation_step(old(enemies)@, screen_w as int, dt_ms as int),
        final(enemies).len() == old(enemies).len(),
        forall|i: int| 0 <= i < final(enemies).len() ==> (#[trigger] final(enemies)@[i]).wf(),
{
    let ghost es0 = enemies@;
    let n = enemies.len();
    let lead_width = enemies[0].width;
    let mut hit_wall = false;
    let mut i: usize = 0;
    while i < n
        invariant
            enemies@ == es0,
            n == es0.len(),
            0 < n,
            0 <= i <= n,
            forall|k: int| 0 <= k < n ==> (#[trigger] es0[k]).wf(),
            lead_width == es0[0].width,
            0 <= screen_w <= SCREEN_LIMIT,
            hit_wall <==> exists|k: int|
                0 <= k < i && at_wall(es0[k], lead_width as int, screen_w as int),
        decreases n - i,
    {
        let e = enemies[i];
        if e.x + lead_width >= screen_w - PADDING || e.x <= PADDING {
            hit_wall = true;
        }
        i = i + 1;
    }
    proof {
        assert(hit_wall == wall_hit(es0, screen_w as int));
    }
    let mut j: usize = 0;
    while j < n
        invariant
            n == es0.len(),
            enemies@.len() == n,
            0 <= j <= n,
            forall|k: int| 0 <= k < n ==> (#[trigger] es0[k]).wf(),
            forall|k: int|
                0 <= k < j ==> enemies@[k] == enemy_step(
                    #[trigger] es0[k],
                    hit_wall,
                    screen_w as int,
                    dt_ms as int,
                ),
            forall|k: int| j <= k < n ==> enemies@[k] == #[trigger] es0[k],
            forall|k: int| 0 <= k < n ==> (#[trigger] enemies@[k]).wf(),
            0 <= screen_w <= SCREEN_LIMIT,
            0 <= dt_ms <= DT_LIMIT,
        decreases n - j,
    {
        let mut e = enemies[j];
        e.update(hit_wall, screen_w, dt_ms);
        enemies[j] = e;
        j = j + 1;
    }
    proof {
        assert(enemies@ =~= formation_step(es0, screen_w as int, dt_ms as int));
    }
}

/// Strict point-in-box hit test: all four inequalities are strict, so
/// a projectile exactly on an enemy's edge does not count as a hit.
pub open spec fn hits(b: Bullet, e: Enemy) -> bool {
    &&& b.x < e.x + e.width
    &&& b.x > e.x
    &&& b.y < e.y + e.height
    &&& b.y > e.y
}

/// Whether the projectile's point lies strictly inside the enemy's box.
pub fn is_collision(bullet: &Bullet, enemy: &Enemy) -> (r: bool)
    requires
        bullet.wf(),
        enemy.wf(),
    ensures
        r == hits(*bullet, *enemy),
{
    bullet.x < enemy.x + enemy.width && bullet.x > enemy.x && bullet.y < enemy.y + enemy.height
        && bullet.y > enemy.y
}

/// Whether a projectile hits at least one enemy of the formation.
pub open spec fn hits_some_enemy(b: Bullet, es: Seq<Enemy>) -> bool {
    exists|j: int| 0 <= j < es.len() && hits(b, es[j])
}

/// Whether an enemy is hit by at least one projectile.
pub open spec fn hit_by_some_bullet(e: Enemy, bs: Seq<Bullet>) -> bool {
    exists|i: int| 0 <= i < bs.len() && hits(bs[i], e)
}

/// The projectiles left after the resolution pass: those not already
/// marked and hitting no enemy.
pub open spec fn surviving_bullets(bs: Seq<Bullet>, es: Seq<Enemy>) -> Seq<Bullet> {
    filtered(bs, |b: Bullet| !b.collided && !hits_some_enemy(b, es))
}

/// The enemies left after the resolution pass: those not already marked
/// and hit by no projectile.
pub open spec fn surviving_enemies(es: Seq<Enemy>, bs: Seq<Bullet>) -> Seq<Enemy> {
    filtered(es, |e: Enemy| !e.collided && !hit_by_some_bullet(e, bs))
}

/// How many enemies one projectile hits. Several enemies overlapping
/// one projectile's point are all awarded in the same frame.
pub open spec fn row_hits(b: Bullet, es: Seq<Enemy>) -> int
    decreases es.len(),
{
    if es.len() == 0 {
        0
    } else {
        row_hits(b, es.drop_last()) + if hits(b, es.last()) {
            1int
        } else {
            0int
        }
    }
}

/// How many (projectile, enemy) pairs hit this frame; each pair awards
/// the fixed bonus once.
pub open spec fn total_hits(bs: Seq<Bullet>, es: Seq<Enemy>) -> int
    decreases bs.len(),
{
    if bs.len() == 0 {
        0
    } else {
        total_hits(bs.drop_last(), es) + row_hits(bs.last(), es)
    }
}

pub proof fn lemma_row_hits_bounds(b: Bullet, es: Seq<Enemy>)
    ensures
        0 <= row_hits(b, es) <= es.len(),
        row_hits(b, es) > 0 <==> hits_some_enemy(b, es),
    decreases es.len(),
{
    if es.len() > 0 {
        let d = es.drop_last();
        lemma_row_hits_bounds(b, d);
        assert(es.last() == es[es.len() - 1]);
        if hits_some_enemy(b, d) {
            let j = choose|j: int| 0 <= j < d.len() && hits(b, d[j]);
            assert(hits(b, es[j]));
        }
        if hits_some_enemy(b, es) && !hits(b, es.last()) {
            let j = choose|j: int| 0 <= j < es.len() && hits(b, es[j]);
            assert(hits(b, d[j]));
        }
    }
}

pub proof fn lemma_total_hits_nonneg(bs: Seq<Bullet>, es: Seq<Enemy>)
    ensures
        total_hits(bs, es) >= 0,
    decreases bs.len(),
{
    if bs.len() > 0 {
        lemma_total_hits_nonneg(bs.drop_last(), es);
        lemma_row_hits_bounds(bs.last(), es);
    }
}

proof fn lemma_row_hits_take_step(b: Bullet, es: Seq<Enemy>, j: int)
    requires
        0 <= j < es.len(),
    ensures
        row_hits(b, es.take(j + 1)) == row_hits(b, es.take(j)) + if hits(b, es[j]) {
            1int
        } else {
            0int
        },
{
    assert(es.take(j + 1).drop_last() =~= es.take(j));
    assert(es.take(j + 1).last() == es[j]);
}

proof fn lemma_total_hits_take_step(bs: Seq<Bullet>, es: Seq<Enemy>, i: int)
    requires
        0 <= i < bs.len(),
    ensures
        total_hits(bs.take(i + 1), es) == total_hits(bs.take(i), es) + row_hits(bs[i], es),
{
    assert(bs.take(i + 1).drop_last() =~= bs.take(i));
    assert(bs.take(i + 1).last() == bs[i]);
}

proof fn lemma_hits_some_take_step(b: Bullet, es: Seq<Enemy>, j: int)
    requires
        0 <= j < es.len(),
    ensures
        hits_some_enemy(b, es.take(j + 1)) == (hits_some_enemy(b, es.take(j)) || hits(
            b,
            es[j],
        )),
{
    let t1 = es.take(j + 1);
    let t0 = es.take(j);
    if hits_some_enemy(b, t1) {
        let k = choose|k: int| 0 <= k < t1.len() && hits(b, t1[k]);
        if k < j {
            assert(hits(b, t0[k]));
        } else {
            assert(hits(b, es[j]));
        }
    }
    if hits_some_enemy(b, t0) {
        let k = choose|k: int| 0 <= k < t0.len() && hits(b, t0[k]);
        assert(hits(b, t1[k]));
    }
    if hits(b, es[j]) {
        assert(hits(b, t1[j]));
    }
}

proof fn lemma_hit_by_take_step(e: Enemy, bs: Seq<Bullet>, i: int)
    requires
        0 <= i < bs.len(),
    ensures
        hit_by_some_bullet(e, bs.take(i + 1)) == (hit_by_some_bullet(e, bs.take(i)) || hits(
            bs[i],
            e,
        )),
{
    let t1 = bs.take(i + 1);
    let t0 = bs.take(i);
    if hit_by_some_bullet(e, t1) {
        let k = choose|k: int| 0 <= k < t1.len() && hits(t1[k], e);
        if k < i {
            assert(hits(t0[k], e));
        } else {
            assert(hits(bs[i], e));
        }
    }
    if hit_by_some_bullet(e, t0) {
        let k = choose|k: int| 0 <= k < t0.len() && hits(t0[k], e);
        assert(hits(t1[k], e));
    }
    if hits(bs[i], e) {
        assert(hits(t1[i], e));
    }
}

/// A projectile value with its removal mark possibly raised.
pub open spec fn bullet_marked(b: Bullet, f: bool) -> Bullet {
    Bullet { collided: b.collided || f, ..b }
}

/// An enemy value with its removal mark possibly raised.
pub open spec fn enemy_marked(e: Enemy, f: bool) -> Enemy {
    Enemy { collided: e.collided || f, ..e }
}

/// Resolves all (projectile, enemy) pairs of one frame: every strict
/// hit marks both entities and awards the fixed bonus of ten points;
/// all marked entities are removed afterwards in one pass, so one
/// projectile can be awarded against several overlapping enemies.
pub fn check_collision(bullets: &mut Vec<Bullet>, enemies: &mut Vec<Enemy>, score: &mut i32)
    requires
        forall|i: int| 0 <= i < old(bullets).len() ==> (#[trigger] old(bullets)@[i]).wf(),
        forall|j: int| 0 <= j < old(enemies).len() ==> (#[trigger] old(enemies)@[j]).wf(),
    ensures
        final(bullets)@ == surviving_bullets(old(bullets)@, old(enemies)@),
        final(enemies)@ == surviving_enemies(old(enemies)@, old(bullets)@),
        *final(score) == clamp_score(*old(score) + 10 * total_hits(old(bullets)@, old(enemies)@)),
        forall|i: int| 0 <= i < final(bullets).len() ==> (#[trigger] final(bullets)@[i]).wf(),
        forall|j: int| 0 <= j < final(enemies).len() ==> (#[trigger] final(enemies)@[j]).wf(),
{
    let ghost bs0 = bullets@;
    let ghost es0 = enemies@;
    let ghost sc0 = *score as int;
    let nb = bullets.len();
    let ne = enemies.len();
    let mut i: usize = 0;
    while i < nb
        invariant
            0 <= i <= nb,
            bullets@.len() == nb == bs0.len(),
            enemies@.len() == ne == es0.len(),
            forall|k: int| 0 <= k < nb ==> (#[trigger] bs0[k]).wf(),
            forall|m: int| 0 <= m < ne ==> (#[trigger] es0[m]).wf(),
            forall|k: int|
                0 <= k < nb ==> bullets@[k] == bullet_marked(
                    #[trigger] bs0[k],
                    k < i && hits_some_enemy(bs0[k], es0),
                ),
            forall|m: int|
                0 <= m < ne ==> enemies@[m] == enemy_marked(
                    #[trigger] es0[m],
                    hit_by_some_bullet(es0[m], bs0.take(i as int)),
                ),
            i32::MIN <= sc0 <= i32::MAX,
            *score == clamp_score(sc0 + 10 * total_hits(bs0.take(i as int), es0)),
        decreases nb - i,
    {
        let ghost row_b = bs0[i as int];
        let mut j: usize = 0;
        while j < ne
            invariant
                0 <= i < nb,
                0 <= j <= ne,
                bullets@.len() == nb == bs0.len(),
                enemies@.len() == ne == es0.len(),
                row_b == bs0[i as int],
                forall|k: int| 0 <= k < nb ==> (#[trigger] bs0[k]).wf(),
                forall|m: int| 0 <= m < ne ==> (#[trigger] es0[m]).wf(),
                forall|k: int|
                    0 <= k < nb && k != i ==> bullets@[k] == bullet_marked(
                        #[trigger] bs0[k],
                        k < i && hits_some_enemy(bs0[k], es0),
                    ),
                bullets@[i as int] == bullet_marked(
                    row_b,
                    hits_some_enemy(row_b, es0.take(j as int)),
                ),
                forall|m: int|
                    0 <= m < ne ==> enemies@[m] == enemy_marked(
                        #[trigger] es0[m],
                        hit_by_some_bullet(es0[m], bs0.take(i as int)) || (m < j && hits(
                            row_b,
                            es0[m],
                        )),
                    ),
                i32::MIN <= sc0 <= i32::MAX,
                *score == clamp_score(
                    sc0 + 10 * (total_hits(bs0.take(i as int), es0) + row_hits(
                        row_b,
                        es0.take(j as int),
                    )),
                ),
            decreases ne - j,
        {
            let b = bullets[i];
            let e = enemies[j];
            proof {
                assert(b.x == row_b.x && b.y == row_b.y);
                assert(e.x == es0[j as int].x && e.y == es0[j as int].y);
                assert(b.wf() && e.wf());
            }
            if is_collision(&b, &e) {
                bullets[i].collided = true;
                enemies[j].collided = true;
                proof {
                    lemma_row_hits_bounds(row_b, es0.take(j as int));
                    lemma_total_hits_nonneg(bs0.take(i as int), es0);
                    lemma_clamp_score_chain(
                        sc0 + 10 * (total_hits(bs0.take(i as int), es0) + row_hits(
                            row_b,
                            es0.take(j as int),
                        )),
                        10,
                    );
                }
                *score = score_add(*score, 10);
            }
            proof {
                lemma_row_hits_take_step(row_b, es0, j as int);
                lemma_hits_some_take_step(row_b, es0, j as int);
                assert(hits(row_b, es0[j as int]) == hits(b, e));
            }
            j = j + 1;
        }
        proof {
            assert(es0.take(ne as int) =~= es0);
            lemma_total_hits_take_step(bs0, es0, i as int);
            assert forall|m: int| 0 <= m < ne implies enemies@[m] == enemy_marked(
                #[trigger] es0[m],
                hit_by_some_bullet(es0[m], bs0.take(i as int + 1)),
            ) by {
                lemma_hit_by_take_step(es0[m], bs0, i as int);
            }
        }
        i = i + 1;
    }
    proof {
        assert(bs0.take(nb as int) =~= bs0);
    }
    let mut kept_bullets: Vec<Bullet> = Vec::new();
    let mut k: usize = 0;
    while k < nb
        invariant
            0 <= k <= nb,
            bullets@.len() == nb == bs0.len(),
            es0.len() == ne,
            forall|m: int| 0 <= m < nb ==> (#[trigger] bs0[m]).wf(),
            forall|m: int|
                0 <= m < nb ==> bullets@[m] == bullet_marked(
                    #[trigger] bs0[m],
                    hits_some_enemy(bs0[m], es0),
                ),
            kept_bullets@ == surviving_bullets(bs0.take(k as int), es0),
        decreases nb - k,
    {
        let b = bullets[k];
        proof {
            assert(bs0.take(k as int + 1) =~= bs0.take(k as int).push(bs0[k as int]));
            lemma_filtered_push(
                bs0.take(k as int),
                |x: Bullet| !x.collided && !hits_some_enemy(x, es0),
                bs0[k as int],
            );
        }
        if !b.collided {
            proof {
                assert(b == bs0[k as int]);
            }
            kept_bullets.push(b);
        }
        k = k + 1;
    }
    proof {
        assert(bs0.take(nb as int) =~= bs0);
    }
    let mut kept_enemies: Vec<Enemy> = Vec::new();
    let mut m: usize = 0;
    while m < ne
        invariant
            0 <= m <= ne,
            enemies@.len() == ne == es0.len(),
            bs0.len() == nb,
            forall|q: int| 0 <= q < ne ==> (#[trigger] es0[q]).wf(),
            forall|q: int|
                0 <= q < ne ==> enemies@[q] == enemy_marked(
                    #[trigger] es0[q],
                    hit_by_some_bullet(es0[q], bs0),
                ),
            kept_enemies@ == surviving_enemies(es0.take(m as int), bs0),
        decreases ne - m,
    {
        let e = enemies[m];
        proof {
            assert(es0.take(m as int + 1) =~= es0.take(m as int).push(es0[m as int]));
            lemma_filtered_push(
                es0.take(m as int),
                |x: Enemy| !x.collided && !hit_by_some_bullet(x, bs0),
                es0[m as int],
            );
        }
        if !e.collided {
            proof {
                assert(e == es0[m as int]);
            }
            kept_enemies.push(e);
        }
        m = m + 1;
    }
    proof {
        assert(es0.take(ne as int) =~= es0);
    }
    *bullets = kept_bullets;
    *enemies = kept_enemies;
    proof {
        lemma_filtered_all(
            bs0,
            |x: Bullet| !x.collided && !hits_some_enemy(x, es0),
            |x: Bullet| x.wf(),
        );
        lemma_filtered_all(
            es0,
            |x: Enemy| !x.collided && !hit_by_some_bullet(x, bs0),
            |x: Enemy| x.wf(),
        );
    }
}

/// After a wall-trigger frame every enemy of the formation flips its
/// travel direction exactly once and descends by exactly one sprite
/// height.
pub proof fn lemma_wall_trigger_flips_and_descends(es: Seq<Enemy>, screen_w: int, dt_ms: int)
    requires
        es.len() > 0,
        wall_hit(es, screen_w),
        forall|i: int| 0 <= i < es.len() ==> (#[trigger] es[i]).wf(),
        forall|i: int| 0 <= i < es.len() ==> (#[trigger] es[i]).y + es[i].height <= COORD_LIMIT,
    ensures
        forall|i: int|
            0 <= i < es.len() ==> (#[trigger] formation_step(es, screen_w, dt_ms)[i]).current_direction
                == crate::enemy::flipped(es[i].current_direction),
        forall|i: int|
            0 <= i < es.len() ==> (#[trigger] formation_step(es, screen_w, dt_ms)[i]).y == es[i].y
                + es[i].height,
{
    let stepped = formation_step(es, screen_w, dt_ms);
    assert forall|i: int|
        0 <= i < es.len() implies (#[trigger] stepped[i]).current_direction == crate::enemy::flipped(
        es[i].current_direction,
    ) && stepped[i].y == es[i].y + es[i].height by {
        assert(stepped[i] == enemy_step(es[i], true, screen_w, dt_ms));
    }
}

/// A projectile strictly inside a lone enemy's box: both entities are
/// removed by the resolution pass and the fixed ten-point bonus is
/// awarded.
pub proof fn lemma_single_hit(b: Bullet, e: Enemy, score: int)
    requires
        hits(b, e),
        !b.collided,
        !e.collided,
        i32::MIN <= score,
        score + 10 <= i32::MAX,
    ensures
        surviving_bullets(seq![b], seq![e]) == Seq::<Bullet>::empty(),
        surviving_enemies(seq![e], seq![b]) == Seq::<Enemy>::empty(),
        clamp_score(score + 10 * total_hits(seq![b], seq![e])) == score + 10,
{
    assert(hits_some_enemy(b, seq![e])) by {
        assert(seq![e][0] == e);
    }
    assert(hit_by_some_bullet(e, seq![b])) by {
        assert(seq![b][0] == b);
    }
    assert(seq![b].drop_last() =~= Seq::<Bullet>::empty());
    assert(seq![e].drop_last() =~= Seq::<Enemy>::empty());
    reveal_with_fuel(filtered, 2);
    reveal_with_fuel(row_hits, 2);
    reveal_with_fuel(total_hits, 2);
    assert(row_hits(b, seq![e]) == 1);
    assert(total_hits(seq![b], seq![e]) == 1);
}

/// A projectile exactly on an enemy's boundary edge does not hit.
pub proof fn lemma_boundary_no_hit(b: Bullet, e: Enemy)
    requires
        b.x == e.x || b.x == e.x + e.width || b.y == e.y || b.y == e.y + e.height,
    ensures
        !hits(b, e),
{
}

/// With no pair hitting and nothing pre-marked, the resolution pass
/// removes nothing and awards nothing.
pub proof fn lemma_no_hits_no_change(bs: Seq<Bullet>, es: Seq<Enemy>)
    requires
        forall|i: int, j: int|
            0 <= i < bs.len() && 0 <= j < es.len() ==> !hits(#[trigger] bs[i], #[trigger] es[j]),
        forall|i: int| 0 <= i < bs.len() ==> !(#[trigger] bs[i]).collided,
        forall|j: int| 0 <= j < es.len() ==> !(#[trigger] es[j]).collided,
    ensures
        surviving_bullets(bs, es) == bs,
        surviving_enemies(es, bs) == es,
        total_hits(bs, es) == 0,
    decreases bs.len(),
{
    crate::lemma_filtered_keep_all(bs, |x: Bullet| !x.collided && !hits_some_enemy(x, es));
    crate::lemma_filtered_keep_all(es, |x: Enemy| !x.collided && !hit_by_some_bullet(x, bs));
    if bs.len() > 0 {
        let d = bs.drop_last();
        assert(forall|i: int, j: int|
            0 <= i < d.len() && 0 <= j < es.len() ==> !hits(#[trigger] d[i], #[trigger] es[j]));
        assert(forall|i: int| 0 <= i < d.len() ==> !(#[trigger] d[i]).collided);
        lemma_no_hits_no_change(d, es);
        lemma_row_hits_bounds(bs.last(), es);
        assert(bs.last() == bs[bs.len() - 1]);
        assert(!hits_some_enemy(bs.last(), es));
    }
}

/// One spawned enemy of the grid, by row and column.
pub open spec fn spawned_enemy(
    level: i8,
    enemy_w: int,
    enemy_h: int,
    row: int,
    col: int,
) -> Enemy {
    Enemy {
        x: (col * (enemy_w + PADDING) + PADDING + 1) as i64,
        y: (row * (enemy_h + PADDING) + PADDING) as i64,
        width: enemy_w as i64,
        height: enemy_h as i64,
        level,
        collided: false,
        current_direction: Direction::Left,
    }
}

/// The freshly spawned grid: `rows` rows of ten columns, in row-major
/// order, with column spacing of one scaled sprite plus the fixed gap.
pub open spec fn formation_spawn(
    level: i8,
    tex_w: int,
    tex_h: int,
    screen_w: int,
    rows: int,
) -> Seq<Enemy> {
    let enemy_w = screen_w / 20;
    let enemy_h = tex_h * enemy_w / tex_w;
    Seq::new((rows * 10) as nat, |k: int| spawned_enemy(level, enemy_w, enemy_h, k / 10, k % 10))
}

/// Appends a full grid of enemies scaled from the level's sprite: the
/// sprite is scaled to a twentieth of the screen width, keeping its
/// aspect ratio.
pub fn spawn_enemies(
    enemies: &mut Vec<Enemy>,
    level: i8,
    tex_w: i64,
    tex_h: i64,
    screen_w: i64,
    rows: i8,
)
    requires
        0 <= level,
        1 <= tex_w <= SCREEN_LIMIT,
        1 <= tex_h <= SCREEN_LIMIT,
        1 <= screen_w <= SCREEN_LIMIT,
        0 <= rows <= 10,
        forall|i: int| 0 <= i < old(enemies).len() ==> (#[trigger] old(enemies)@[i]).wf(),
    ensures
        final(enemies)@ == old(enemies)@ + formation_spawn(
            level,
            tex_w as int,
            tex_h as int,
            screen_w as int,
            rows as int,
        ),
        forall|i: int| 0 <= i < final(enemies).len() ==> (#[trigger] final(enemies)@[i]).wf(),
{
    let ghost es0 = enemies@;
    let enemy_w: i64 = screen_w / 20;
    proof {
        assert(0 <= tex_h * enemy_w <= SCREEN_LIMIT * (SCREEN_LIMIT / 20)) by (nonlinear_arith)
            requires
                0 <= tex_h <= SCREEN_LIMIT,
                0 <= enemy_w <= SCREEN_LIMIT / 20,
        ;
    }
    let enemy_h: i64 = tex_h * enemy_w / tex_w;
    proof {
        assert(0 <= (tex_h * enemy_w) as int / tex_w as int <= SCREEN_LIMIT * (SCREEN_LIMIT / 20))
            by (nonlinear_arith)
            requires
                0 <= tex_h * enemy_w <= SCREEN_LIMIT * (SCREEN_LIMIT / 20),
                1 <= tex_w,
        ;
    }
    let spacing_x: i64 = enemy_w + PADDING;
    let spacing_y: i64 = enemy_h + PADDING;
    let ghost grid = formation_spawn(level, tex_w as int, tex_h as int, screen_w as int, rows as int);
    let mut row: i8 = 0;
    while row < rows
        invariant
            0 <= row <= rows <= 10,
            0 <= level,
            enemy_w == screen_w as int / 20,
            enemy_h == tex_h as int * (screen_w as int / 20) / tex_w as int,
            0 <= enemy_w <= DIM_LIMIT,
            0 <= enemy_h <= DIM_LIMIT,
            spacing_x == enemy_w + PADDING,
            spacing_y == enemy_h + PADDING,
            grid == formation_spawn(level, tex_w as int, tex_h as int, screen_w as int, rows as int),
            enemies@ == es0 + grid.take(row as int * 10),
            forall|i: int| 0 <= i < es0.len() ==> (#[trigger] es0[i]).wf(),
            forall|i: int| 0 <= i < enemies@.len() ==> (#[trigger] enemies@[i]).wf(),
        decreases rows - row,
    {
        let mut col: i8 = 0;
        while col < 10
            invariant
                0 <= col <= 10,
                0 <= row < rows <= 10,
                0 <= level,
                enemy_w == screen_w as int / 20,
                enemy_h == tex_h as int * (screen_w as int / 20) / tex_w as int,
                0 <= enemy_w <= DIM_LIMIT,
                0 <= enemy_h <= DIM_LIMIT,
                spacing_x == enemy_w + PADDING,
                spacing_y == enemy_h + PADDING,
                grid == formation_spawn(
                    level,
                    tex_w as int,
                    tex_h as int,
                    screen_w as int,
                    rows as int,
                ),
                enemies@ == es0 + grid.take(row as int * 10 + col as int),
                forall|i: int| 0 <= i < es0.len() ==> (#[trigger] es0[i]).wf(),
                forall|i: int| 0 <= i < enemies@.len() ==> (#[trigger] enemies@[i]).wf(),
            decreases 10 - col,
        {
            proof {
                assert(0 <= col as int * (spacing_x as int) <= 9 * (DIM_LIMIT + PADDING))
                    by (nonlinear_arith)
                    requires
                        0 <= col < 10,
                        0 <= spacing_x <= DIM_LIMIT + PADDING,
                ;
                assert(0 <= row as int * (spacing_y as int) <= 9 * (DIM_LIMIT + PADDING))
                    by (nonlinear_arith)
                    requires
                        0 <= row < 10,
                        0 <= spacing_y <= DIM_LIMIT + PADDING,
                ;
            }
            let x: i64 = col as i64 * spacing_x + PADDING + 1;
            let y: i64 = row as i64 * spacing_y + PADDING;
            let e = Enemy::new(enemy_w, enemy_h, level, x, y);
            proof {
                let k = row as int * 10 + col as int;
                assert(k / 10 == row as int && k % 10 == col as int) by (nonlinear_arith)
                    requires
                        0 <= col < 10,
                        0 <= row,
                        k == row as int * 10 + col as int,
                ;
                assert(e == grid[k]);
                assert(grid.take(k + 1) =~= grid.take(k).push(grid[k]));
            }
            enemies.push(e);
            col = col + 1;
        }
        row = row + 1;
    }
    proof {
        assert(grid.take(rows as int * 10) =~= grid);
    }
}

} // verus!
