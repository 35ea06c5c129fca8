//! Verified core of an arcade shooter: entity models over integer
//! coordinates, the formation movement engine, projectile lifecycle,
//! axis-aligned collision resolution, the round/level lifecycle, the
//! game-flow state machine, and the top-10 leaderboard.
//!
//! Rendering, input polling, timing, and leaderboard persistence are
//! external collaborators; they convert to and from the plain values
//! these types hold.

use vstd::prelude::*;

pub mod bullet;
pub mod enemy;
pub mod engine;
pub mod high_scores;
pub mod name_input;
pub mod player;
pub mod session;
pub mod text;

verus! {

/// Fixed pixel gap used between formation columns and rows and as the
/// wall margin at the screen edges.
pub const PADDING: i64 = 10;

/// Bound on screen and raw texture dimensions handed in by the
/// presentation layer.
pub const SCREEN_LIMIT: i64 = 1_000_000;

/// Bound on a scaled sprite width or height.
pub const DIM_LIMIT: i64 = 100_000_000_000;

/// Bound on a per-second movement speed; speeds grow exponentially with
/// the level and are capped here so displacement arithmetic stays exact.
pub const SPEED_LIMIT: i64 = 1_000_000_000_000;

/// Bound on a frame delta, in milliseconds.
pub const DT_LIMIT: i64 = 3_600_000;

/// Bound on a clock reading, in milliseconds.
pub const TIME_LIMIT: i64 = 1_000_000_000_000_000;

/// Bound on every coordinate a moving entity can reach; positions are
/// clamped here so that frame arithmetic never overflows.
pub const COORD_LIMIT: i64 = 1_000_000_000_000;

/// Clamp of an arbitrary sum into the coordinate range.
pub open spec fn clamp_coord(v: int) -> int {
    if v < -COORD_LIMIT {
        -COORD_LIMIT as int
    } else if v > COORD_LIMIT {
        COORD_LIMIT as int
    } else {
        v
    }
}

/// Adds a displacement to a coordinate, clamping into the coordinate range.
pub fn coord_add(a: i64, d: i64) -> (r: i64)
    requires
        -COORD_LIMIT <= a <= COORD_LIMIT,
        -4_000_000_000_000_000 <= d <= 4_000_000_000_000_000,
    ensures
        r == clamp_coord(a + d),
        -COORD_LIMIT <= r <= COORD_LIMIT,
{
    let s: i64 = a + d;
    if s < -COORD_LIMIT {
        -COORD_LIMIT
    } else if s > COORD_LIMIT {
        COORD_LIMIT
    } else {
        s
    }
}

/// Clamp of an arbitrary sum into the range of the score counter.
pub open spec fn clamp_score(v: int) -> int {
    if v < i32::MIN {
        i32::MIN as int
    } else if v > i32::MAX {
        i32::MAX as int
    } else {
        v
    }
}

/// Adds a delta to the score, clamping into the score range.
pub fn score_add(a: i32, d: i64) -> (r: i32)
    requires
        -1_000_000_000_000_000 <= d <= 1_000_000_000_000_000,
    ensures
        r == clamp_score(a + d),
{
    let s: i64 = a as i64 + d;
    if s < i32::MIN as i64 {
        i32::MIN
    } else if s > i32::MAX as i64 {
        i32::MAX
    } else {
        s as i32
    }
}

/// Clamping a sum that is already at or above the floor commutes with
/// adding a further non-negative delta.
pub proof fn lemma_clamp_score_chain(v: int, d: int)
    requires
        v >= i32::MIN,
        d >= 0,
    ensures
        clamp_score(clamp_score(v) + d) == clamp_score(v + d),
{
}

/// The elements of `s` that satisfy `p`, in order.
pub open spec fn filtered<A>(s: Seq<A>, p: spec_fn(A) -> bool) -> Seq<A>
    decreases s.len(),
{
    if s.len() == 0 {
        Seq::empty()
    } else if p(s.last()) {
        filtered(s.drop_last(), p).push(s.last())
    } else {
        filtered(s.drop_last(), p)
    }
}

pub proof fn lemma_filtered_push<A>(s: Seq<A>, p: spec_fn(A) -> bool, x: A)
    ensures
        p(x) ==> filtered(s.push(x), p) == filtered(s, p).push(x),
        !p(x) ==> filtered(s.push(x), p) == filtered(s, p),
{
    assert(s.push(x).drop_last() =~= s);
    assert(s.push(x).last() == x);
}

/// A filter that keeps every element changes nothing.
pub proof fn lemma_filtered_keep_all<A>(s: Seq<A>, p: spec_fn(A) -> bool)
    requires
        forall|k: int| 0 <= k < s.len() ==> p(#[trigger] s[k]),
    ensures
        filtered(s, p) == s,
    decreases s.len(),
{
    if s.len() > 0 {
        assert(forall|k: int| 0 <= k < s.drop_last().len() ==> p(#[trigger] s.drop_last()[k]));
        lemma_filtered_keep_all(s.drop_last(), p);
        assert(p(s.last())) by {
            assert(s.last() == s[s.len() - 1]);
        }
        assert(filtered(s, p) =~= s);
    }
}

/// A property of every element survives filtering.
pub proof fn lemma_filtered_all<A>(s: Seq<A>, p: spec_fn(A) -> bool, q: spec_fn(A) -> bool)
    requires
        forall|k: int| 0 <= k < s.len() ==> q(#[trigger] s[k]),
    ensures
        forall|k: int| 0 <= k < filtered(s, p).len() ==> q(#[trigger] filtered(s, p)[k]),
    decreases s.len(),
{
    if s.len() > 0 {
        assert(forall|k: int| 0 <= k < s.drop_last().len() ==> q(#[trigger] s.drop_last()[k]));
        lemma_filtered_all(s.drop_last(), p, q);
        let f = filtered(s, p);
        let fd = filtered(s.drop_last(), p);
        assert(q(s.last())) by {
            assert(s.last() == s[s.len() - 1]);
        }
        assert forall|k: int| 0 <= k < f.len() implies q(#[trigger] f[k]) by {
            if p(s.last()) {
                assert(f == fd.push(s.last()));
                if k < fd.len() {
                    assert(f[k] == fd[k]);
                } else {
                    assert(f[k] == s.last());
                }
            } else {
                assert(f == fd);
            }
        }
    }
}

} // verus!
