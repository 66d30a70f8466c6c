//! The laws of the game: what holds of every well-formed game and every
//! tick, proved over the model.
use vstd::prelude::*;
use crate::entities::{
    rgba, spec_enemy_color, Enemy, ENEMY_ROWS, Star,
    FORMATION_MARGIN,
    Rgba, SHIP_H, SHIP_W, SHIP_Y,
    Explosion,
    ENEMY_COUNT, ENEMY_H, ENEMY_POINTS, ENEMY_W, EXPLO_LIFE, FIELD_H, FIELD_W, FIRE_COOLDOWN,
    MAX_E_BULLETS, MAX_P_BULLETS, SHIP_MAX_X, SHIP_MIN_X, SHIP_TOP, STAR_UNITS_PER_UNIT,
    START_LIVES, UNITS_PER_PIXEL,
};
use crate::lemmas::{
    lemma_first_inactive, lemma_nth_alive, lemma_scale_below,
    lemma_check_collisions_wf, lemma_count_bound, lemma_count_same, lemma_formation,
    lemma_maybe_enemy_fire_wf, lemma_new_game_wf, lemma_reset_wf, lemma_resolve,
    lemma_step_bullets_wf, lemma_step_enemies_wf, lemma_step_explosions_wf, lemma_step_ship_wf,
    lemma_step_stars_wf,
};
use crate::model::{
    first_inactive_from, nth_alive_from,
    any_alive, hits_left_edge, hits_right_edge, reached_ship,
    ship_hit,
    aged_from, older, ship_explosion,
    count_alive, enemy_in_frame, enemy_placed, formation, formation_speed, in_range, new_game,
    new_star, p_bullet_ok, resolve_from, star_ok, GameModel,
};
use crate::scene::{
    e_bullets_picture_from, enemies_picture_from, enemy_picture, explosions_picture_from, p_bullets_picture_from, pic, scene, ship_picture, star_shape, Shape,
    core_alpha, core_radius, debris_distance, debris_radius, explo_step, ring_alpha, ring_radius,
    PICTURE_UNITS_PER_PIXEL,
};
use crate::rng::{scale_unit, xorshift32};
use crate::text::status_text;
use vstd::arithmetic::div_mod::{
    lemma_div_denominator, lemma_div_is_ordered, lemma_div_multiples_vanish, lemma_div_pos_is_pos,
};

verus! {

/// Law: every tick keeps a well-formed game well formed.
pub proof fn tick_keeps_wf(m: GameModel)
    requires
        m.wf(),
    ensures
        m.tick().wf(),
{
    lemma_step_stars_wf(m);
    let m1 = m.step_stars();
    lemma_step_explosions_wf(m1);
    let m2 = m1.step_explosions();
    if !m2.over {
        lemma_step_ship_wf(m2);
        let m3 = m2.step_ship();
        lemma_step_enemies_wf(m3);
        let m4 = m3.step_enemies();
        lemma_step_bullets_wf(m4);
        let m5 = m4.step_bullets();
        lemma_check_collisions_wf(m5);
        let m6 = m5.check_collisions();
        lemma_maybe_enemy_fire_wf(m6);
    }
}

/// Law: starting over, from any well-formed game, gives a well-formed game
/// with the full formation, no score, three lives, the ship centred, and no
/// bullet or explosion in flight; the stars and the generator go on.
pub proof fn reset_starts_over(m: GameModel)
    requires
        m.wf(),
    ensures
        m.reset().wf(),
        m.reset().enemies == formation(),
        count_alive(m.reset().enemies) == ENEMY_COUNT,
        m.reset().score == 0,
        m.reset().lives == START_LIVES,
        !m.reset().over && !m.reset().won,
        m.reset().ship_x == FIELD_W / 2,
        forall|i: int| 0 <= i < m.reset().p_bullets.len() ==> !(#[trigger] m.reset().p_bullets[i]).active,
        forall|i: int| 0 <= i < m.reset().e_bullets.len() ==> !(#[trigger] m.reset().e_bullets[i]).active,
        m.reset().explosions.len() == 0,
        m.reset().stars == m.stars,
        m.reset().rng == m.rng,
{
    lemma_reset_wf(m);
    lemma_formation();
}

/// Law: a new game is well formed, and is a game started over.
pub proof fn new_game_is_fresh()
    ensures
        new_game().wf(),
        count_alive(new_game().enemies) == ENEMY_COUNT,
        new_game().score == 0,
        new_game().lives == START_LIVES,
        !new_game().over,
        new_game().status == status_text(0, START_LIVES, false, false),
{
    lemma_formation();
    lemma_new_game_wf();
}

/// Law: the score is 100 points for each destroyed enemy, so it never
/// exceeds 100 points for each enemy of the formation.
pub proof fn score_counts_destroyed_enemies(m: GameModel)
    requires
        m.wf(),
    ensures
        m.score == ENEMY_POINTS * (ENEMY_COUNT - count_alive(m.enemies)),
        0 <= m.score <= ENEMY_POINTS * ENEMY_COUNT,
{
    lemma_count_bound(m.enemies, 0);
}

/// Law: the game ends as its rules say: a won game is over with every enemy
/// destroyed, a game with no life left is over, and the status line always
/// tells the score, the lives and the end.
pub proof fn game_end_rules(m: GameModel)
    requires
        m.wf(),
    ensures
        m.won ==> m.over && count_alive(m.enemies) == 0,
        m.lives == 0 ==> m.over,
        0 <= m.lives <= START_LIVES,
        m.status == status_text(m.score, m.lives, m.won, m.over),
{
}

/// Law: the ship, every living enemy and every star stay on the field, and
/// while the game runs every living enemy stays above the ship.
pub proof fn everything_stays_on_field(m: GameModel)
    requires
        m.wf(),
    ensures
        SHIP_MIN_X <= m.ship_x <= SHIP_MAX_X,
        !m.over ==> forall|i: int|
            0 <= i < m.enemies.len() && (#[trigger] m.enemies[i]).alive ==> m.enemies[i].y + m.form_step
                + ENEMY_H < SHIP_TOP,
        forall|i: int|
            0 <= i < m.enemies.len() && (#[trigger] m.enemies[i]).alive ==> 0 <= m.enemies[i].x + m.form_x
                && m.enemies[i].x + m.form_x + ENEMY_W <= FIELD_W,
        forall|i: int|
            0 <= i < m.stars.len() ==> 0 <= (#[trigger] m.stars[i]).x <= FIELD_W * STAR_UNITS_PER_UNIT
                && 0 <= m.stars[i].y <= FIELD_H * STAR_UNITS_PER_UNIT,
{
    assert forall|i: int|
        0 <= i < m.enemies.len() && (#[trigger] m.enemies[i]).alive implies 0 <= m.enemies[i].x + m.form_x
        && m.enemies[i].x + m.form_x + ENEMY_W <= FIELD_W by {
        assert(enemy_placed(m.enemies[i], m.form_x as int, m.form_step as int, m.form_dir as int, m.over));
    }
    assert forall|i: int|
        0 <= i < m.enemies.len() && (#[trigger] m.enemies[i]).alive && !m.over implies m.enemies[i].y
        + m.form_step + ENEMY_H < SHIP_TOP by {
        assert(enemy_placed(m.enemies[i], m.form_x as int, m.form_step as int, m.form_dir as int, m.over));
    }
    assert forall|i: int| 0 <= i < m.stars.len() implies 0 <= (#[trigger] m.stars[i]).x <= FIELD_W
        * STAR_UNITS_PER_UNIT && 0 <= m.stars[i].y <= FIELD_H * STAR_UNITS_PER_UNIT by {
        assert(star_ok(m.stars[i]));
    }
}

/// Law: a tick never brings an enemy back, never moves an enemy within the
/// formation, never lowers the score, never gives a life back, and never
/// resumes a game that is over or undoes a win.
pub proof fn tick_is_monotone(m: GameModel)
    requires
        m.wf(),
    ensures
        m.tick().enemies.len() == m.enemies.len(),
        forall|i: int|
            0 <= i < m.enemies.len() ==> {
                &&& (#[trigger] m.tick().enemies[i]).x == m.enemies[i].x
                &&& m.tick().enemies[i].y == m.enemies[i].y
                &&& m.tick().enemies[i].row == m.enemies[i].row
                &&& (m.tick().enemies[i].alive ==> m.enemies[i].alive)
            },
        count_alive(m.tick().enemies) <= count_alive(m.enemies),
        m.tick().score >= m.score,
        m.tick().lives <= m.lives,
        m.over ==> m.tick().over,
        m.won ==> m.tick().won,
{
    tick_keeps_wf(m);
    let m1 = m.step_stars();
    lemma_step_stars_wf(m);
    let m2 = m1.step_explosions();
    lemma_step_explosions_wf(m1);
    if !m2.over {
        lemma_step_ship_wf(m2);
        let m3 = m2.step_ship();
        lemma_step_enemies_wf(m3);
        let m4 = m3.step_enemies();
        lemma_step_bullets_wf(m4);
        let m5 = m4.step_bullets();
        assert forall|k: int| 0 <= k < m5.enemies.len() implies enemy_in_frame(#[trigger] m5.enemies[k]) by {}
        assert forall|k: int| 0 <= k < m5.p_bullets.len() implies p_bullet_ok(#[trigger] m5.p_bullets[k]) by {}
        lemma_check_collisions_wf(m5);
        let fx = m5.form_x as int;
        let fs = m5.form_step as int;
        assert forall|k: int|
            0 <= k < m5.enemies.len() && (#[trigger] m5.enemies[k]).alive implies in_range(
            m5.enemies[k].x + fx + ENEMY_W / 2,
        ) && in_range(m5.enemies[k].y + fs + ENEMY_H / 2) by {
            assert(enemy_placed(m5.enemies[k], fx, fs, m5.form_dir as int, m5.over));
            assert(enemy_in_frame(m5.enemies[k]));
        }
        lemma_resolve(m5.p_bullets, m5.enemies, fx, fs, 0);
        let m6 = m5.check_collisions();
        assert(m6.enemies == resolve_from(m5.p_bullets, m5.enemies, fx, fs, 0).1);
        assert(m4.enemies == m.enemies);
        let m7 = m6.maybe_enemy_fire();
        assert(m7.enemies == m6.enemies);
    } else {
        lemma_count_same(m2.enemies, m.enemies, 0);
    }
}

/// Law: each of the player's bullets destroys at most one enemy, so the
/// collisions of a tick destroy at most three, and the score grows by 100
/// for each.
pub proof fn one_enemy_per_bullet(m: GameModel)
    requires
        m.wf(),
    ensures
        count_alive(m.check_collisions().enemies) <= count_alive(m.enemies),
        count_alive(m.enemies) - count_alive(m.check_collisions().enemies) <= MAX_P_BULLETS,
        m.check_collisions().score == m.score + ENEMY_POINTS * (count_alive(m.enemies) - count_alive(
            m.check_collisions().enemies,
        )),
{
    let fx = m.form_x as int;
    let fs = m.form_step as int;
    assert forall|k: int| 0 <= k < m.enemies.len() implies enemy_in_frame(#[trigger] m.enemies[k]) by {}
    assert forall|k: int| 0 <= k < m.p_bullets.len() implies p_bullet_ok(#[trigger] m.p_bullets[k]) by {}
    assert forall|k: int|
        0 <= k < m.enemies.len() && (#[trigger] m.enemies[k]).alive implies in_range(
        m.enemies[k].x + fx + ENEMY_W / 2,
    ) && in_range(m.enemies[k].y + fs + ENEMY_H / 2) by {
        assert(enemy_placed(m.enemies[k], fx, fs, m.form_dir as int, m.over));
        assert(enemy_in_frame(m.enemies[k]));
    }
    lemma_resolve(m.p_bullets, m.enemies, fx, fs, 0);
}

/// Law: once the game is over, a tick moves only the stars and the
/// explosions, and the generator that places the stars.
pub proof fn tick_after_game_over(m: GameModel)
    requires
        m.over,
    ensures
        m.tick() == (GameModel {
            stars: m.tick().stars,
            explosions: m.tick().explosions,
            rng: m.tick().rng,
            ..m
        }),
{
}

/// Law: the ship fires at most once every `FIRE_COOLDOWN` ticks: firing sets
/// the cooldown, and while it is above one the ship's tick only counts it
/// down and fires nothing.
pub proof fn cooldown_limits_fire(m: GameModel)
    ensures
        m.step_ship().p_bullets != m.p_bullets ==> m.step_ship().fire_cooldown == FIRE_COOLDOWN,
        m.fire_cooldown > 1 ==> m.step_ship().p_bullets == m.p_bullets && m.step_ship().fire_cooldown
            == m.fire_cooldown - 1,
{
}

/// Law: the bullet pools keep their sizes, so at most three of the player's
/// bullets and six enemy bullets are ever in flight.
pub proof fn bullet_pools_are_bounded(m: GameModel)
    requires
        m.wf(),
    ensures
        m.p_bullets.len() == MAX_P_BULLETS,
        m.e_bullets.len() == MAX_E_BULLETS,
{
}

/// Law: the formation moves faster the fewer enemies are left.
pub proof fn formation_speeds_up(fewer: nat, more: nat)
    requires
        fewer < more,
    ensures
        formation_speed(fewer) > formation_speed(more),
{
}

/// Law: an explosion's picture grows and fades with age: the ring widens and
/// the debris flies out, the core and the debris particles shrink, both
/// alphas fall, and the core, which fades faster, is never more opaque than
/// the ring.
pub proof fn explosions_grow_and_fade(a1: int, a2: int)
    requires
        0 <= a1 <= a2 <= EXPLO_LIFE,
    ensures
        ring_radius(a1) <= ring_radius(a2),
        debris_distance(a1) <= debris_distance(a2),
        core_radius(a2) <= core_radius(a1),
        debris_radius(a2) <= debris_radius(a1),
        ring_alpha(a2) <= ring_alpha(a1),
        core_alpha(a2) <= core_alpha(a1),
        0 <= core_alpha(a1) <= ring_alpha(a1) <= 255,
        0 <= core_radius(a2),
        0 <= debris_radius(a2),
{
    let l1 = EXPLO_LIFE - a1;
    let l2 = EXPLO_LIFE - a2;
    assert(explo_step() > 0);
    assert(l1 * explo_step() >= l2 * explo_step()) by (nonlinear_arith)
        requires l1 >= l2, explo_step() > 0;
    assert(a1 * explo_step() <= a2 * explo_step()) by (nonlinear_arith)
        requires a1 <= a2, explo_step() > 0;
    assert(0 <= l2 * explo_step()) by (nonlinear_arith)
        requires l2 >= 0, explo_step() > 0;
    lemma_div_is_ordered(l2 * 255, l1 * 255, 14);
    assert(l2 * l2 <= l1 * l1) by (nonlinear_arith)
        requires 0 <= l2 <= l1;
    lemma_div_is_ordered(l2 * l2 * 255, l1 * l1 * 255, 196);
    // The core: l^2 * 255 / 196 <= 14 * l * 255 / 196 == l * 255 / 14.
    assert(l1 * l1 * 255 <= 14 * (l1 * 255)) by (nonlinear_arith)
        requires 0 <= l1 <= 14;
    lemma_div_is_ordered(l1 * l1 * 255, 14 * (l1 * 255), 196);
    lemma_div_denominator(14 * (l1 * 255), 14, 14);
    lemma_div_multiples_vanish(l1 * 255, 14);
    lemma_div_is_ordered(l1 * 255, 14int * 255, 14);
    assert(0 <= l1 * l1 * 255) by (nonlinear_arith)
        requires 0 <= l1;
    lemma_div_pos_is_pos(l1 * l1 * 255, 196);
}

/// Law: an explosion's lengths are exact, not rounded: in pixels the ring's
/// radius is `3 + 20 * age / 14`, the core's `7 * (14 - age) / 14`, the
/// debris's distance `18 * age / 14` and each particle's radius
/// `3 * (14 - age) / 14`.
pub proof fn explosion_lengths_are_exact(age: int)
    ensures
        ring_radius(age) * EXPLO_LIFE == (3 * EXPLO_LIFE + 20 * age) * PICTURE_UNITS_PER_PIXEL,
        core_radius(age) * EXPLO_LIFE == 7 * (EXPLO_LIFE - age) * PICTURE_UNITS_PER_PIXEL,
        debris_distance(age) * EXPLO_LIFE == 18 * age * PICTURE_UNITS_PER_PIXEL,
        debris_radius(age) * EXPLO_LIFE == 3 * (EXPLO_LIFE - age) * PICTURE_UNITS_PER_PIXEL,
{
    let s = explo_step();
    assert(s * 14 == PICTURE_UNITS_PER_PIXEL);
    assert(forall|x: int| #[trigger] (x * s) * 14 == x * PICTURE_UNITS_PER_PIXEL) by {
        assert forall|x: int| #[trigger] (x * s) * 14 == x * PICTURE_UNITS_PER_PIXEL by {
            assert((x * s) * 14 == x * (s * 14)) by (nonlinear_arith);
        }
    }
    assert((3 * EXPLO_LIFE + 20 * age) * s * 14 == (3 * EXPLO_LIFE + 20 * age) * PICTURE_UNITS_PER_PIXEL);
    assert((7 * (EXPLO_LIFE - age)) * s * 14 == (7 * (EXPLO_LIFE - age)) * PICTURE_UNITS_PER_PIXEL);
    assert((18 * age) * s * 14 == (18 * age) * PICTURE_UNITS_PER_PIXEL);
    assert((3 * (EXPLO_LIFE - age)) * s * 14 == (3 * (EXPLO_LIFE - age)) * PICTURE_UNITS_PER_PIXEL);
}

/// Law: the stars of a new game, and a star that comes back at the top, are
/// placed exactly at the fractions of the field that the generator's draws
/// give: in pixels a star built from draws `r1`, `r2`, `r3` is at
/// `(r1 / 2^32) * 480`, `(r2 / 2^32) * 600`, and falls `0.4 + (r3 / 2^32) * 1.6`
/// pixels a tick.
pub proof fn stars_are_placed_exactly(r1: u32, r2: u32, r3: u32)
    ensures
        new_star(r1, r2, r3).x * 0x1_0000_0000 == r1 * 480 * (UNITS_PER_PIXEL * STAR_UNITS_PER_UNIT),
        new_star(r1, r2, r3).y * 0x1_0000_0000 == r2 * 600 * (UNITS_PER_PIXEL * STAR_UNITS_PER_UNIT),
        new_star(r1, r2, r3).speed * 0x1_0000_0000 * 10 == (4 * 0x1_0000_0000 + r3 * 16) * (
        UNITS_PER_PIXEL * STAR_UNITS_PER_UNIT),
{
    assert(r1 * 48000 * 0x1_0000_0000 == r1 * 480 * (100 * 0x1_0000_0000)) by (nonlinear_arith);
    assert(r2 * 60000 * 0x1_0000_0000 == r2 * 600 * (100 * 0x1_0000_0000)) by (nonlinear_arith);
    assert((40 * 0x1_0000_0000 + 160 * r3) * 0x1_0000_0000 * 10 == (4 * 0x1_0000_0000 + r3 * 16) * (
    100 * 0x1_0000_0000)) by (nonlinear_arith);
}

// ------------------------------------------------------------------
// Explosions age on every tick

/// A single explosion after one tick: one tick older, or gone once it
/// reaches the end of its life.
pub proof fn explosion_ages_by_one(e: Explosion)
    ensures
        aged_from(seq![e], 0) == (if e.age + 1 < EXPLO_LIFE {
            seq![Explosion { x: e.x, y: e.y, age: (e.age + 1) as i32, color: e.color }]
        } else {
            Seq::<Explosion>::empty()
        }),
{
    assert(aged_from(seq![e], 1) == Seq::<Explosion>::empty());
    if e.age + 1 < EXPLO_LIFE {
        assert(aged_from(seq![e], 0) =~= seq![older(e)]);
    }
}

/// Aging the explosions after index `a.len() + j` of `a + b` is aging `b` from `j`.
proof fn lemma_aged_shift(a: Seq<Explosion>, b: Seq<Explosion>, j: int)
    requires
        0 <= j <= b.len(),
    ensures
        aged_from(a + b, a.len() + j) == aged_from(b, j),
    decreases b.len() - j,
{
    if j < b.len() {
        lemma_aged_shift(a, b, j + 1);
        assert((a + b)[a.len() + j] == b[j]);
    }
}

/// Aging `a + b` from index `i` of `a` is aging `a` from `i`, then all of `b`.
proof fn lemma_aged_split_from(a: Seq<Explosion>, b: Seq<Explosion>, i: int)
    requires
        0 <= i <= a.len(),
    ensures
        aged_from(a + b, i) == aged_from(a, i) + aged_from(b, 0),
    decreases a.len() - i,
{
    if i < a.len() {
        lemma_aged_split_from(a, b, i + 1);
        assert((a + b)[i] == a[i]);
        if a[i].age + 1 < EXPLO_LIFE {
            assert(seq![older(a[i])] + aged_from(a, i + 1) + aged_from(b, 0) =~= seq![older(a[i])] + (
            aged_from(a, i + 1) + aged_from(b, 0)));
        }
    } else {
        lemma_aged_shift(a, b, 0);
        assert(aged_from(a, i) + aged_from(b, 0) =~= aged_from(b, 0));
    }
}

/// Law: explosions age independently of each other and keep their order:
/// aging a list is aging each part of it.
pub proof fn explosions_age_separately(a: Seq<Explosion>, b: Seq<Explosion>)
    ensures
        aged_from(a + b, 0) == aged_from(a, 0) + aged_from(b, 0),
{
    lemma_aged_split_from(a, b, 0);
}

/// Law: the explosions age on every tick, the game over or not: after a
/// tick of a game that is over they are exactly the old ones aged one tick,
/// and in a running game the old ones, aged one tick, come first, before
/// the explosions of that tick.
pub proof fn explosions_age_on_every_tick(m: GameModel)
    requires
        m.wf(),
    ensures
        m.over ==> m.tick().explosions == aged_from(m.explosions, 0),
        aged_from(m.explosions, 0).is_prefix_of(m.tick().explosions),
{
    let m2 = m.step_stars().step_explosions();
    assert(m2.explosions == aged_from(m.explosions, 0));
    if !m2.over {
        let m3 = m2.step_ship();
        let m4 = m3.step_enemies();
        let m5 = m4.step_bullets();
        let m6 = m5.check_collisions();
        let m7 = m6.maybe_enemy_fire();
        assert(m5.explosions == m2.explosions);
        let r = resolve_from(m5.p_bullets, m5.enemies, m5.form_x as int, m5.form_step as int, 0);
        let shot = m5.explosions + r.2;
        assert(m2.explosions.is_prefix_of(shot));
        assert(m2.explosions.is_prefix_of(shot.push(ship_explosion(m5.ship_x))));
        assert(m7.explosions == m6.explosions);
    }
}

// ------------------------------------------------------------------
// The ship's hit box

/// Law: an active enemy bullet anywhere within the ship's box, the full
/// width of the ship centred on it and from its top down to its base, is
/// retired by the collisions, and the ship loses a life (never going below
/// none); with no life left the game is over.
pub proof fn ship_is_hit_across_its_box(m: GameModel, i: int)
    requires
        m.wf(),
        0 <= i < m.e_bullets.len(),
        m.e_bullets[i].active,
        m.ship_x - SHIP_W / 2 <= m.e_bullets[i].x <= m.ship_x + SHIP_W / 2,
        SHIP_Y - SHIP_H <= m.e_bullets[i].y <= SHIP_Y,
    ensures
        !m.check_collisions().e_bullets[i].active,
        m.check_collisions().e_bullets[i].x == m.e_bullets[i].x,
        m.check_collisions().e_bullets[i].y == m.e_bullets[i].y,
        m.check_collisions().lives == m.lives - 1 || (m.lives == 0 && m.check_collisions().lives == 0),
        m.check_collisions().lives == 0 ==> m.check_collisions().over,
        m.check_collisions().explosions.last() == (Explosion {
            x: m.ship_x,
            y: (SHIP_Y - SHIP_H / 2) as i32,
            age: 0,
            color: Rgba { r: 255, g: 140, b: 40, a: 255 },
        }),
{
    assert(ship_hit(m.e_bullets[i], m.ship_x as int));
}

/// Law: an enemy bullet outside the ship's box flies on untouched by the
/// collisions, and when no active enemy bullet is within the box the ship
/// keeps its lives.
pub proof fn ship_is_missed_outside_its_box(m: GameModel)
    requires
        m.wf(),
    ensures
        forall|i: int|
            0 <= i < m.e_bullets.len() && !(m.e_bullets[i].active && m.ship_x - SHIP_W / 2
                <= m.e_bullets[i].x <= m.ship_x + SHIP_W / 2 && SHIP_Y - SHIP_H <= m.e_bullets[i].y
                <= SHIP_Y) ==> #[trigger] m.check_collisions().e_bullets[i] == m.e_bullets[i],
        (forall|i: int|
            0 <= i < m.e_bullets.len() ==> !(#[trigger] m.e_bullets[i].active && m.ship_x - SHIP_W / 2
                <= m.e_bullets[i].x <= m.ship_x + SHIP_W / 2 && SHIP_Y - SHIP_H <= m.e_bullets[i].y
                <= SHIP_Y)) ==> m.check_collisions().lives == m.lives && m.check_collisions().over
            == m.over,
{
    if forall|i: int|
        0 <= i < m.e_bullets.len() ==> !(#[trigger] m.e_bullets[i].active && m.ship_x - SHIP_W / 2
            <= m.e_bullets[i].x <= m.ship_x + SHIP_W / 2 && SHIP_Y - SHIP_H <= m.e_bullets[i].y
            <= SHIP_Y) {
        assert forall|i: int| 0 <= i < m.e_bullets.len() implies !#[trigger] ship_hit(
            m.e_bullets[i],
            m.ship_x as int,
        ) by {
            assert(!(m.e_bullets[i].active && m.ship_x - SHIP_W / 2 <= m.e_bullets[i].x <= m.ship_x
                + SHIP_W / 2 && SHIP_Y - SHIP_H <= m.e_bullets[i].y <= SHIP_Y));
        }
    }
}

// ------------------------------------------------------------------
// Losing to the formation

/// Law: a formation step of a running game with living enemies ends it
/// exactly when, after the step, the bottom of some living enemy has come
/// down to the top of the ship; the ship then loses all its lives and the
/// game is not won. Otherwise the lives and the game go on.
pub proof fn formation_wins_only_with_living_enemies(m: GameModel)
    requires
        m.wf(),
        !m.over,
        exists|i: int| 0 <= i < m.enemies.len() && #[trigger] m.enemies[i].alive,
    ensures
        m.step_enemies().over == exists|i: int|
            0 <= i < m.enemies.len() && #[trigger] m.enemies[i].alive && m.enemies[i].y
                + m.step_enemies().form_step + ENEMY_H >= SHIP_Y - SHIP_H,
        m.step_enemies().over ==> m.step_enemies().lives == 0 && !m.step_enemies().won,
        !m.step_enemies().over ==> m.step_enemies().lives == m.lives && !m.step_enemies().won,
        m.step_enemies().enemies == m.enemies,
{
}

/// Law: the dead enemies play no part in a formation step: two games that
/// differ only in where their dead enemies are step alike.
pub proof fn dead_enemies_do_not_steer(a: GameModel, b: GameModel)
    requires
        a.enemies.len() == b.enemies.len(),
        forall|i: int|
            0 <= i < a.enemies.len() ==> (#[trigger] a.enemies[i]).alive == b.enemies[i].alive && (
            a.enemies[i].alive ==> a.enemies[i] == b.enemies[i]),
        b == (GameModel { enemies: b.enemies, ..a }),
    ensures
        a.step_enemies() == (GameModel { enemies: a.enemies, ..b.step_enemies() }),
{
    lemma_count_same(a.enemies, b.enemies, 0);
    let fx = a.form_x as int;
    let fs = a.form_step as int;
    assert(any_alive(a.enemies) == any_alive(b.enemies)) by {
        if any_alive(a.enemies) {
            let k = choose|k: int| 0 <= k < a.enemies.len() && #[trigger] a.enemies[k].alive;
            assert(b.enemies[k].alive);
        }
        if any_alive(b.enemies) {
            let k = choose|k: int| 0 <= k < b.enemies.len() && #[trigger] b.enemies[k].alive;
            assert(a.enemies[k].alive);
        }
    }
    let d = a.form_dir * formation_speed(count_alive(a.enemies));
    assert(hits_right_edge(a.enemies, fx, d) == hits_right_edge(b.enemies, fx, d)) by {
        if hits_right_edge(a.enemies, fx, d) {
            let k = choose|k: int|
                0 <= k < a.enemies.len() && #[trigger] a.enemies[k].alive && a.enemies[k].x + fx + ENEMY_W
                    + d >= FIELD_W - FORMATION_MARGIN;
            assert(b.enemies[k].alive);
        }
        if hits_right_edge(b.enemies, fx, d) {
            let k = choose|k: int|
                0 <= k < b.enemies.len() && #[trigger] b.enemies[k].alive && b.enemies[k].x + fx + ENEMY_W
                    + d >= FIELD_W - FORMATION_MARGIN;
            assert(a.enemies[k].alive);
        }
    }
    assert(hits_left_edge(a.enemies, fx, d) == hits_left_edge(b.enemies, fx, d)) by {
        if hits_left_edge(a.enemies, fx, d) {
            let k = choose|k: int|
                0 <= k < a.enemies.len() && #[trigger] a.enemies[k].alive && a.enemies[k].x + fx + d
                    <= FORMATION_MARGIN;
            assert(b.enemies[k].alive);
        }
        if hits_left_edge(b.enemies, fx, d) {
            let k = choose|k: int|
                0 <= k < b.enemies.len() && #[trigger] b.enemies[k].alive && b.enemies[k].x + fx + d
                    <= FORMATION_MARGIN;
            assert(a.enemies[k].alive);
        }
    }
    assert forall|f: int| reached_ship(a.enemies, f) == reached_ship(b.enemies, f) by {
        if reached_ship(a.enemies, f) {
            let k = choose|k: int|
                0 <= k < a.enemies.len() && #[trigger] a.enemies[k].alive && a.enemies[k].y + f + ENEMY_H
                    >= SHIP_TOP;
            assert(b.enemies[k].alive);
        }
        if reached_ship(b.enemies, f) {
            let k = choose|k: int|
                0 <= k < b.enemies.len() && #[trigger] b.enemies[k].alive && b.enemies[k].y + f + ENEMY_H
                    >= SHIP_TOP;
            assert(a.enemies[k].alive);
        }
    }
}

// ------------------------------------------------------------------
// Enemy fire

/// Law: the enemies' fire leaves every active bullet where it is and starts
/// at most one new bullet, into a free slot; a new bullet starts at the
/// bottom centre of a living enemy as it stands on screen, the formation's
/// offset and descent included.
pub proof fn enemy_bullets_drop_from_living_enemies(m: GameModel)
    requires
        m.wf(),
    ensures
        m.maybe_enemy_fire().e_bullets.len() == m.e_bullets.len(),
        forall|j: int|
            0 <= j < m.e_bullets.len() && m.e_bullets[j].active ==> #[trigger] m.maybe_enemy_fire().e_bullets[j]
                == m.e_bullets[j],
        forall|j: int|
            0 <= j < m.e_bullets.len() && !m.e_bullets[j].active && (
            #[trigger] m.maybe_enemy_fire().e_bullets[j]).active ==> exists|k: int|
                0 <= k < m.enemies.len() && (#[trigger] m.enemies[k]).alive
                    && m.maybe_enemy_fire().e_bullets[j].x == m.enemies[k].x + m.form_x + ENEMY_W / 2
                    && m.maybe_enemy_fire().e_bullets[j].y == m.enemies[k].y + m.form_step + ENEMY_H,
        forall|j1: int, j2: int|
            0 <= j1 < j2 < m.e_bullets.len() && !m.e_bullets[j1].active && (
            #[trigger] m.maybe_enemy_fire().e_bullets[j1]).active ==> !(
            #[trigger] m.maybe_enemy_fire().e_bullets[j2]).active || m.e_bullets[j2].active,
{
    lemma_maybe_enemy_fire_wf(m);
    let r1 = xorshift32(m.rng);
    let alive = count_alive(m.enemies);
    if !(r1 as int * 100 > 6 * 0x1_0000_0000 || alive == 0) {
        let r2 = xorshift32(r1);
        lemma_count_bound(m.enemies, 0);
        lemma_scale_below(r2, alive);
        let t = scale_unit(r2, alive as int);
        lemma_nth_alive(m.enemies, t, 0);
        let k = nth_alive_from(m.enemies, t, 0);
        lemma_first_inactive(m.e_bullets, 0);
        let j = first_inactive_from(m.e_bullets, 0);
        let e = m.enemies[k];
        assert(enemy_in_frame(e));
        assert(enemy_placed(e, m.form_x as int, m.form_step as int, m.form_dir as int, m.over));
        let f = m.maybe_enemy_fire();
        assert forall|jj: int|
            0 <= jj < m.e_bullets.len() && !m.e_bullets[jj].active && (
            #[trigger] f.e_bullets[jj]).active implies exists|kk: int|
            0 <= kk < m.enemies.len() && (#[trigger] m.enemies[kk]).alive && f.e_bullets[jj].x
                == m.enemies[kk].x + m.form_x + ENEMY_W / 2 && f.e_bullets[jj].y == m.enemies[kk].y
                + m.form_step + ENEMY_H by {
            assert(jj == j);
            assert(m.enemies[k].alive);
        }
    }
}

// ------------------------------------------------------------------
// The picture of the formation

/// Law: each of the four rows has a colour of its own.
pub proof fn rows_have_their_own_colours()
    ensures
        spec_enemy_color(0) == rgba(255, 90, 110, 255),
        spec_enemy_color(1) == rgba(255, 160, 60, 255),
        spec_enemy_color(2) == rgba(120, 230, 140, 255),
        spec_enemy_color(3) == rgba(190, 130, 255, 255),
        forall|r1: i32, r2: i32|
            0 <= r1 < r2 < ENEMY_ROWS ==> spec_enemy_color(r1) != spec_enemy_color(r2),
{
}

/// The body of an enemy whose box has its top left corner at (`x`, `y`), in
/// the colour `c`.
pub open spec fn enemy_body(x: int, y: int, c: Rgba) -> Shape {
    Shape::RoundRect {
        x: pic(x),
        y: pic(y + 400),
        w: pic(ENEMY_W as int),
        h: pic(ENEMY_H - 600),
        rx: pic(600),
        ry: pic(600),
        color: c,
    }
}

/// The pictures of the living enemies from `j` on hold the body of each of
/// them.
proof fn lemma_body_drawn(es: Seq<Enemy>, fx: int, fs: int, j: int, i: int)
    requires
        0 <= j <= i < es.len(),
        es[i].alive,
    ensures
        exists|k: int|
            0 <= k < enemies_picture_from(es, fx, fs, j).len() && #[trigger] enemies_picture_from(
                es,
                fx,
                fs,
                j,
            )[k] == enemy_body(es[i].x + fx, es[i].y + fs, spec_enemy_color(es[i].row)),
    decreases es.len() - j,
{
    let p = enemies_picture_from(es, fx, fs, j);
    let body = enemy_body(es[i].x + fx, es[i].y + fs, spec_enemy_color(es[i].row));
    if j == i {
        let pic5 = enemy_picture(es[i].x + fx, es[i].y + fs, spec_enemy_color(es[i].row));
        assert(p == pic5 + enemies_picture_from(es, fx, fs, j + 1));
        assert(p[0] == body);
    } else {
        lemma_body_drawn(es, fx, fs, j + 1, i);
        let rest = enemies_picture_from(es, fx, fs, j + 1);
        let k = choose|k: int| 0 <= k < rest.len() && #[trigger] rest[k] == body;
        if es[j].alive {
            let pic5 = enemy_picture(es[j].x + fx, es[j].y + fs, spec_enemy_color(es[j].row));
            assert(p == pic5 + rest);
            assert(p[5 + k] == body);
        } else {
            assert(p[k] == body);
        }
    }
}

/// Law: the picture shows every living enemy where it stands on screen, its
/// body in the colour of its own row.
pub proof fn living_enemies_drawn_in_row_colours(m: GameModel)
    ensures
        forall|i: int|
            0 <= i < m.enemies.len() && (#[trigger] m.enemies[i]).alive ==> scene(m).contains(
                enemy_body(
                    m.enemies[i].x + m.form_x,
                    m.enemies[i].y + m.form_step,
                    spec_enemy_color(m.enemies[i].row),
                ),
            ),
{
    assert forall|i: int| 0 <= i < m.enemies.len() && (#[trigger] m.enemies[i]).alive implies scene(
        m,
    ).contains(
        enemy_body(
            m.enemies[i].x + m.form_x,
            m.enemies[i].y + m.form_step,
            spec_enemy_color(m.enemies[i].row),
        ),
    ) by {
        let fx = m.form_x as int;
        let fs = m.form_step as int;
        lemma_body_drawn(m.enemies, fx, fs, 0, i);
        let ep = enemies_picture_from(m.enemies, fx, fs, 0);
        let body = enemy_body(m.enemies[i].x + fx, m.enemies[i].y + fs, spec_enemy_color(m.enemies[i].row));
        let k = choose|k: int| 0 <= k < ep.len() && #[trigger] ep[k] == body;
        let head = seq![Shape::Rect { x: 0, y: 0, w: pic(FIELD_W as int), h: pic(FIELD_H as int), color: rgba(6, 8, 22, 255) }]
            + m.stars.map_values(|s: Star| star_shape(s));
        let rest = p_bullets_picture_from(m.p_bullets, 0) + e_bullets_picture_from(m.e_bullets, 0)
            + (if !m.over || m.won { ship_picture(m.ship_x as int) } else { Seq::empty() })
            + explosions_picture_from(m.explosions, 0);
        let sc = scene(m);
        assert(sc =~= head + ep + p_bullets_picture_from(m.p_bullets, 0) + e_bullets_picture_from(
            m.e_bullets,
            0,
        ) + (if !m.over || m.won { ship_picture(m.ship_x as int) } else { Seq::empty() })
            + explosions_picture_from(m.explosions, 0));
        assert(sc[head.len() + k] == body);
    }
}

} // verus!
