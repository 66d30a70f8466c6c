//! Facts about the model that the operations and the laws rest on.
use vstd::prelude::*;
use crate::entities::{
    ENEMY_COLS, ENEMY_COUNT, ENEMY_H, ENEMY_LEFT, ENEMY_ROWS, ENEMY_STRIDE_X, ENEMY_STRIDE_Y,
    ENEMY_TOP, ENEMY_W, EXPLO_LIFE, FIELD_H, FIELD_W, FORMATION_MARGIN, STAR_COUNT,
    STAR_UNITS_PER_UNIT, Bullet, Enemy, Explosion, Star,
};
use crate::model::{
    aged_from, any_alive, count_alive, count_alive_from, e_bullet_ok, enemy_explosion,
    enemy_in_frame, enemy_placed, explosion_ok, first_hit_from, first_inactive_from, formation,
    formation_enemy, formation_speed, hits, hits_left_edge, hits_right_edge, in_range,
    initial_stars, new_game, nth_alive_from, older, p_bullet_ok, resolve_from, retired, star_ok,
    stars_from, unstarted_game, GameModel,
};
use crate::rng::{scale_unit, xorshift32, xorshift32_nonzero, RNG_SEED};

verus! {

/// There are no more living enemies from `j` on than enemies.
pub proof fn lemma_count_bound(es: Seq<Enemy>, j: int)
    requires
        0 <= j <= es.len(),
    ensures
        count_alive_from(es, j) <= es.len() - j,
    decreases es.len() - j,
{
    if j < es.len() {
        lemma_count_bound(es, j + 1);
    }
}

/// Some enemy from `j` on is alive exactly when the count from `j` is positive.
pub proof fn lemma_count_positive(es: Seq<Enemy>, j: int)
    requires
        0 <= j <= es.len(),
    ensures
        count_alive_from(es, j) > 0 <==> exists|i: int| j <= i < es.len() && #[trigger] es[i].alive,
    decreases es.len() - j,
{
    if j < es.len() {
        lemma_count_positive(es, j + 1);
        if es[j].alive {
            assert(es[j].alive);
        } else {
            if exists|i: int| j <= i < es.len() && #[trigger] es[i].alive {
                let i = choose|i: int| j <= i < es.len() && #[trigger] es[i].alive;
                assert(j + 1 <= i);
            }
        }
    }
}

/// Destroying a living enemy lowers the count by one.
pub proof fn lemma_count_kill(es: Seq<Enemy>, k: int, j: int)
    requires
        0 <= k < es.len(),
        es[k].alive,
        0 <= j <= es.len(),
    ensures
        count_alive_from(es.update(k, Enemy { alive: false, ..es[k] }), j) == count_alive_from(es, j)
            - (if j <= k { 1int } else { 0int }),
    decreases es.len() - j,
{
    if j < es.len() {
        lemma_count_kill(es, k, j + 1);
    }
}

/// Two formations whose enemies are alive at the same places have the same count.
pub proof fn lemma_count_same(a: Seq<Enemy>, b: Seq<Enemy>, j: int)
    requires
        a.len() == b.len(),
        0 <= j <= a.len(),
        forall|i: int| 0 <= i < a.len() ==> #[trigger] a[i].alive == b[i].alive,
    ensures
        count_alive_from(a, j) == count_alive_from(b, j),
    decreases a.len() - j,
{
    if j < a.len() {
        lemma_count_same(a, b, j + 1);
    }
}

/// Every enemy from `j` on alive: the count is the number of them.
pub proof fn lemma_count_all(es: Seq<Enemy>, j: int)
    requires
        0 <= j <= es.len(),
        forall|i: int| 0 <= i < es.len() ==> #[trigger] es[i].alive,
    ensures
        count_alive_from(es, j) == es.len() - j,
    decreases es.len() - j,
{
    if j < es.len() {
        lemma_count_all(es, j + 1);
    }
}

/// The living enemy with `t` living ones before it exists when fewer than
/// `t + 1` is not the count.
pub proof fn lemma_nth_alive(es: Seq<Enemy>, t: int, j: int)
    requires
        0 <= j <= es.len(),
        0 <= t < count_alive_from(es, j),
    ensures
        j <= nth_alive_from(es, t, j) < es.len(),
        es[nth_alive_from(es, t, j)].alive,
    decreases es.len() - j,
{
    if j < es.len() {
        if es[j].alive {
            if t != 0 {
                lemma_nth_alive(es, t - 1, j + 1);
            }
        } else {
            lemma_nth_alive(es, t, j + 1);
        }
    }
}

/// The first free slot from `j` on is free, and every slot before it is taken.
pub proof fn lemma_first_inactive(bs: Seq<Bullet>, j: int)
    requires
        0 <= j <= bs.len(),
    ensures
        j <= first_inactive_from(bs, j) <= bs.len(),
        first_inactive_from(bs, j) < bs.len() ==> !bs[first_inactive_from(bs, j)].active,
        forall|i: int| j <= i < first_inactive_from(bs, j) ==> #[trigger] bs[i].active,
    decreases bs.len() - j,
{
    if j < bs.len() && bs[j].active {
        lemma_first_inactive(bs, j + 1);
    }
}

/// The first enemy hit from `j` on is hit, and none before it is.
pub proof fn lemma_first_hit(es: Seq<Enemy>, b: Bullet, fx: int, fs: int, j: int)
    requires
        0 <= j <= es.len(),
    ensures
        j <= first_hit_from(es, b, fx, fs, j) <= es.len(),
        first_hit_from(es, b, fx, fs, j) < es.len() ==> hits(
            b,
            es[first_hit_from(es, b, fx, fs, j)],
            fx,
            fs,
        ),
        forall|i: int| j <= i < first_hit_from(es, b, fx, fs, j) ==> !hits(b, #[trigger] es[i], fx, fs),
    decreases es.len() - j,
{
    if j < es.len() && !hits(b, es[j], fx, fs) {
        lemma_first_hit(es, b, fx, fs, j + 1);
    }
}

/// The enemies of a fresh formation: their places, rows, and that they are all alive.
pub proof fn lemma_formation()
    ensures
        formation().len() == ENEMY_COUNT,
        forall|i: int|
            0 <= i < ENEMY_COUNT ==> {
                &&& #[trigger] formation()[i] == formation_enemy(i)
                &&& formation()[i].alive
                &&& ENEMY_LEFT <= formation()[i].x <= ENEMY_LEFT + (ENEMY_COLS - 1) * ENEMY_STRIDE_X
                &&& ENEMY_TOP <= formation()[i].y <= ENEMY_TOP + (ENEMY_ROWS - 1) * ENEMY_STRIDE_Y
                &&& 0 <= formation()[i].row < ENEMY_ROWS
            },
        count_alive(formation()) == ENEMY_COUNT,
{
    assert forall|i: int| 0 <= i < ENEMY_COUNT implies {
        &&& #[trigger] formation()[i] == formation_enemy(i)
        &&& formation()[i].alive
        &&& ENEMY_LEFT <= formation()[i].x <= ENEMY_LEFT + (ENEMY_COLS - 1) * ENEMY_STRIDE_X
        &&& ENEMY_TOP <= formation()[i].y <= ENEMY_TOP + (ENEMY_ROWS - 1) * ENEMY_STRIDE_Y
        &&& 0 <= formation()[i].row < ENEMY_ROWS
    } by {
        assert(0 <= i % 8 < 8);
        assert(0 <= i / 8 < 4);
    }
    lemma_count_all(formation(), 0);
}

/// A new game started from a state whose bullet pools, stars and generator
/// are well formed is well formed.
pub proof fn lemma_reset_wf(m: GameModel)
    requires
        m.bullets_wf(),
        m.stars_wf(),
        m.rng != 0,
    ensures
        m.reset().wf(),
{
    lemma_formation();
    let r = m.reset();
    assert(r.enemies_wf());
    assert(r.formation_wf());
    assert(r.bullets_wf()) by {
        assert forall|i: int| 0 <= i < r.p_bullets.len() implies #[trigger] r.p_bullets[i] == retired(
            m.p_bullets[i],
        ) by {}
        assert forall|i: int| 0 <= i < r.e_bullets.len() implies #[trigger] r.e_bullets[i] == retired(
            m.e_bullets[i],
        ) by {}
    }
    assert(r.record_wf());
}

/// The explosions after a tick are the survivors, one tick older, in the
/// same order; none has reached the end of its life.
pub proof fn lemma_aged(es: Seq<Explosion>, i: int)
    requires
        0 <= i <= es.len(),
        forall|k: int| 0 <= k < es.len() ==> explosion_ok(#[trigger] es[k]),
    ensures
        aged_from(es, i).len() <= es.len() - i,
        forall|k: int| 0 <= k < aged_from(es, i).len() ==> explosion_ok(#[trigger] aged_from(es, i)[k]),
    decreases es.len() - i,
{
    if i < es.len() {
        lemma_aged(es, i + 1);
        let rest = aged_from(es, i + 1);
        if es[i].age + 1 < EXPLO_LIFE {
            let all = seq![older(es[i])] + rest;
            assert forall|k: int| 0 <= k < all.len() implies explosion_ok(#[trigger] all[k]) by {
                if k > 0 {
                    assert(all[k] == rest[k - 1]);
                }
            }
        }
    }
}

/// One step of the formation from a running, well-formed game keeps the
/// game well formed: in particular the formation stays on the field.
pub proof fn lemma_step_enemies_wf(m: GameModel)
    requires
        m.wf(),
        !m.over,
    ensures
        m.step_enemies().wf(),
{
    let es = m.enemies;
    let r = m.step_enemies();
    lemma_count_positive(es, 0);
    lemma_count_bound(es, 0);
    if !any_alive(es) {
        assert forall|i: int| 0 <= i < es.len() implies !(#[trigger] es[i]).alive by {
            if es[i].alive {
                assert(any_alive(es));
            }
        }
        assert(count_alive(es) == 0);
        assert(r.formation_wf());
        assert(r.record_wf());
    } else {
        let n = count_alive(es);
        let a = choose|i: int| 0 <= i < es.len() && #[trigger] es[i].alive;
        assert(n > 0);
        let s = formation_speed(n);
        assert(80 <= s <= 266);
        let d = m.form_dir * s;
        assert(d == s || d == -s);
        let turn_left = hits_right_edge(es, m.form_x as int, d);
        let turn_right = !turn_left && hits_left_edge(es, m.form_x as int, d);
        assert(enemy_placed(es[a], m.form_x as int, m.form_step as int, m.form_dir as int, m.over));
        assert(enemy_in_frame(es[a]));
        assert forall|i: int| 0 <= i < es.len() implies enemy_placed(
            #[trigger] r.enemies[i],
            r.form_x as int,
            r.form_step as int,
            r.form_dir as int,
            r.over,
        ) by {
            assert(r.enemies[i] == es[i]);
            if es[i].alive {
                assert(enemy_placed(es[i], m.form_x as int, m.form_step as int, m.form_dir as int, m.over));
                assert(enemy_in_frame(es[i]));
                if turn_left {
                    let j = choose|j: int|
                        0 <= j < es.len() && #[trigger] es[j].alive && es[j].x + m.form_x + ENEMY_W + d
                            >= FIELD_W - FORMATION_MARGIN;
                    assert(enemy_in_frame(es[j]));
                    assert(enemy_placed(es[j], m.form_x as int, m.form_step as int, m.form_dir as int, m.over));
                } else {
                    assert(!(es[i].x + m.form_x + ENEMY_W + d >= FIELD_W - FORMATION_MARGIN));
                    if turn_right {
                    } else {
                        assert(!(es[i].x + m.form_x + d <= FORMATION_MARGIN));
                    }
                }
            }
        }
        assert(enemy_placed(r.enemies[a], r.form_x as int, r.form_step as int, r.form_dir as int, r.over));
        assert(r.formation_wf());
        assert(r.record_wf());
    }
}

/// Resolving the player's bullets only retires bullets and destroys living
/// enemies, each destroyed enemy leaving one explosion on the field.
pub proof fn lemma_resolve(bs: Seq<Bullet>, es: Seq<Enemy>, fx: int, fs: int, i: int)
    requires
        0 <= i <= bs.len(),
        forall|k: int| 0 <= k < es.len() ==> enemy_in_frame(#[trigger] es[k]),
        forall|k: int|
            0 <= k < es.len() && (#[trigger] es[k]).alive ==> in_range(es[k].x + fx + ENEMY_W / 2)
                && in_range(es[k].y + fs + ENEMY_H / 2),
        forall|k: int| 0 <= k < bs.len() ==> p_bullet_ok(#[trigger] bs[k]),
    ensures
        resolve_from(bs, es, fx, fs, i).0.len() == bs.len(),
        forall|k: int|
            0 <= k < bs.len() ==> {
                &&& (#[trigger] resolve_from(bs, es, fx, fs, i).0[k]).x == bs[k].x
                &&& resolve_from(bs, es, fx, fs, i).0[k].y == bs[k].y
                &&& (resolve_from(bs, es, fx, fs, i).0[k].active ==> bs[k].active)
            },
        resolve_from(bs, es, fx, fs, i).1.len() == es.len(),
        forall|k: int|
            0 <= k < es.len() ==> {
                &&& (#[trigger] resolve_from(bs, es, fx, fs, i).1[k]).x == es[k].x
                &&& resolve_from(bs, es, fx, fs, i).1[k].y == es[k].y
                &&& resolve_from(bs, es, fx, fs, i).1[k].row == es[k].row
                &&& (resolve_from(bs, es, fx, fs, i).1[k].alive ==> es[k].alive)
            },
        count_alive(resolve_from(bs, es, fx, fs, i).1) + resolve_from(bs, es, fx, fs, i).2.len()
            == count_alive(es),
        resolve_from(bs, es, fx, fs, i).2.len() <= bs.len() - i,
        forall|k: int|
            0 <= k < resolve_from(bs, es, fx, fs, i).2.len() ==> explosion_ok(
                #[trigger] resolve_from(bs, es, fx, fs, i).2[k],
            ) && resolve_from(bs, es, fx, fs, i).2[k].age == 0,
    decreases bs.len() - i,
{
    if i < bs.len() {
        let b = bs[i];
        let k = first_hit_from(es, b, fx, fs, 0);
        lemma_first_hit(es, b, fx, fs, 0);
        if b.active && k < es.len() {
            let bs2 = bs.update(i, retired(b));
            let es2 = es.update(k, Enemy { alive: false, ..es[k] });
            assert forall|j: int| 0 <= j < bs2.len() implies p_bullet_ok(#[trigger] bs2[j]) by {
                assert(p_bullet_ok(bs[j]));
            }
            assert forall|j: int| 0 <= j < es2.len() implies enemy_in_frame(#[trigger] es2[j]) by {
                assert(enemy_in_frame(es[j]));
            }
            lemma_resolve(bs2, es2, fx, fs, i + 1);
            lemma_count_kill(es, k, 0);
            let rest = resolve_from(bs2, es2, fx, fs, i + 1);
            let all = seq![enemy_explosion(es[k], fx, fs)] + rest.2;
            assert forall|j: int| 0 <= j < all.len() implies explosion_ok(#[trigger] all[j]) && all[j].age
                == 0 by {
                if j > 0 {
                    assert(all[j] == rest.2[j - 1]);
                }
            }
            assert forall|j: int| 0 <= j < es.len() implies {
                &&& (#[trigger] rest.1[j]).x == es[j].x
                &&& rest.1[j].y == es[j].y
                &&& rest.1[j].row == es[j].row
                &&& (rest.1[j].alive ==> es[j].alive)
            } by {
                assert(rest.1[j].x == es2[j].x);
            }
            assert forall|j: int| 0 <= j < bs.len() implies {
                &&& (#[trigger] rest.0[j]).x == bs[j].x
                &&& rest.0[j].y == bs[j].y
                &&& (rest.0[j].active ==> bs[j].active)
            } by {
                assert(rest.0[j].x == bs2[j].x);
            }
        } else {
            lemma_resolve(bs, es, fx, fs, i + 1);
        }
    }
}

/// The collisions of one tick keep a well-formed game well formed; in
/// particular the score still counts the destroyed enemies.
pub proof fn lemma_check_collisions_wf(m: GameModel)
    requires
        m.wf(),
    ensures
        m.check_collisions().wf(),
{
    let fx = m.form_x as int;
    let fs = m.form_step as int;
    let es = m.enemies;
    assert forall|k: int| 0 <= k < es.len() implies enemy_in_frame(#[trigger] es[k]) by {}
    assert forall|k: int|
        0 <= k < es.len() && (#[trigger] es[k]).alive implies in_range(es[k].x + fx + ENEMY_W / 2)
        && in_range(es[k].y + fs + ENEMY_H / 2) by {
        assert(enemy_placed(es[k], fx, fs, m.form_dir as int, m.over));
        assert(enemy_in_frame(es[k]));
    }
    assert forall|k: int| 0 <= k < m.p_bullets.len() implies p_bullet_ok(#[trigger] m.p_bullets[k]) by {}
    lemma_resolve(m.p_bullets, es, fx, fs, 0);
    let r = resolve_from(m.p_bullets, es, fx, fs, 0);
    let c = m.check_collisions();
    assert(c.enemies == r.1);
    assert forall|k: int| 0 <= k < c.enemies.len() implies enemy_in_frame(#[trigger] c.enemies[k]) by {
        assert(enemy_in_frame(es[k]));
    }
    assert forall|k: int| 0 <= k < c.enemies.len() implies enemy_placed(
        #[trigger] c.enemies[k],
        c.form_x as int,
        c.form_step as int,
        c.form_dir as int,
        c.over,
    ) by {
        assert(enemy_placed(es[k], fx, fs, m.form_dir as int, m.over));
    }
    assert forall|k: int| 0 <= k < c.p_bullets.len() implies p_bullet_ok(#[trigger] c.p_bullets[k]) by {
        assert(p_bullet_ok(m.p_bullets[k]));
    }
    assert forall|k: int| 0 <= k < c.e_bullets.len() implies e_bullet_ok(#[trigger] c.e_bullets[k]) by {
        assert(e_bullet_ok(m.e_bullets[k]));
    }
    let shot_ex = m.explosions + r.2;
    assert forall|k: int| 0 <= k < shot_ex.len() implies explosion_ok(#[trigger] shot_ex[k]) by {
        if k < m.explosions.len() {
            assert(explosion_ok(m.explosions[k]));
        } else {
            assert(shot_ex[k] == r.2[k - m.explosions.len()]);
        }
    }
    assert forall|k: int| 0 <= k < c.explosions.len() implies explosion_ok(#[trigger] c.explosions[k]) by {
        if k < shot_ex.len() {
            assert(c.explosions[k] == shot_ex[k]);
        }
    }
    assert(c.enemies_wf());
    assert(c.formation_wf());
    assert(c.bullets_wf());
    assert(c.explosions_wf());
    assert(c.record_wf());
}

/// The fraction `r / 2^32` of a count, rounded down, is below the count.
pub proof fn lemma_scale_below(r: u32, n: nat)
    requires
        n > 0,
    ensures
        0 <= scale_unit(r, n as int) < n,
{
    assert((r as int) * (n as int) < 0x1_0000_0000 * (n as int)) by (nonlinear_arith)
        requires r < 0x1_0000_0000int, n > 0;
    assert(0 <= (r as int) * (n as int)) by (nonlinear_arith)
        requires r >= 0, n > 0;
}

/// The enemies' fire keeps a well-formed game well formed: a new bullet
/// leaves a living enemy, above the bottom of the field.
pub proof fn lemma_maybe_enemy_fire_wf(m: GameModel)
    requires
        m.wf(),
    ensures
        m.maybe_enemy_fire().wf(),
{
    let r1 = xorshift32(m.rng);
    xorshift32_nonzero(m.rng);
    let alive = count_alive(m.enemies);
    let f = m.maybe_enemy_fire();
    if r1 as int * 100 > 6 * 0x1_0000_0000 || alive == 0 {
    } else {
        let r2 = xorshift32(r1);
        xorshift32_nonzero(r1);
        lemma_count_bound(m.enemies, 0);
        lemma_scale_below(r2, alive);
        let t = scale_unit(r2, alive as int);
        lemma_nth_alive(m.enemies, t, 0);
        let k = nth_alive_from(m.enemies, t, 0);
        let j = first_inactive_from(m.e_bullets, 0);
        lemma_first_inactive(m.e_bullets, 0);
        let e = m.enemies[k];
        assert(enemy_in_frame(e));
        assert(enemy_placed(e, m.form_x as int, m.form_step as int, m.form_dir as int, m.over));
        assert forall|i: int| 0 <= i < f.e_bullets.len() implies e_bullet_ok(#[trigger] f.e_bullets[i]) by {
            assert(e_bullet_ok(m.e_bullets[i]));
        }
        assert(f.bullets_wf());
    }
}

/// Falling stars stay on the field, and the generator stays nonzero.
pub proof fn lemma_stars_from(ss: Seq<Star>, rng: u32, i: int)
    requires
        0 <= i <= ss.len(),
        forall|k: int| 0 <= k < ss.len() ==> star_ok(#[trigger] ss[k]),
        rng != 0,
    ensures
        stars_from(ss, rng, i).0.len() == ss.len(),
        forall|k: int| 0 <= k < ss.len() ==> star_ok(#[trigger] stars_from(ss, rng, i).0[k]),
        stars_from(ss, rng, i).1 != 0,
    decreases ss.len() - i,
{
    if i < ss.len() {
        let s = ss[i];
        assert(star_ok(s));
        let y = s.y + s.speed;
        if y > FIELD_H * STAR_UNITS_PER_UNIT {
            let r = xorshift32(rng);
            xorshift32_nonzero(rng);
            let ss2 = ss.update(i, Star { x: (FIELD_W * r) as i64, y: 0, speed: s.speed });
            assert forall|k: int| 0 <= k < ss2.len() implies star_ok(#[trigger] ss2[k]) by {
                assert(star_ok(ss[k]));
            }
            lemma_stars_from(ss2, r, i + 1);
        } else {
            let ss2 = ss.update(i, Star { x: s.x, y: y as i64, speed: s.speed });
            assert forall|k: int| 0 <= k < ss2.len() implies star_ok(#[trigger] ss2[k]) by {
                assert(star_ok(ss[k]));
            }
            lemma_stars_from(ss2, rng, i + 1);
        }
    }
}

/// The stars' tick keeps a well-formed game well formed.
pub proof fn lemma_step_stars_wf(m: GameModel)
    requires
        m.wf(),
    ensures
        m.step_stars().wf(),
{
    assert forall|k: int| 0 <= k < m.stars.len() implies star_ok(#[trigger] m.stars[k]) by {}
    lemma_stars_from(m.stars, m.rng, 0);
    let r = m.step_stars();
    assert(r.stars_wf());
}

/// The explosions' tick keeps a well-formed game well formed.
pub proof fn lemma_step_explosions_wf(m: GameModel)
    requires
        m.wf(),
    ensures
        m.step_explosions().wf(),
{
    assert forall|k: int| 0 <= k < m.explosions.len() implies explosion_ok(#[trigger] m.explosions[k]) by {}
    lemma_aged(m.explosions, 0);
    let r = m.step_explosions();
    assert(r.explosions_wf());
}

/// The ship's tick keeps a well-formed game well formed: the ship stays on
/// the field and a new bullet leaves from its top.
pub proof fn lemma_step_ship_wf(m: GameModel)
    requires
        m.wf(),
    ensures
        m.step_ship().wf(),
{
    lemma_first_inactive(m.p_bullets, 0);
    let r = m.step_ship();
    assert forall|k: int| 0 <= k < r.p_bullets.len() implies p_bullet_ok(#[trigger] r.p_bullets[k]) by {
        assert(p_bullet_ok(m.p_bullets[k]));
    }
    assert(r.bullets_wf());
}

/// The bullets' tick keeps a well-formed game well formed.
pub proof fn lemma_step_bullets_wf(m: GameModel)
    requires
        m.wf(),
    ensures
        m.step_bullets().wf(),
{
    let r = m.step_bullets();
    assert forall|k: int| 0 <= k < r.p_bullets.len() implies p_bullet_ok(#[trigger] r.p_bullets[k]) by {
        assert(p_bullet_ok(m.p_bullets[k]));
    }
    assert forall|k: int| 0 <= k < r.e_bullets.len() implies e_bullet_ok(#[trigger] r.e_bullets[k]) by {
        assert(e_bullet_ok(m.e_bullets[k]));
    }
    assert(r.bullets_wf());
}

/// The stars of a new game are on the field, and the generator stays nonzero.
pub proof fn lemma_initial_stars(rng: u32, n: nat)
    requires
        rng != 0,
    ensures
        initial_stars(rng, n).0.len() == n,
        forall|k: int| 0 <= k < n ==> star_ok(#[trigger] initial_stars(rng, n).0[k]),
        initial_stars(rng, n).1 != 0,
    decreases n,
{
    if n > 0 {
        lemma_initial_stars(rng, (n - 1) as nat);
        let p = initial_stars(rng, (n - 1) as nat);
        let r1 = xorshift32(p.1);
        xorshift32_nonzero(p.1);
        let r2 = xorshift32(r1);
        xorshift32_nonzero(r1);
        let r3 = xorshift32(r2);
        xorshift32_nonzero(r2);
        let all = initial_stars(rng, n).0;
        assert forall|k: int| 0 <= k < n implies star_ok(#[trigger] all[k]) by {
            if k < n - 1 {
                assert(all[k] == p.0[k]);
            }
        }
    }
}

/// A new game is well formed.
pub proof fn lemma_new_game_wf()
    ensures
        new_game().wf(),
{
    lemma_initial_stars(RNG_SEED, STAR_COUNT as nat);
    let u = unstarted_game();
    assert(u.bullets_wf());
    assert(u.stars_wf());
    lemma_reset_wf(u);
}

} // verus!
