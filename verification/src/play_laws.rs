//! Laws of play: how the ship, the bullets and the formation move in a tick,
//! stated in the game's own terms and proved over the model.
use vstd::prelude::*;
use crate::entities::{
    spec_enemy_color, Explosion,
    Star, STAR_UNITS_PER_UNIT,
    Bullet, Enemy, BULLET_MARGIN, ENEMY_COUNT, ENEMY_H, ENEMY_W, E_BULLET_SPEED, FIELD_H, FIELD_W,
    FIRE_COOLDOWN, FORMATION_BASE_SPEED, FORMATION_DROP, FORMATION_MARGIN, FORMATION_SPEEDUP,
    P_BULLET_SPEED, SHIP_H, SHIP_MAX_X, SHIP_MIN_X, SHIP_SPEED, SHIP_Y,
};
use crate::lemmas::{lemma_first_hit, lemma_first_inactive};
use crate::rng::xorshift32;
use crate::model::{enemy_explosion, ship_explosion, ship_hit, stars_from, e_bullet_ok, p_bullet_ok, count_alive, first_hit_from, resolve_from, retired, GameModel};

verus! {

/// Law: the ship moves 5 pixels a tick towards the one direction held,
/// stopping at the field's edges, and stays put when both or neither are held.
pub proof fn ship_moves_with_held_direction(m: GameModel)
    requires
        SHIP_MIN_X <= m.ship_x <= SHIP_MAX_X,
    ensures
        SHIP_MIN_X <= m.step_ship().ship_x <= SHIP_MAX_X,
        m.left == m.right ==> m.step_ship().ship_x == m.ship_x,
        m.left && !m.right ==> m.step_ship().ship_x == (if m.ship_x - SHIP_SPEED < SHIP_MIN_X {
            SHIP_MIN_X as int
        } else {
            m.ship_x - SHIP_SPEED
        }),
        m.right && !m.left ==> m.step_ship().ship_x == (if m.ship_x + SHIP_SPEED > SHIP_MAX_X {
            SHIP_MAX_X as int
        } else {
            m.ship_x + SHIP_SPEED
        }),
{
}

/// Law: the ship's bullets leave from its nose. A tick of the ship leaves
/// every bullet in flight alone; a new bullet appears only with the trigger
/// held and the cooldown run out, at the centre of the ship's top, and
/// restarts the cooldown; and with the trigger held, the cooldown run out
/// and a free slot, a bullet does appear.
pub proof fn ship_fires_from_its_nose(m: GameModel)
    ensures
        m.step_ship().p_bullets.len() == m.p_bullets.len(),
        forall|j: int|
            0 <= j < m.p_bullets.len() && m.p_bullets[j].active ==> #[trigger] m.step_ship().p_bullets[j]
                == m.p_bullets[j],
        forall|j: int|
            0 <= j < m.p_bullets.len() && !m.p_bullets[j].active && (
            #[trigger] m.step_ship().p_bullets[j]).active ==> {
                &&& m.step_ship().p_bullets[j] == Bullet {
                    x: m.step_ship().ship_x,
                    y: (SHIP_Y - SHIP_H) as i32,
                    active: true,
                }
                &&& m.fire
                &&& m.fire_cooldown <= 1
                &&& m.step_ship().fire_cooldown == FIRE_COOLDOWN
            },
        m.fire && m.fire_cooldown <= 1 && 0 <= m.fire_cooldown && (exists|j: int|
            0 <= j < m.p_bullets.len() && !(#[trigger] m.p_bullets[j]).active) ==> exists|j: int|
            0 <= j < m.p_bullets.len() && !m.p_bullets[j].active && (
            #[trigger] m.step_ship().p_bullets[j]).active,
{
    lemma_first_inactive(m.p_bullets, 0);
    let j = crate::model::first_inactive_from(m.p_bullets, 0);
    if m.fire && m.fire_cooldown <= 1 && 0 <= m.fire_cooldown && (exists|jj: int|
        0 <= jj < m.p_bullets.len() && !(#[trigger] m.p_bullets[jj]).active) {
        let jj = choose|jj: int| 0 <= jj < m.p_bullets.len() && !(#[trigger] m.p_bullets[jj]).active;
        assert(j <= jj);
        assert(j < m.p_bullets.len());
        assert(m.step_ship().p_bullets[j].active);
    }
}

/// Law: bullets fly straight. In a tick a player's bullet in flight climbs
/// 9 pixels and an enemy bullet falls 4; each retires once more than 8 pixels
/// past its edge of the field; free slots stay as they are.
pub proof fn bullets_fly_straight(m: GameModel)
    requires
        m.bullets_wf(),
    ensures
        m.step_bullets().p_bullets.len() == m.p_bullets.len(),
        m.step_bullets().e_bullets.len() == m.e_bullets.len(),
        forall|j: int|
            0 <= j < m.p_bullets.len() ==> {
                let b = m.p_bullets[j];
                let n = #[trigger] m.step_bullets().p_bullets[j];
                &&& !b.active ==> n == b
                &&& b.active ==> n.x == b.x && n.y == b.y - P_BULLET_SPEED && n.active == (b.y
                    - P_BULLET_SPEED >= -BULLET_MARGIN)
            },
        forall|j: int|
            0 <= j < m.e_bullets.len() ==> {
                let b = m.e_bullets[j];
                let n = #[trigger] m.step_bullets().e_bullets[j];
                &&& !b.active ==> n == b
                &&& b.active ==> n.x == b.x && n.y == b.y + E_BULLET_SPEED && n.active == (b.y
                    + E_BULLET_SPEED <= FIELD_H + BULLET_MARGIN)
            },
{
    assert forall|j: int| 0 <= j < m.p_bullets.len() implies {
        let b = m.p_bullets[j];
        let n = #[trigger] m.step_bullets().p_bullets[j];
        &&& !b.active ==> n == b
        &&& b.active ==> n.x == b.x && n.y == b.y - P_BULLET_SPEED && n.active == (b.y - P_BULLET_SPEED
            >= -BULLET_MARGIN)
    } by {
        assert(p_bullet_ok(m.p_bullets[j]));
    }
    assert forall|j: int| 0 <= j < m.e_bullets.len() implies {
        let b = m.e_bullets[j];
        let n = #[trigger] m.step_bullets().e_bullets[j];
        &&& !b.active ==> n == b
        &&& b.active ==> n.x == b.x && n.y == b.y + E_BULLET_SPEED && n.active == (b.y + E_BULLET_SPEED
            <= FIELD_H + BULLET_MARGIN)
    } by {
        assert(e_bullet_ok(m.e_bullets[j]));
    }
}

/// Law: a formation step of a running game with living enemies moves the
/// formation sideways by 0.8 pixels plus 0.06 for each destroyed enemy, in
/// its direction. If a living enemy's right edge would then come within 6
/// pixels of the right edge of the field, it turns left and descends 14
/// pixels; otherwise, if a living enemy's left edge would come within 6
/// pixels of the left edge, it turns right and descends; otherwise it keeps
/// its direction and height.
pub proof fn formation_sweeps_and_descends(m: GameModel)
    requires
        m.wf(),
        !m.over,
        exists|i: int| 0 <= i < m.enemies.len() && #[trigger] m.enemies[i].alive,
    ensures
        ({
            let n = m.step_enemies();
            let d = m.form_dir * (FORMATION_BASE_SPEED + FORMATION_SPEEDUP * (ENEMY_COUNT - count_alive(
                m.enemies,
            )));
            let right = exists|k: int|
                0 <= k < m.enemies.len() && (#[trigger] m.enemies[k]).alive && m.enemies[k].x + m.form_x
                    + ENEMY_W + d >= FIELD_W - FORMATION_MARGIN;
            let left = exists|k: int|
                0 <= k < m.enemies.len() && (#[trigger] m.enemies[k]).alive && m.enemies[k].x + m.form_x
                    + d <= FORMATION_MARGIN;
            &&& n.form_x == m.form_x + d
            &&& right ==> n.form_dir == -1 && n.form_step == m.form_step + FORMATION_DROP
            &&& !right && left ==> n.form_dir == 1 && n.form_step == m.form_step + FORMATION_DROP
            &&& !right && !left ==> n.form_dir == m.form_dir && n.form_step == m.form_step
            &&& n.score == m.score
            &&& n.enemies == m.enemies
        }),
{
    crate::lemmas::lemma_step_enemies_wf(m);
    crate::lemmas::lemma_count_bound(m.enemies, 0);
    let n = m.step_enemies();
    assert(-50000 <= n.form_x <= 50000);
}

/// Law: a formation step of a running game whose enemies are all destroyed
/// wins it, and moves nothing.
pub proof fn clearing_the_formation_wins(m: GameModel)
    requires
        forall|i: int| 0 <= i < m.enemies.len() ==> !(#[trigger] m.enemies[i]).alive,
    ensures
        m.step_enemies().won,
        m.step_enemies().over,
        m.step_enemies().lives == m.lives,
        m.step_enemies().form_x == m.form_x,
        m.step_enemies().form_step == m.form_step,
        m.step_enemies().form_dir == m.form_dir,
{
}

/// Whether a bullet lies within the box of an enemy of a formation at (`fx`, `fs`).
pub open spec fn within_box(b: Bullet, e: Enemy, fx: int, fs: int) -> bool {
    e.x + fx <= b.x <= e.x + fx + ENEMY_W && e.y + fs <= b.y <= e.y + fs + ENEMY_H
}

/// Every enemy destroyed by resolving the bullets from `i` on was alive, and
/// had an active bullet from `i` on within its box.
proof fn lemma_destroyed_were_hit(bs: Seq<Bullet>, es: Seq<Enemy>, fx: int, fs: int, i: int)
    requires
        0 <= i <= bs.len(),
    ensures
        resolve_from(bs, es, fx, fs, i).1.len() == es.len(),
        forall|k: int|
            0 <= k < es.len() && !(#[trigger] resolve_from(bs, es, fx, fs, i).1[k]).alive && es[k].alive
                ==> exists|j: int|
                i <= j < bs.len() && (#[trigger] bs[j]).active && within_box(bs[j], es[k], fx, fs),
        forall|k: int|
            0 <= k < es.len() ==> (#[trigger] resolve_from(bs, es, fx, fs, i).1[k]).alive ==> es[k].alive,
    decreases bs.len() - i,
{
    if i < bs.len() {
        let b = bs[i];
        let k0 = first_hit_from(es, b, fx, fs, 0);
        lemma_first_hit(es, b, fx, fs, 0);
        if b.active && k0 < es.len() {
            let bs2 = bs.update(i, retired(b));
            let es2 = es.update(k0, Enemy { alive: false, ..es[k0] });
            lemma_destroyed_were_hit(bs2, es2, fx, fs, i + 1);
            let r = resolve_from(bs2, es2, fx, fs, i + 1);
            assert forall|k: int|
                0 <= k < es.len() && !(#[trigger] r.1[k]).alive && es[k].alive implies exists|j: int|
                i <= j < bs.len() && (#[trigger] bs[j]).active && within_box(bs[j], es[k], fx, fs) by {
                if k == k0 {
                    assert(bs[i].active && within_box(bs[i], es[k], fx, fs));
                } else {
                    assert(es2[k] == es[k]);
                    let j = choose|j: int|
                        i + 1 <= j < bs2.len() && (#[trigger] bs2[j]).active && within_box(
                            bs2[j],
                            es2[k],
                            fx,
                            fs,
                        );
                    assert(bs2[j] == bs[j]);
                }
            }
            assert forall|k: int| 0 <= k < es.len() implies (#[trigger] r.1[k]).alive ==> es[k].alive by {
                assert(r.1[k].alive ==> es2[k].alive);
            }
        } else {
            lemma_destroyed_were_hit(bs, es, fx, fs, i + 1);
            let r = resolve_from(bs, es, fx, fs, i + 1);
            assert forall|k: int|
                0 <= k < es.len() && !(#[trigger] r.1[k]).alive && es[k].alive implies exists|j: int|
                i <= j < bs.len() && (#[trigger] bs[j]).active && within_box(bs[j], es[k], fx, fs) by {
                let j = choose|j: int|
                    i + 1 <= j < bs.len() && (#[trigger] bs[j]).active && within_box(bs[j], es[k], fx, fs);
            }
        }
    }
}

/// Law: the collisions destroy only living enemies that an active player's
/// bullet lies within, where the enemy stands on screen, and never revive
/// one.
pub proof fn only_hit_enemies_are_destroyed(m: GameModel)
    ensures
        m.check_collisions().enemies.len() == m.enemies.len(),
        forall|k: int|
            0 <= k < m.enemies.len() && m.enemies[k].alive && !(
            #[trigger] m.check_collisions().enemies[k]).alive ==> exists|j: int|
                0 <= j < m.p_bullets.len() && (#[trigger] m.p_bullets[j]).active && within_box(
                    m.p_bullets[j],
                    m.enemies[k],
                    m.form_x as int,
                    m.form_step as int,
                ),
        forall|k: int|
            0 <= k < m.enemies.len() && (#[trigger] m.check_collisions().enemies[k]).alive
                ==> m.enemies[k].alive,
{
    lemma_destroyed_were_hit(m.p_bullets, m.enemies, m.form_x as int, m.form_step as int, 0);
}

/// The fraction `r / 2^32` of the field's width, in star units.
pub open spec fn width_fraction(r: u32) -> int {
    FIELD_W * r
}

/// What a tick does to one star: it falls by its speed, or, leaving the
/// bottom of the field, comes back at the top, at the draw `r`'s fraction of
/// the field's width.
pub open spec fn star_fell(s: Star, n: Star) -> bool {
    if s.y + s.speed <= FIELD_H * STAR_UNITS_PER_UNIT {
        n == Star { x: s.x, y: (s.y + s.speed) as i64, speed: s.speed }
    } else {
        n.y == 0 && n.speed == s.speed && exists|r: u32| n.x == #[trigger] width_fraction(r)
    }
}

/// The stars from `i` on fall, those before `i` stay.
proof fn lemma_stars_fall(ss: Seq<Star>, rng: u32, i: int)
    requires
        0 <= i <= ss.len(),
    ensures
        stars_from(ss, rng, i).0.len() == ss.len(),
        forall|k: int| 0 <= k < i ==> #[trigger] stars_from(ss, rng, i).0[k] == ss[k],
        forall|k: int| i <= k < ss.len() ==> star_fell(ss[k], #[trigger] stars_from(ss, rng, i).0[k]),
    decreases ss.len() - i,
{
    if i < ss.len() {
        let s = ss[i];
        let y = s.y + s.speed;
        if y > FIELD_H * STAR_UNITS_PER_UNIT {
            let r = xorshift32(rng);
            let ss2 = ss.update(i, Star { x: (FIELD_W * r) as i64, y: 0, speed: s.speed });
            lemma_stars_fall(ss2, r, i + 1);
            let res = stars_from(ss2, r, i + 1).0;
            assert(res[i] == ss2[i]);
            assert(res[i].x == width_fraction(r));
            assert(star_fell(ss[i], res[i]));
            assert forall|k: int| i <= k < ss.len() implies star_fell(ss[k], #[trigger] res[k]) by {
                if k > i {
                    assert(ss2[k] == ss[k]);
                }
            }
        } else {
            let ss2 = ss.update(i, Star { x: s.x, y: y as i64, speed: s.speed });
            lemma_stars_fall(ss2, rng, i + 1);
            let res = stars_from(ss2, rng, i + 1).0;
            assert(res[i] == ss2[i]);
            assert forall|k: int| i <= k < ss.len() implies star_fell(ss[k], #[trigger] res[k]) by {
                if k > i {
                    assert(ss2[k] == ss[k]);
                }
            }
        }
    }
}

/// Law: in a tick each star falls by its own speed, and a star that leaves
/// the bottom of the field comes back at its top, at a fraction of its width
/// drawn from the generator, with its speed.
pub proof fn stars_fall_and_come_back(m: GameModel)
    ensures
        m.step_stars().stars.len() == m.stars.len(),
        forall|k: int| 0 <= k < m.stars.len() ==> star_fell(m.stars[k], #[trigger] m.step_stars().stars[k]),
{
    lemma_stars_fall(m.stars, m.rng, 0);
}

/// Whether each explosion of `booms` is at the centre of an enemy of `es`,
/// on a formation at (`fx`, `fs`), that was alive and is dead in `after`, in
/// the colour of that enemy's row.
pub open spec fn marks_kills(
    es: Seq<Enemy>,
    after: Seq<Enemy>,
    booms: Seq<Explosion>,
    fx: int,
    fs: int,
) -> bool {
    forall|q: int|
        #![trigger booms[q]]
        0 <= q < booms.len() ==> exists|k: int|
            0 <= k < es.len() && es[k].alive && !(#[trigger] after[k]).alive && booms[q] == (Explosion {
                x: (es[k].x + fx + ENEMY_W / 2) as i32,
                y: (es[k].y + fs + ENEMY_H / 2) as i32,
                age: 0,
                color: spec_enemy_color(es[k].row),
            })
}

/// Each explosion of resolving the bullets from `i` on is at the centre of an
/// enemy it destroyed, in the colour of that enemy's row.
proof fn lemma_explosions_mark_kills(bs: Seq<Bullet>, es: Seq<Enemy>, fx: int, fs: int, i: int)
    requires
        0 <= i <= bs.len(),
    ensures
        marks_kills(es, resolve_from(bs, es, fx, fs, i).1, resolve_from(bs, es, fx, fs, i).2, fx, fs),
    decreases bs.len() - i,
{
    let res = resolve_from(bs, es, fx, fs, i);
    if i < bs.len() {
        let b = bs[i];
        let k0 = first_hit_from(es, b, fx, fs, 0);
        lemma_first_hit(es, b, fx, fs, 0);
        if b.active && k0 < es.len() {
            let bs2 = bs.update(i, retired(b));
            let es2 = es.update(k0, Enemy { alive: false, ..es[k0] });
            lemma_explosions_mark_kills(bs2, es2, fx, fs, i + 1);
            lemma_destroyed_were_hit(bs2, es2, fx, fs, i + 1);
            let r = resolve_from(bs2, es2, fx, fs, i + 1);
            let all = seq![enemy_explosion(es[k0], fx, fs)] + r.2;
            assert(res.2 == all);
            assert(res.1 == r.1);
            assert(!r.1[k0].alive);
            assert forall|q: int|
                #![trigger res.2[q]]
                0 <= q < res.2.len() implies exists|k: int|
                0 <= k < es.len() && es[k].alive && !(#[trigger] res.1[k]).alive && res.2[q] == (
                Explosion {
                    x: (es[k].x + fx + ENEMY_W / 2) as i32,
                    y: (es[k].y + fs + ENEMY_H / 2) as i32,
                    age: 0,
                    color: spec_enemy_color(es[k].row),
                }) by {
                assert(res.2[q] == all[q]);
                if q == 0 {
                    assert(!res.1[k0].alive);
                    assert(all[0] == enemy_explosion(es[k0], fx, fs));
                } else {
                    assert(all[q] == r.2[q - 1]);
                    let k = choose|k: int|
                        0 <= k < es2.len() && es2[k].alive && !(#[trigger] r.1[k]).alive && r.2[q - 1]
                            == (Explosion {
                            x: (es2[k].x + fx + ENEMY_W / 2) as i32,
                            y: (es2[k].y + fs + ENEMY_H / 2) as i32,
                            age: 0,
                            color: spec_enemy_color(es2[k].row),
                        });
                    assert(k != k0);
                    assert(es2[k] == es[k]);
                    assert(!res.1[k].alive);
                }
            }
            assert(marks_kills(es, res.1, res.2, fx, fs));
        } else {
            lemma_explosions_mark_kills(bs, es, fx, fs, i + 1);
            assert(res == resolve_from(bs, es, fx, fs, i + 1));
        }
    } else {
        assert(res.2 =~= Seq::<Explosion>::empty());
    }
}

/// Law: the collisions add one explosion for each destroyed enemy, at the
/// centre of where it stood on screen and in the colour of its row, after
/// the explosions already under way, then one for the ship if an enemy bullet
/// hit it.
pub proof fn destroyed_enemies_explode(m: GameModel)
    requires
        m.wf(),
    ensures
        m.explosions.is_prefix_of(m.check_collisions().explosions),
        m.check_collisions().explosions.len() == m.explosions.len() + (count_alive(m.enemies)
            - count_alive(m.check_collisions().enemies)) + (if exists|i: int|
            0 <= i < m.e_bullets.len() && m.e_bullets[i].active
                && !(#[trigger] m.check_collisions().e_bullets[i]).active {
            1int
        } else {
            0int
        }),
        marks_kills(
            m.enemies,
            m.check_collisions().enemies,
            m.check_collisions().explosions.subrange(
                m.explosions.len() as int,
                m.explosions.len() + count_alive(m.enemies) - count_alive(m.check_collisions().enemies),
            ),
            m.form_x as int,
            m.form_step as int,
        ),
{
    let fx = m.form_x as int;
    let fs = m.form_step as int;
    lemma_explosions_mark_kills(m.p_bullets, m.enemies, fx, fs, 0);
    assert forall|k: int| 0 <= k < m.enemies.len() implies crate::model::enemy_in_frame(
        #[trigger] m.enemies[k],
    ) by {}
    assert forall|k: int| 0 <= k < m.p_bullets.len() implies p_bullet_ok(#[trigger] m.p_bullets[k]) by {}
    assert forall|k: int|
        0 <= k < m.enemies.len() && (#[trigger] m.enemies[k]).alive implies crate::model::in_range(
        m.enemies[k].x + fx + ENEMY_W / 2,
    ) && crate::model::in_range(m.enemies[k].y + fs + ENEMY_H / 2) by {
        assert(crate::model::enemy_placed(m.enemies[k], fx, fs, m.form_dir as int, m.over));
        assert(crate::model::enemy_in_frame(m.enemies[k]));
    }
    crate::lemmas::lemma_resolve(m.p_bullets, m.enemies, fx, fs, 0);
    let r = resolve_from(m.p_bullets, m.enemies, fx, fs, 0);
    let n = m.check_collisions();
    assert(n.enemies == r.1);
    let shiphit = exists|i: int|
        0 <= i < m.e_bullets.len() && #[trigger] ship_hit(m.e_bullets[i], m.ship_x as int);
    let hit = exists|i: int|
        0 <= i < m.e_bullets.len() && m.e_bullets[i].active && !(#[trigger] n.e_bullets[i]).active;
    if shiphit {
        let i = choose|i: int| 0 <= i < m.e_bullets.len() && #[trigger] ship_hit(m.e_bullets[i], m.ship_x as int);
        assert(!n.e_bullets[i].active);
        assert(hit);
    } else {
        assert forall|i: int|
            0 <= i < m.e_bullets.len() && m.e_bullets[i].active implies (#[trigger] n.e_bullets[i]).active by {
            assert(!ship_hit(m.e_bullets[i], m.ship_x as int));
        }
        assert(!hit);
    }
    let shot = m.explosions + r.2;
    assert(m.explosions.is_prefix_of(shot));
    assert(m.explosions.is_prefix_of(shot.push(ship_explosion(m.ship_x))));
    let kills = count_alive(m.enemies) - count_alive(n.enemies);
    assert(kills == r.2.len());
    assert(n.explosions.subrange(m.explosions.len() as int, m.explosions.len() + kills) =~= r.2) by {
        if shiphit {
            assert(n.explosions == shot.push(ship_explosion(m.ship_x)));
        } else {
            assert(n.explosions == shot);
        }
    }
}

} // verus!
