//! The mathematical model of a game: its state as plain values, what a
//! well-formed state is, and what each step of the rules does to a state.
use vstd::prelude::*;
use crate::entities::{
    ship_explosion_color, spec_enemy_color, BULLET_MARGIN, E_BULLET_SPEED, ENEMY_COLS, ENEMY_COUNT,
    ENEMY_H, ENEMY_LEFT, ENEMY_POINTS, ENEMY_ROWS, ENEMY_STRIDE_X, ENEMY_STRIDE_Y, ENEMY_TOP,
    ENEMY_W, EXPLO_LIFE, FIELD_H, FIELD_W, FIRE_COOLDOWN, FORMATION_BASE_SPEED, FORMATION_DROP,
    FORMATION_MARGIN, FORMATION_SPEEDUP, MAX_E_BULLETS, MAX_P_BULLETS, P_BULLET_SPEED, SHIP_H,
    SHIP_MAX_X, SHIP_MIN_X, SHIP_SPEED, SHIP_TOP, SHIP_W, SHIP_Y, STAR_COUNT, STAR_MIN_SPEED,
    STAR_SPEED_RANGE, STAR_UNITS_PER_UNIT, START_LIVES, Bullet, Enemy, Explosion, Star,
};
use crate::rng::{scale_unit, xorshift32, RNG_SEED};
use crate::text::status_text;

verus! {

/// The state of a game, as plain values.
#[verifier::ext_equal]
pub struct GameModel {
    pub ship_x: i32,
    pub left: bool,
    pub right: bool,
    pub fire: bool,
    pub fire_cooldown: i32,
    pub enemies: Seq<Enemy>,
    pub p_bullets: Seq<Bullet>,
    pub e_bullets: Seq<Bullet>,
    pub stars: Seq<Star>,
    pub explosions: Seq<Explosion>,
    pub form_x: i32,
    pub form_dir: i32,
    pub form_step: i32,
    pub score: i32,
    pub lives: i32,
    pub over: bool,
    pub won: bool,
    pub status: Seq<char>,
    pub rng: u32,
}

// ------------------------------------------------------------------
// Enemies

/// Number of living enemies at index `j` or after it.
pub open spec fn count_alive_from(es: Seq<Enemy>, j: int) -> nat
    decreases es.len() - j,
{
    if j >= es.len() {
        0
    } else {
        (if es[j].alive { 1nat } else { 0nat }) + count_alive_from(es, j + 1)
    }
}

/// Number of living enemies.
pub open spec fn count_alive(es: Seq<Enemy>) -> nat {
    count_alive_from(es, 0)
}

/// Index of the living enemy that has `t` living enemies before it, counting
/// from index `j`; the length of `es` when there is none.
pub open spec fn nth_alive_from(es: Seq<Enemy>, t: int, j: int) -> int
    decreases es.len() - j,
{
    if j >= es.len() {
        es.len() as int
    } else if es[j].alive {
        if t == 0 {
            j
        } else {
            nth_alive_from(es, t - 1, j + 1)
        }
    } else {
        nth_alive_from(es, t, j + 1)
    }
}

/// Whether some enemy is alive.
pub open spec fn any_alive(es: Seq<Enemy>) -> bool {
    exists|i: int| 0 <= i < es.len() && #[trigger] es[i].alive
}

/// The `i`-th enemy of a fresh formation, counted row by row.
pub open spec fn formation_enemy(i: int) -> Enemy {
    Enemy {
        x: (ENEMY_LEFT + (i % ENEMY_COLS as int) * ENEMY_STRIDE_X) as i32,
        y: (ENEMY_TOP + (i / ENEMY_COLS as int) * ENEMY_STRIDE_Y) as i32,
        alive: true,
        row: (i / ENEMY_COLS as int) as i32,
    }
}

/// A fresh formation: four rows of eight living enemies.
pub open spec fn formation() -> Seq<Enemy> {
    Seq::new(ENEMY_COUNT as nat, |i: int| formation_enemy(i))
}

/// Speed of the formation when `alive` enemies are left: it speeds up with
/// every destroyed enemy.
pub open spec fn formation_speed(alive: nat) -> int {
    FORMATION_BASE_SPEED + (ENEMY_COUNT - alive) * FORMATION_SPEEDUP
}

/// Whether a living enemy's right edge would reach the right margin after
/// the formation moves by `d`.
pub open spec fn hits_right_edge(es: Seq<Enemy>, fx: int, d: int) -> bool {
    exists|i: int|
        0 <= i < es.len() && #[trigger] es[i].alive && es[i].x + fx + ENEMY_W + d >= FIELD_W
            - FORMATION_MARGIN
}

/// Whether a living enemy's left edge would reach the left margin after the
/// formation moves by `d`.
pub open spec fn hits_left_edge(es: Seq<Enemy>, fx: int, d: int) -> bool {
    exists|i: int| 0 <= i < es.len() && #[trigger] es[i].alive && es[i].x + fx + d <= FORMATION_MARGIN
}

/// Whether a living enemy's bottom has come down to the top of the ship.
pub open spec fn reached_ship(es: Seq<Enemy>, fs: int) -> bool {
    exists|i: int| 0 <= i < es.len() && #[trigger] es[i].alive && es[i].y + fs + ENEMY_H >= SHIP_TOP
}

// ------------------------------------------------------------------
// Bullets

/// Index of the first free slot of a bullet pool at `j` or after it; the
/// length of the pool when every slot is taken.
pub open spec fn first_inactive_from(bs: Seq<Bullet>, j: int) -> int
    decreases bs.len() - j,
{
    if j >= bs.len() {
        bs.len() as int
    } else if !bs[j].active {
        j
    } else {
        first_inactive_from(bs, j + 1)
    }
}

/// A player's bullet after one tick: it climbs, and retires above the field.
pub open spec fn move_player_bullet(b: Bullet) -> Bullet {
    if !b.active {
        b
    } else {
        Bullet {
            x: b.x,
            y: (b.y - P_BULLET_SPEED) as i32,
            active: b.y - P_BULLET_SPEED >= -BULLET_MARGIN,
        }
    }
}

/// An enemy bullet after one tick: it falls, and retires below the field.
pub open spec fn move_enemy_bullet(b: Bullet) -> Bullet {
    if !b.active {
        b
    } else {
        Bullet {
            x: b.x,
            y: (b.y + E_BULLET_SPEED) as i32,
            active: b.y + E_BULLET_SPEED <= FIELD_H + BULLET_MARGIN,
        }
    }
}

/// A bullet with its slot freed.
pub open spec fn retired(b: Bullet) -> Bullet {
    Bullet { x: b.x, y: b.y, active: false }
}

/// Whether an active player's bullet lies within the box of a living enemy
/// of a formation at offset (`fx`, `fs`).
pub open spec fn hits(b: Bullet, e: Enemy, fx: int, fs: int) -> bool {
    &&& e.alive
    &&& b.x >= e.x + fx
    &&& b.x <= e.x + fx + ENEMY_W
    &&& b.y >= e.y + fs
    &&& b.y <= e.y + fs + ENEMY_H
}

/// Index of the first enemy at `j` or after it that the bullet hits; the
/// length of `es` when it hits none.
pub open spec fn first_hit_from(es: Seq<Enemy>, b: Bullet, fx: int, fs: int, j: int) -> int
    decreases es.len() - j,
{
    if j >= es.len() {
        es.len() as int
    } else if hits(b, es[j], fx, fs) {
        j
    } else {
        first_hit_from(es, b, fx, fs, j + 1)
    }
}

/// The explosion of an enemy destroyed with the formation at (`fx`, `fs`).
pub open spec fn enemy_explosion(e: Enemy, fx: int, fs: int) -> Explosion {
    Explosion {
        x: (e.x + fx + ENEMY_W / 2) as i32,
        y: (e.y + fs + ENEMY_H / 2) as i32,
        age: 0,
        color: spec_enemy_color(e.row),
    }
}

/// The player's bullets from index `i` on, taken in order, each destroying
/// the first living enemy it hits: the bullets, the enemies and the
/// explosions that result.
pub open spec fn resolve_from(bs: Seq<Bullet>, es: Seq<Enemy>, fx: int, fs: int, i: int) -> (
    Seq<Bullet>,
    Seq<Enemy>,
    Seq<Explosion>,
)
    decreases bs.len() - i,
{
    if i < 0 || i >= bs.len() {
        (bs, es, Seq::empty())
    } else {
        let b = bs[i];
        let k = first_hit_from(es, b, fx, fs, 0);
        if b.active && k < es.len() {
            let r = resolve_from(
                bs.update(i, retired(b)),
                es.update(k, Enemy { alive: false, ..es[k] }),
                fx,
                fs,
                i + 1,
            );
            (r.0, r.1, seq![enemy_explosion(es[k], fx, fs)] + r.2)
        } else {
            resolve_from(bs, es, fx, fs, i + 1)
        }
    }
}

/// Whether an active enemy bullet lies within the box of the ship.
pub open spec fn ship_hit(b: Bullet, ship_x: int) -> bool {
    &&& b.active
    &&& b.x >= ship_x - SHIP_W / 2
    &&& b.x <= ship_x + SHIP_W / 2
    &&& b.y >= SHIP_TOP
    &&& b.y <= SHIP_Y
}

/// An enemy bullet after the collision check with the ship.
pub open spec fn after_ship_check(b: Bullet, ship_x: int) -> Bullet {
    if ship_hit(b, ship_x) {
        retired(b)
    } else {
        b
    }
}

/// The explosion of the ship.
pub open spec fn ship_explosion(ship_x: i32) -> Explosion {
    Explosion { x: ship_x, y: (SHIP_Y - SHIP_H / 2) as i32, age: 0, color: ship_explosion_color() }
}

// ------------------------------------------------------------------
// Stars and explosions

/// A star built from three draws of the generator: at the fractions
/// `r1 / 2^32` of the field's width and `r2 / 2^32` of its height, with a speed
/// of the slowest speed and the fraction `r3 / 2^32` of the range above it.
pub open spec fn new_star(r1: u32, r2: u32, r3: u32) -> Star {
    Star {
        x: (FIELD_W * r1) as i64,
        y: (FIELD_H * r2) as i64,
        speed: (STAR_MIN_SPEED * STAR_UNITS_PER_UNIT + STAR_SPEED_RANGE * r3) as i64,
    }
}

/// The first `n` stars of a new game, drawn from the generator in state
/// `rng`, and the generator's state after them.
pub open spec fn initial_stars(rng: u32, n: nat) -> (Seq<Star>, u32)
    decreases n,
{
    if n == 0 {
        (Seq::empty(), rng)
    } else {
        let p = initial_stars(rng, (n - 1) as nat);
        let r1 = xorshift32(p.1);
        let r2 = xorshift32(r1);
        let r3 = xorshift32(r2);
        (p.0.push(new_star(r1, r2, r3)), r3)
    }
}

/// The stars from index `i` on after one tick, and the generator's state:
/// each falls by its speed, and one that leaves the bottom of the field comes
/// back at the top, at a place drawn from the generator.
pub open spec fn stars_from(ss: Seq<Star>, rng: u32, i: int) -> (Seq<Star>, u32)
    decreases ss.len() - i,
{
    if i < 0 || i >= ss.len() {
        (ss, rng)
    } else {
        let s = ss[i];
        let y = s.y + s.speed;
        if y > FIELD_H * STAR_UNITS_PER_UNIT {
            let r = xorshift32(rng);
            stars_from(ss.update(i, Star { x: (FIELD_W * r) as i64, y: 0, speed: s.speed }), r, i + 1)
        } else {
            stars_from(ss.update(i, Star { x: s.x, y: y as i64, speed: s.speed }), rng, i + 1)
        }
    }
}

/// An explosion one tick older.
pub open spec fn older(e: Explosion) -> Explosion {
    Explosion { x: e.x, y: e.y, age: (e.age + 1) as i32, color: e.color }
}

/// The explosions from index `i` on after one tick: each ages by one, and
/// those that reach the end of their life are gone.
pub open spec fn aged_from(es: Seq<Explosion>, i: int) -> Seq<Explosion>
    decreases es.len() - i,
{
    if i >= es.len() {
        Seq::empty()
    } else if es[i].age + 1 < EXPLO_LIFE {
        seq![older(es[i])] + aged_from(es, i + 1)
    } else {
        aged_from(es, i + 1)
    }
}

/// `v` clamped to `[lo, hi]`.
pub open spec fn clamp(v: int, lo: int, hi: int) -> int {
    if v < lo {
        lo
    } else if v > hi {
        hi
    } else {
        v
    }
}

// ------------------------------------------------------------------
// The rules, step by step

impl GameModel {
    /// The state with its status line brought up to date.
    pub open spec fn update_status(self) -> GameModel {
        GameModel { status: status_text(self.score, self.lives, self.won, self.over), ..self }
    }

    /// A new game: the formation, score 0, three lives, the ship centred.
    /// The stars and the generator are kept.
    pub open spec fn reset(self) -> GameModel {
        GameModel {
            score: 0,
            lives: START_LIVES,
            over: false,
            won: false,
            left: false,
            right: false,
            fire: false,
            fire_cooldown: 0,
            ship_x: (FIELD_W / 2) as i32,
            form_x: 0,
            form_dir: 1,
            form_step: 0,
            enemies: formation(),
            p_bullets: self.p_bullets.map_values(|b: Bullet| retired(b)),
            e_bullets: self.e_bullets.map_values(|b: Bullet| retired(b)),
            explosions: Seq::empty(),
            status: status_text(0, START_LIVES, false, false),
            ..self
        }
    }

    /// The stars after one tick.
    pub open spec fn step_stars(self) -> GameModel {
        let p = stars_from(self.stars, self.rng, 0);
        GameModel { stars: p.0, rng: p.1, ..self }
    }

    /// The explosions after one tick.
    pub open spec fn step_explosions(self) -> GameModel {
        GameModel { explosions: aged_from(self.explosions, 0), ..self }
    }

    /// The ship after one tick: it moves with the held directions, stays on
    /// the field, and fires into the first free slot when the trigger is
    /// held and the cooldown has run out.
    pub open spec fn step_ship(self) -> GameModel {
        let x1 = if self.left { self.ship_x - SHIP_SPEED } else { self.ship_x as int };
        let x2 = if self.right { x1 + SHIP_SPEED } else { x1 };
        let x = clamp(x2, SHIP_MIN_X as int, SHIP_MAX_X as int);
        let cd = if self.fire_cooldown > 0 { self.fire_cooldown - 1 } else { self.fire_cooldown as int };
        let j = first_inactive_from(self.p_bullets, 0);
        if self.fire && cd == 0 && j < self.p_bullets.len() {
            GameModel {
                ship_x: x as i32,
                fire_cooldown: FIRE_COOLDOWN,
                p_bullets: self.p_bullets.update(j, Bullet { x: x as i32, y: SHIP_TOP, active: true }),
                ..self
            }
        } else {
            GameModel { ship_x: x as i32, fire_cooldown: cd as i32, ..self }
        }
    }

    /// The formation after one tick. With no enemy left the game is won.
    /// Otherwise the formation moves sideways, faster as it thins out; when
    /// an edge would reach a margin it turns and descends; and when an enemy
    /// comes down to the ship the game is lost.
    pub open spec fn step_enemies(self) -> GameModel {
        if !any_alive(self.enemies) {
            GameModel { won: true, over: true, ..self }.update_status()
        } else {
            let d = self.form_dir * formation_speed(count_alive(self.enemies));
            let fx = self.form_x + d;
            let turn_left = hits_right_edge(self.enemies, self.form_x as int, d);
            let turn_right = !turn_left && hits_left_edge(self.enemies, self.form_x as int, d);
            let dir: i32 = if turn_left { -1i32 } else if turn_right { 1i32 } else { self.form_dir };
            let fs = if turn_left || turn_right { self.form_step + FORMATION_DROP } else { self.form_step as int };
            let moved = GameModel { form_x: fx as i32, form_dir: dir, form_step: fs as i32, ..self };
            if reached_ship(self.enemies, fs) {
                GameModel { lives: 0, over: true, ..moved }.update_status()
            } else {
                moved
            }
        }
    }

    /// The bullets after one tick.
    pub open spec fn step_bullets(self) -> GameModel {
        GameModel {
            p_bullets: self.p_bullets.map_values(|b: Bullet| move_player_bullet(b)),
            e_bullets: self.e_bullets.map_values(|b: Bullet| move_enemy_bullet(b)),
            ..self
        }
    }

    /// The collisions of one tick. Each active player's bullet, in order,
    /// destroys the first living enemy it hits, for 100 points and an
    /// explosion. Every enemy bullet within the ship retires; if any did,
    /// the ship explodes and a life is lost, and with the last life the game.
    pub open spec fn check_collisions(self) -> GameModel {
        let r = resolve_from(self.p_bullets, self.enemies, self.form_x as int, self.form_step as int, 0);
        let hit = exists|i: int|
            0 <= i < self.e_bullets.len() && #[trigger] ship_hit(self.e_bullets[i], self.ship_x as int);
        let shot = GameModel {
            p_bullets: r.0,
            enemies: r.1,
            explosions: self.explosions + r.2,
            score: (self.score + ENEMY_POINTS * r.2.len()) as i32,
            e_bullets: self.e_bullets.map_values(|b: Bullet| after_ship_check(b, self.ship_x as int)),
            ..self
        };
        if hit {
            let lives = self.lives - 1;
            GameModel {
                explosions: shot.explosions.push(ship_explosion(self.ship_x)),
                lives: (if lives < 0 { 0 } else { lives }) as i32,
                over: self.over || lives <= 0,
                ..shot
            }.update_status()
        } else {
            shot.update_status()
        }
    }

    /// The enemies' fire of one tick: with chance 6/100 a living enemy,
    /// drawn at random, drops a bullet into the first free slot.
    pub open spec fn maybe_enemy_fire(self) -> GameModel {
        let r1 = xorshift32(self.rng);
        let alive = count_alive(self.enemies);
        if r1 as int * 100 > 6 * 0x1_0000_0000 || alive == 0 {
            GameModel { rng: r1, ..self }
        } else {
            let r2 = xorshift32(r1);
            let k = nth_alive_from(self.enemies, scale_unit(r2, alive as int), 0);
            let j = first_inactive_from(self.e_bullets, 0);
            if k < self.enemies.len() && j < self.e_bullets.len() {
                let e = self.enemies[k];
                GameModel {
                    rng: r2,
                    e_bullets: self.e_bullets.update(
                        j,
                        Bullet {
                            x: (e.x + self.form_x + ENEMY_W / 2) as i32,
                            y: (e.y + self.form_step + ENEMY_H) as i32,
                            active: true,
                        },
                    ),
                    ..self
                }
            } else {
                GameModel { rng: r2, ..self }
            }
        }
    }

    /// One tick of the game. The stars and explosions move on even after the
    /// game is over; the rest only while it runs.
    pub open spec fn tick(self) -> GameModel {
        let m = self.step_stars().step_explosions();
        if m.over {
            m
        } else {
            m.step_ship().step_enemies().step_bullets().check_collisions().maybe_enemy_fire()
        }
    }
}


// ------------------------------------------------------------------
// Well-formed states

/// Whether a coordinate stays well within the range of `i32`.
pub open spec fn in_range(v: int) -> bool {
    -100000 <= v <= 100000
}

/// How far past a margin the formation may travel before it turns: more
/// than its greatest speed.
pub open spec fn formation_slack() -> int {
    300
}

/// An enemy within the frame of the formation.
pub open spec fn enemy_in_frame(e: Enemy) -> bool {
    &&& ENEMY_LEFT <= e.x <= ENEMY_LEFT + (ENEMY_COLS - 1) * ENEMY_STRIDE_X
    &&& ENEMY_TOP <= e.y <= ENEMY_TOP + (ENEMY_ROWS - 1) * ENEMY_STRIDE_Y
    &&& 0 <= e.row < ENEMY_ROWS
}

/// A star on the field, with a speed in range.
pub open spec fn star_ok(s: Star) -> bool {
    &&& 0 <= s.x <= FIELD_W * STAR_UNITS_PER_UNIT
    &&& 0 <= s.y <= FIELD_H * STAR_UNITS_PER_UNIT
    &&& STAR_MIN_SPEED * STAR_UNITS_PER_UNIT <= s.speed <= (STAR_MIN_SPEED + STAR_SPEED_RANGE)
        * STAR_UNITS_PER_UNIT
}

/// A living enemy, with the formation at (`fx`, `fs`) moving in direction
/// `dir`, stays on the field, on the side it moves away from, and above the
/// ship while the game runs.
pub open spec fn enemy_placed(e: Enemy, fx: int, fs: int, dir: int, over: bool) -> bool {
    e.alive ==> {
        &&& FORMATION_MARGIN - formation_slack() <= e.x + fx
        &&& e.x + fx + ENEMY_W <= FIELD_W - FORMATION_MARGIN + formation_slack()
        &&& (dir == 1 ==> e.x + fx + ENEMY_W < FIELD_W - FORMATION_MARGIN)
        &&& (dir == -1 ==> e.x + fx > FORMATION_MARGIN)
        &&& e.y + fs + ENEMY_H < SHIP_TOP + FORMATION_DROP
        &&& (!over ==> e.y + fs + ENEMY_H < SHIP_TOP)
    }
}

/// A player's bullet on the field, above its top margin when active.
pub open spec fn p_bullet_ok(b: Bullet) -> bool {
    &&& in_range(b.x as int)
    &&& in_range(b.y as int)
    &&& (b.active ==> b.y >= -BULLET_MARGIN)
}

/// An enemy bullet on the field, above its bottom margin when active.
pub open spec fn e_bullet_ok(b: Bullet) -> bool {
    &&& in_range(b.x as int)
    &&& in_range(b.y as int)
    &&& (b.active ==> b.y <= FIELD_H + BULLET_MARGIN)
}

/// An explosion younger than its lifetime, on the field.
pub open spec fn explosion_ok(e: Explosion) -> bool {
    &&& 0 <= e.age < EXPLO_LIFE
    &&& in_range(e.x as int)
    &&& in_range(e.y as int)
}

impl GameModel {
    /// The formation keeps its 32 enemies, each in the formation's frame.
    pub open spec fn enemies_wf(self) -> bool {
        &&& self.enemies.len() == ENEMY_COUNT
        &&& forall|i: int| 0 <= i < self.enemies.len() ==> enemy_in_frame(#[trigger] self.enemies[i])
    }

    /// The living enemies stay on the field, on the side the formation moves
    /// away from, and above the ship while the game runs.
    pub open spec fn formation_wf(self) -> bool {
        &&& self.form_dir == 1 || self.form_dir == -1
        &&& -50000 <= self.form_x <= 50000
        &&& 0 <= self.form_step <= SHIP_TOP + FORMATION_DROP - ENEMY_H - ENEMY_TOP
        &&& forall|i: int|
            0 <= i < self.enemies.len() ==> enemy_placed(
                #[trigger] self.enemies[i],
                self.form_x as int,
                self.form_step as int,
                self.form_dir as int,
                self.over,
            )
    }

    /// The bullet pools keep their sizes; an active bullet is on the field.
    pub open spec fn bullets_wf(self) -> bool {
        &&& self.p_bullets.len() == MAX_P_BULLETS
        &&& self.e_bullets.len() == MAX_E_BULLETS
        &&& forall|i: int| 0 <= i < self.p_bullets.len() ==> p_bullet_ok(#[trigger] self.p_bullets[i])
        &&& forall|i: int| 0 <= i < self.e_bullets.len() ==> e_bullet_ok(#[trigger] self.e_bullets[i])
    }

    /// The stars keep their number, their place on the field and their speeds.
    pub open spec fn stars_wf(self) -> bool {
        &&& self.stars.len() == STAR_COUNT
        &&& forall|i: int| 0 <= i < self.stars.len() ==> star_ok(#[trigger] self.stars[i])
    }

    /// Every explosion is younger than its lifetime.
    pub open spec fn explosions_wf(self) -> bool {
        forall|i: int| 0 <= i < self.explosions.len() ==> explosion_ok(#[trigger] self.explosions[i])
    }

    /// The score counts the destroyed enemies; a game with no life left, or
    /// won, is over; a won game has no enemy left; the status line tells the
    /// score, the lives and how the game ended.
    pub open spec fn record_wf(self) -> bool {
        &&& self.score == ENEMY_POINTS * (ENEMY_COUNT - count_alive(self.enemies))
        &&& 0 <= self.lives <= START_LIVES
        &&& (self.lives == 0 ==> self.over)
        &&& (self.won ==> self.over && count_alive(self.enemies) == 0)
        &&& self.status == status_text(self.score, self.lives, self.won, self.over)
    }

    /// A well-formed state: what every operation of the game keeps.
    pub open spec fn wf(self) -> bool {
        &&& self.enemies_wf()
        &&& self.formation_wf()
        &&& self.bullets_wf()
        &&& self.stars_wf()
        &&& self.explosions_wf()
        &&& self.record_wf()
        &&& SHIP_MIN_X <= self.ship_x <= SHIP_MAX_X
        &&& 0 <= self.fire_cooldown <= FIRE_COOLDOWN
        &&& self.rng != 0
    }
}

/// A new game before its formation is set up: the stars drawn, the bullet
/// pools empty.
pub open spec fn unstarted_game() -> GameModel {
    let p = initial_stars(RNG_SEED, STAR_COUNT as nat);
    GameModel {
        ship_x: (FIELD_W / 2) as i32,
        left: false,
        right: false,
        fire: false,
        fire_cooldown: 0,
        enemies: Seq::empty(),
        p_bullets: Seq::new(MAX_P_BULLETS as nat, |i: int| Bullet { x: 0, y: 0, active: false }),
        e_bullets: Seq::new(MAX_E_BULLETS as nat, |i: int| Bullet { x: 0, y: 0, active: false }),
        stars: p.0,
        explosions: Seq::empty(),
        form_x: 0,
        form_dir: 1,
        form_step: 0,
        score: 0,
        lives: START_LIVES,
        over: false,
        won: false,
        status: Seq::empty(),
        rng: p.1,
    }
}

/// The state of a new game.
pub open spec fn new_game() -> GameModel {
    unstarted_game().reset()
}

} // verus!
