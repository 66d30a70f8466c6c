//! The game itself: its state and the operations of its rules, each proved
//! to do what the model says and to keep the state well formed.
use vstd::prelude::*;
use crate::entities::{
    enemy_color, BULLET_MARGIN, E_BULLET_SPEED, ENEMY_COLS, ENEMY_COUNT, ENEMY_H, ENEMY_LEFT,
    ENEMY_POINTS, ENEMY_ROWS, ENEMY_STRIDE_X, ENEMY_STRIDE_Y, ENEMY_TOP, ENEMY_W, EXPLO_LIFE,
    FIELD_H, FIELD_W, FIRE_COOLDOWN, FORMATION_BASE_SPEED, FORMATION_DROP, FORMATION_MARGIN,
    FORMATION_SPEEDUP, MAX_E_BULLETS, MAX_P_BULLETS, P_BULLET_SPEED, SHIP_H, SHIP_MAX_X, SHIP_MIN_X,
    SHIP_SPEED, SHIP_TOP, SHIP_W, SHIP_Y, STAR_COUNT, STAR_MIN_SPEED, STAR_SPEED_RANGE,
    STAR_UNITS_PER_UNIT, START_LIVES, Bullet, Enemy, Explosion, Rgba, Star,
};
use crate::lemmas::{
    lemma_aged, lemma_check_collisions_wf, lemma_count_bound, lemma_count_positive,
    lemma_first_inactive, lemma_formation, lemma_maybe_enemy_fire_wf, lemma_reset_wf, lemma_resolve,
    lemma_step_enemies_wf,
};
use crate::model::{
    after_ship_check, aged_from, any_alive, count_alive, count_alive_from, e_bullet_ok,
    enemy_in_frame, first_hit_from, first_inactive_from, formation, formation_enemy,
    formation_speed, hits_left_edge, hits_right_edge, initial_stars, move_enemy_bullet,
    move_player_bullet, new_game, nth_alive_from, older, p_bullet_ok, reached_ship, resolve_from,
    retired, ship_hit, star_ok, stars_from, GameModel,
};
use crate::rng::{scale_unit_exec, xorshift32, xorshift32_next, xorshift32_nonzero, RNG_SEED};
use crate::text::status_line;

verus! {

/// The state of a game.
pub struct GameState {
    /// Centre of the ship.
    pub ship_x: i32,
    /// Whether "move left" is held.
    pub left: bool,
    /// Whether "move right" is held.
    pub right: bool,
    /// Whether the trigger is held.
    pub fire: bool,
    /// Ticks until the ship may fire again.
    pub fire_cooldown: i32,
    /// The formation, in its own frame.
    pub enemies: Vec<Enemy>,
    /// The pool of the player's bullets.
    pub p_bullets: Vec<Bullet>,
    /// The pool of enemy bullets.
    pub e_bullets: Vec<Bullet>,
    /// The background stars.
    pub stars: Vec<Star>,
    /// The explosions under way.
    pub explosions: Vec<Explosion>,
    /// Horizontal offset of the formation.
    pub form_x: i32,
    /// Direction the formation moves in: 1 to the right, -1 to the left.
    pub form_dir: i32,
    /// How far the formation has descended.
    pub form_step: i32,
    pub score: i32,
    pub lives: i32,
    pub over: bool,
    pub won: bool,
    /// The status line.
    pub status: String,
    /// State of the random number generator.
    pub rng: u32,
}

impl View for GameState {
    type V = GameModel;

    open spec fn view(&self) -> GameModel {
        GameModel {
            ship_x: self.ship_x,
            left: self.left,
            right: self.right,
            fire: self.fire,
            fire_cooldown: self.fire_cooldown,
            enemies: self.enemies@,
            p_bullets: self.p_bullets@,
            e_bullets: self.e_bullets@,
            stars: self.stars@,
            explosions: self.explosions@,
            form_x: self.form_x,
            form_dir: self.form_dir,
            form_step: self.form_step,
            score: self.score,
            lives: self.lives,
            over: self.over,
            won: self.won,
            status: self.status@,
            rng: self.rng,
        }
    }
}

/// Frees every slot of a bullet pool.
fn retire_all(bs: &mut Vec<Bullet>)
    ensures
        final(bs)@ == old(bs)@.map_values(|b: Bullet| retired(b)),
{
    let n = bs.len();
    let mut i: usize = 0;
    while i < n
        invariant
            n == old(bs)@.len(),
            bs@.len() == n,
            0 <= i <= n,
            forall|j: int| 0 <= j < i ==> #[trigger] bs@[j] == retired(old(bs)@[j]),
            forall|j: int| i <= j < n ==> #[trigger] bs@[j] == old(bs)@[j],
        decreases n - i,
    {
        let b = bs[i];
        bs.set(i, Bullet { x: b.x, y: b.y, active: false });
        i = i + 1;
    }
    assert(bs@ =~= old(bs)@.map_values(|b: Bullet| retired(b)));
}

/// Builds the fresh formation, row by row.
fn build_formation() -> (es: Vec<Enemy>)
    ensures
        es@ == formation(),
{
    proof {
        lemma_formation();
    }
    let mut es: Vec<Enemy> = Vec::new();
    let mut r: i32 = 0;
    while r < ENEMY_ROWS
        invariant
            0 <= r <= ENEMY_ROWS,
            es@ == formation().take(r * ENEMY_COLS),
            formation().len() == 32,
        decreases ENEMY_ROWS - r,
    {
        let mut c: i32 = 0;
        while c < ENEMY_COLS
            invariant
                0 <= c <= ENEMY_COLS,
                0 <= r < ENEMY_ROWS,
                es@ == formation().take(r * ENEMY_COLS + c),
                formation().len() == 32,
            decreases ENEMY_COLS - c,
        {
            let ghost i = r * ENEMY_COLS + c;
            assert(ENEMY_STRIDE_Y == 4200 && ENEMY_STRIDE_X == 5200);
            assert(r * ENEMY_STRIDE_Y <= 3 * 4200) by (nonlinear_arith)
                requires 0 <= r < 4, ENEMY_STRIDE_Y == 4200;
            es.push(
                Enemy {
                    x: ENEMY_LEFT + c * ENEMY_STRIDE_X,
                    y: ENEMY_TOP + r * ENEMY_STRIDE_Y,
                    alive: true,
                    row: r,
                },
            );
            proof {
                assert(i % 8 == c as int && i / 8 == r as int) by (nonlinear_arith)
                    requires i == r * 8 + c, 0 <= c < 8, 0 <= r;
                assert(formation()[i] == formation_enemy(i));
                assert(es@ =~= formation().take(i + 1));
            }
            c = c + 1;
        }
        r = r + 1;
    }
    assert(es@ =~= formation());
    es
}

/// The explosions after a tick: each one tick older, without those whose
/// life has ended.
fn aged(es: &Vec<Explosion>) -> (out: Vec<Explosion>)
    requires
        forall|k: int| 0 <= k < es@.len() ==> 0 <= #[trigger] es@[k].age < EXPLO_LIFE,
    ensures
        out@ == aged_from(es@, 0),
{
    let n = es.len();
    let mut out: Vec<Explosion> = Vec::new();
    let mut i: usize = 0;
    while i < n
        invariant
            n == es@.len(),
            0 <= i <= n,
            forall|k: int| 0 <= k < es@.len() ==> 0 <= #[trigger] es@[k].age < EXPLO_LIFE,
            out@ + aged_from(es@, i as int) == aged_from(es@, 0),
        decreases n - i,
    {
        let e = es[i];
        if e.age + 1 < EXPLO_LIFE {
            out.push(Explosion { x: e.x, y: e.y, age: e.age + 1, color: e.color });
            proof {
                assert(out@ + aged_from(es@, i + 1) =~= aged_from(es@, 0));
            }
        }
        i = i + 1;
    }
    out
}

impl GameState {
    /// Whether the state is well formed.
    pub open spec fn wf(&self) -> bool {
        self@.wf()
    }

    /// A new game: the stars drawn from the generator, then a fresh formation.
    pub fn new() -> (g: GameState)
        ensures
            g@ == new_game(),
            g.wf(),
    {
        let mut s = GameState {
            ship_x: FIELD_W / 2,
            left: false,
            right: false,
            fire: false,
            fire_cooldown: 0,
            enemies: Vec::new(),
            p_bullets: vec![Bullet { x: 0, y: 0, active: false }; MAX_P_BULLETS],
            e_bullets: vec![Bullet { x: 0, y: 0, active: false }; MAX_E_BULLETS],
            stars: Vec::new(),
            explosions: Vec::new(),
            form_x: 0,
            form_dir: 1,
            form_step: 0,
            score: 0,
            lives: START_LIVES,
            over: false,
            won: false,
            status: String::new(),
            rng: RNG_SEED,
        };
        let mut stars: Vec<Star> = Vec::new();
        let mut i: usize = 0;
        while i < STAR_COUNT
            invariant
                0 <= i <= STAR_COUNT,
                stars@ == initial_stars(RNG_SEED, i as nat).0,
                stars@.len() == i,
                s.rng == initial_stars(RNG_SEED, i as nat).1,
                s.rng != 0,
                forall|k: int| 0 <= k < stars@.len() ==> star_ok(#[trigger] stars@[k]),
                s.p_bullets@ == Seq::new(MAX_P_BULLETS as nat, |k: int| Bullet { x: 0, y: 0, active: false }),
                s.e_bullets@ == Seq::new(MAX_E_BULLETS as nat, |k: int| Bullet { x: 0, y: 0, active: false }),
                s.enemies@ == Seq::<Enemy>::empty(),
                s.stars@ == Seq::<Star>::empty(),
                s.explosions@ == Seq::<Explosion>::empty(),
                s.status@ == Seq::<char>::empty(),
                s.ship_x == FIELD_W / 2,
                !s.left && !s.right && !s.fire && s.fire_cooldown == 0,
                s.form_x == 0 && s.form_dir == 1 && s.form_step == 0,
                s.score == 0 && s.lives == START_LIVES && !s.over && !s.won,
            decreases STAR_COUNT - i,
        {
            let r1 = s.rand();
            let r2 = s.rand();
            let r3 = s.rand();
            let x: i64 = (FIELD_W as i64) * (r1 as i64);
            let y: i64 = (FIELD_H as i64) * (r2 as i64);
            let v: i64 = (STAR_MIN_SPEED as i64) * STAR_UNITS_PER_UNIT + (STAR_SPEED_RANGE as i64) * (
            r3 as i64);
            stars.push(Star { x: x, y: y, speed: v });
            proof {
                assert(stars@ =~= initial_stars(RNG_SEED, (i + 1) as nat).0);
            }
            i = i + 1;
        }
        s.stars = stars;
        s.reset();
        proof {
            assert(s@ =~= new_game());
        }
        s
    }

    /// Draws the next number from the generator; read as a fraction of one,
    /// it is the number divided by 2^32.
    pub fn rand(&mut self) -> (r: u32)
        ensures
            r == xorshift32(old(self).rng),
            final(self)@ == (GameModel { rng: r, ..old(self)@ }),
            old(self).rng != 0 ==> r != 0,
    {
        let r = xorshift32_next(self.rng);
        self.rng = r;
        proof {
            if old(self).rng != 0 {
                xorshift32_nonzero(old(self).rng);
            }
            assert(self@ =~= (GameModel { rng: r, ..old(self)@ }));
        }
        r
    }

    /// Brings the status line up to date.
    pub fn update_status(&mut self)
        ensures
            final(self)@ == old(self)@.update_status(),
    {
        self.status = status_line(self.score, self.lives, self.won, self.over);
        assert(self@ =~= old(self)@.update_status());
    }

    /// Starts a new game: a fresh formation, score 0, three lives, the ship
    /// centred, every bullet and explosion gone. The stars keep falling.
    pub fn reset(&mut self)
        ensures
            final(self)@ == old(self)@.reset(),
            old(self)@.bullets_wf() && old(self)@.stars_wf() && old(self).rng != 0 ==> final(self).wf(),
    {
        self.score = 0;
        self.lives = START_LIVES;
        self.over = false;
        self.won = false;
        self.left = false;
        self.right = false;
        self.fire = false;
        self.fire_cooldown = 0;
        self.ship_x = FIELD_W / 2;
        self.form_x = 0;
        self.form_dir = 1;
        self.form_step = 0;
        self.enemies = build_formation();
        retire_all(&mut self.p_bullets);
        retire_all(&mut self.e_bullets);
        self.explosions = Vec::new();
        self.update_status();
        proof {
            assert(self@ =~= old(self)@.reset());
            if old(self)@.bullets_wf() && old(self)@.stars_wf() && old(self).rng != 0 {
                lemma_reset_wf(old(self)@);
            }
        }
    }
}

impl GameState {
    /// The explosions after one tick.
    pub fn step_explosions(&mut self)
        requires
            old(self).wf(),
        ensures
            final(self)@ == old(self)@.step_explosions(),
            final(self).wf(),
    {
        self.explosions = aged(&self.explosions);
        proof {
            assert(self@ =~= old(self)@.step_explosions());
            lemma_aged(old(self).explosions@, 0);

        }
    }

    /// The stars after one tick: each falls by its speed, and one that leaves
    /// the bottom comes back at the top, at a place drawn from the generator.
    pub fn step_stars(&mut self)
        requires
            old(self).wf(),
        ensures
            final(self)@ == old(self)@.step_stars(),
            final(self).wf(),
    {
        let n = self.stars.len();
        let mut i: usize = 0;
        while i < n
            invariant
                n == self.stars@.len(),
                n == STAR_COUNT,
                0 <= i <= n,
                self@ == (GameModel { stars: self.stars@, rng: self.rng, ..old(self)@ }),
                stars_from(self.stars@, self.rng, i as int) == stars_from(
                    old(self).stars@,
                    old(self).rng,
                    0,
                ),
                self.rng != 0,
                forall|k: int| 0 <= k < self.stars@.len() ==> star_ok(#[trigger] self.stars@[k]),
            decreases n - i,
        {
            let s = self.stars[i];
            proof {
                assert(star_ok(self.stars@[i as int]));
            }
            let y = s.y + s.speed;
            if y > (FIELD_H as i64) * STAR_UNITS_PER_UNIT {
                let r = self.rand();
                let x: i64 = (FIELD_W as i64) * (r as i64);
                self.stars.set(i, Star { x: x, y: 0, speed: s.speed });
            } else {
                self.stars.set(i, Star { x: s.x, y: y, speed: s.speed });
            }
            i = i + 1;
        }
        proof {
            assert(self@ =~= old(self)@.step_stars());
        }
    }
}

/// The first free slot of a bullet pool, or the pool's size when all are taken.
fn first_inactive(bs: &Vec<Bullet>) -> (j: usize)
    ensures
        j == first_inactive_from(bs@, 0),
{
    let mut i: usize = 0;
    while i < bs.len()
        invariant
            0 <= i <= bs@.len(),
            first_inactive_from(bs@, i as int) == first_inactive_from(bs@, 0),
        decreases bs@.len() - i,
    {
        if !bs[i].active {
            return i;
        }
        i = i + 1;
    }
    i
}

/// The number of living enemies.
fn count_living(es: &Vec<Enemy>) -> (n: usize)
    ensures
        n == count_alive(es@),
{
    let mut c: usize = 0;
    let mut i: usize = 0;
    while i < es.len()
        invariant
            0 <= i <= es@.len(),
            c <= i,
            c + count_alive_from(es@, i as int) == count_alive_from(es@, 0),
        decreases es@.len() - i,
    {
        if es[i].alive {
            c = c + 1;
        }
        i = i + 1;
    }
    c
}

/// Moves every active player's bullet up, retiring those above the field.
fn move_player_bullets(bs: &mut Vec<Bullet>)
    requires
        forall|k: int| 0 <= k < old(bs)@.len() ==> p_bullet_ok(#[trigger] old(bs)@[k]),
    ensures
        final(bs)@ == old(bs)@.map_values(|b: Bullet| move_player_bullet(b)),
{
    let n = bs.len();
    let mut i: usize = 0;
    while i < n
        invariant
            n == old(bs)@.len(),
            bs@.len() == n,
            0 <= i <= n,
            forall|k: int| 0 <= k < n ==> p_bullet_ok(#[trigger] old(bs)@[k]),
            forall|k: int| 0 <= k < i ==> #[trigger] bs@[k] == move_player_bullet(old(bs)@[k]),
            forall|k: int| i <= k < n ==> #[trigger] bs@[k] == old(bs)@[k],
        decreases n - i,
    {
        let b = bs[i];
        if b.active {
            let y = b.y - P_BULLET_SPEED;
            bs.set(i, Bullet { x: b.x, y: y, active: y >= -BULLET_MARGIN });
        }
        i = i + 1;
    }
    assert(bs@ =~= old(bs)@.map_values(|b: Bullet| move_player_bullet(b)));
}

/// Moves every active enemy bullet down, retiring those below the field.
fn move_enemy_bullets(bs: &mut Vec<Bullet>)
    requires
        forall|k: int| 0 <= k < old(bs)@.len() ==> e_bullet_ok(#[trigger] old(bs)@[k]),
    ensures
        final(bs)@ == old(bs)@.map_values(|b: Bullet| move_enemy_bullet(b)),
{
    let n = bs.len();
    let mut i: usize = 0;
    while i < n
        invariant
            n == old(bs)@.len(),
            bs@.len() == n,
            0 <= i <= n,
            forall|k: int| 0 <= k < n ==> e_bullet_ok(#[trigger] old(bs)@[k]),
            forall|k: int| 0 <= k < i ==> #[trigger] bs@[k] == move_enemy_bullet(old(bs)@[k]),
            forall|k: int| i <= k < n ==> #[trigger] bs@[k] == old(bs)@[k],
        decreases n - i,
    {
        let b = bs[i];
        if b.active {
            let y = b.y + E_BULLET_SPEED;
            bs.set(i, Bullet { x: b.x, y: y, active: y <= FIELD_H + BULLET_MARGIN });
        }
        i = i + 1;
    }
    assert(bs@ =~= old(bs)@.map_values(|b: Bullet| move_enemy_bullet(b)));
}

impl GameState {
    /// The number of living enemies.
    pub fn alive_count(&self) -> (n: i32)
        requires
            self.enemies@.len() <= i32::MAX,
        ensures
            n == count_alive(self.enemies@),
    {
        let n = count_living(&self.enemies);
        proof {
            lemma_count_bound(self.enemies@, 0);
        }
        n as i32
    }

    /// The ship after one tick: it moves with the held directions and stays
    /// on the field; the cooldown runs down; with the trigger held and the
    /// cooldown run out, a bullet leaves the ship from the first free slot.
    pub fn step_ship(&mut self)
        requires
            old(self).wf(),
        ensures
            final(self)@ == old(self)@.step_ship(),
            final(self).wf(),
    {
        let mut x = self.ship_x;
        if self.left {
            x = x - SHIP_SPEED;
        }
        if self.right {
            x = x + SHIP_SPEED;
        }
        if x < SHIP_MIN_X {
            x = SHIP_MIN_X;
        } else if x > SHIP_MAX_X {
            x = SHIP_MAX_X;
        }
        self.ship_x = x;
        let cd = self.fire_cooldown;
        if cd > 0 {
            self.fire_cooldown = cd - 1;
        }
        if self.fire && self.fire_cooldown == 0 {
            let j = first_inactive(&self.p_bullets);
            if j < self.p_bullets.len() {
                self.p_bullets.set(j, Bullet { x: x, y: SHIP_TOP, active: true });
                self.fire_cooldown = FIRE_COOLDOWN;
            }
        }
        proof {
            lemma_first_inactive(old(self).p_bullets@, 0);
            assert(self@ =~= old(self)@.step_ship());
            assert forall|i: int| 0 <= i < self.p_bullets@.len() implies p_bullet_ok(
                #[trigger] self.p_bullets@[i],
            ) by {
                assert(p_bullet_ok(old(self).p_bullets@[i]));
            }
        }
    }

    /// The bullets after one tick.
    pub fn step_bullets(&mut self)
        requires
            old(self).wf(),
        ensures
            final(self)@ == old(self)@.step_bullets(),
            final(self).wf(),
    {
        move_player_bullets(&mut self.p_bullets);
        move_enemy_bullets(&mut self.e_bullets);
        proof {
            assert(self@ =~= old(self)@.step_bullets());
            assert forall|i: int| 0 <= i < self.p_bullets@.len() implies p_bullet_ok(
                #[trigger] self.p_bullets@[i],
            ) by {
                assert(p_bullet_ok(old(self).p_bullets@[i]));
            }
            assert forall|i: int| 0 <= i < self.e_bullets@.len() implies e_bullet_ok(
                #[trigger] self.e_bullets@[i],
            ) by {
                assert(e_bullet_ok(old(self).e_bullets@[i]));
            }
        }
    }
}

/// Whether some enemy is alive, and the leftmost left edge and rightmost
/// right edge of the living enemies with the formation at offset `fx`.
fn living_extent(es: &Vec<Enemy>, fx: i32) -> (r: (bool, i32, i32))
    requires
        forall|k: int| 0 <= k < es@.len() ==> enemy_in_frame(#[trigger] es@[k]),
        -50000 <= fx <= 50000,
    ensures
        r.0 == any_alive(es@),
        r.0 ==> forall|k: int|
            0 <= k < es@.len() && (#[trigger] es@[k]).alive ==> r.1 <= es@[k].x + fx && es@[k].x
                + fx + ENEMY_W <= r.2,
        r.0 ==> exists|k: int| 0 <= k < es@.len() && (#[trigger] es@[k]).alive && r.1 == es@[k].x + fx,
        r.0 ==> exists|k: int|
            0 <= k < es@.len() && (#[trigger] es@[k]).alive && r.2 == es@[k].x + fx + ENEMY_W,
{
    let mut min_x: i32 = 9999900;
    let mut max_x: i32 = -9999900;
    let mut any = false;
    let mut i: usize = 0;
    while i < es.len()
        invariant
            0 <= i <= es@.len(),
            forall|k: int| 0 <= k < es@.len() ==> enemy_in_frame(#[trigger] es@[k]),
            -50000 <= fx <= 50000,
            any == exists|k: int| 0 <= k < i && (#[trigger] es@[k]).alive,
            any ==> forall|k: int|
                0 <= k < i && (#[trigger] es@[k]).alive ==> min_x <= es@[k].x + fx && es@[k].x + fx
                    + ENEMY_W <= max_x,
            any ==> exists|k: int| 0 <= k < i && (#[trigger] es@[k]).alive && min_x == es@[k].x + fx,
            any ==> exists|k: int|
                0 <= k < i && (#[trigger] es@[k]).alive && max_x == es@[k].x + fx + ENEMY_W,
            !any ==> min_x == 9999900 && max_x == -9999900,
        decreases es@.len() - i,
    {
        let e = es[i];
        if e.alive {
            proof {
                assert(enemy_in_frame(es@[i as int]));
            }
            let x = e.x + fx;
            if x < min_x {
                min_x = x;
            }
            if x + ENEMY_W > max_x {
                max_x = x + ENEMY_W;
            }
            any = true;
        }
        i = i + 1;
    }
    (any, min_x, max_x)
}

/// Whether a living enemy's bottom has come down to the top of the ship,
/// with the formation descended by `fs`.
fn reaches_ship(es: &Vec<Enemy>, fs: i32) -> (b: bool)
    requires
        forall|k: int| 0 <= k < es@.len() ==> enemy_in_frame(#[trigger] es@[k]),
        0 <= fs <= 100000,
    ensures
        b == reached_ship(es@, fs as int),
{
    let mut i: usize = 0;
    while i < es.len()
        invariant
            0 <= i <= es@.len(),
            forall|k: int| 0 <= k < es@.len() ==> enemy_in_frame(#[trigger] es@[k]),
            0 <= fs <= 100000,
            forall|k: int| 0 <= k < i && (#[trigger] es@[k]).alive ==> es@[k].y + fs + ENEMY_H < SHIP_TOP,
        decreases es@.len() - i,
    {
        let e = es[i];
        proof {
            assert(enemy_in_frame(es@[i as int]));
        }
        if e.alive && e.y + fs + ENEMY_H >= SHIP_TOP {
            return true;
        }
        i = i + 1;
    }
    false
}

impl GameState {
    /// The formation after one tick. With no enemy left the game is won.
    /// Otherwise the formation moves sideways, faster as it thins out; when
    /// an edge would reach a margin it turns and descends; and when an enemy
    /// comes down to the ship the game is lost.
    pub fn step_enemies(&mut self)
        requires
            old(self).wf(),
            !old(self).over,
        ensures
            final(self)@ == old(self)@.step_enemies(),
            final(self).wf(),
    {
        proof {
            assert forall|k: int| 0 <= k < self.enemies@.len() implies enemy_in_frame(
                #[trigger] self.enemies@[k],
            ) by {}
        }
        let (any, min_x, max_x) = living_extent(&self.enemies, self.form_x);
        if !any {
            self.won = true;
            self.over = true;
            self.update_status();
            proof {
                assert(self@ =~= old(self)@.step_enemies());
                lemma_step_enemies_wf(old(self)@);
            }
            return;
        }
        let alive = self.alive_count();
        proof {
            lemma_count_positive(self.enemies@, 0);
            lemma_count_bound(self.enemies@, 0);
        }
        let speed = FORMATION_BASE_SPEED + (ENEMY_COUNT - alive) * FORMATION_SPEEDUP;
        let dir = self.form_dir;
        let d = if dir == 1 { speed } else { -speed };
        proof {
            let sp = formation_speed(count_alive(self.enemies@));
            assert(speed == sp);
            if dir == 1 {
                assert(dir * sp == sp) by (nonlinear_arith)
                    requires dir == 1;
            } else {
                assert(dir == -1);
                assert(dir * sp == -sp) by (nonlinear_arith)
                    requires dir == -1;
            }
        }
        let ghost fx0 = self.form_x as int;
        self.form_x = self.form_x + d;
        let turn_left = max_x + d >= FIELD_W - FORMATION_MARGIN;
        let turn_right = !turn_left && min_x + d <= FORMATION_MARGIN;
        proof {
            let es = self.enemies@;
            if turn_left {
                let k = choose|k: int| 0 <= k < es.len() && (#[trigger] es[k]).alive && max_x == es[k].x + fx0 + ENEMY_W;
                assert(hits_right_edge(es, fx0, d as int));
            } else {
                assert(!hits_right_edge(es, fx0, d as int));
                if turn_right {
                    let k = choose|k: int| 0 <= k < es.len() && (#[trigger] es[k]).alive && min_x == es[k].x + fx0;
                    assert(hits_left_edge(es, fx0, d as int));
                } else {
                    assert(!hits_left_edge(es, fx0, d as int));
                }
            }
        }
        if turn_left {
            self.form_dir = -1;
            self.form_step = self.form_step + FORMATION_DROP;
        } else if turn_right {
            self.form_dir = 1;
            self.form_step = self.form_step + FORMATION_DROP;
        }
        let fs = self.form_step;
        if reaches_ship(&self.enemies, fs) {
            self.lives = 0;
            self.over = true;
            self.update_status();
        }
        proof {
            assert(self@ =~= old(self)@.step_enemies());
            lemma_step_enemies_wf(old(self)@);
        }
    }
}

/// The first living enemy from index 0 whose box holds the bullet, or the
/// number of enemies when there is none.
fn find_hit(es: &Vec<Enemy>, b: Bullet, fx: i32, fs: i32) -> (k: usize)
    requires
        forall|j: int| 0 <= j < es@.len() ==> enemy_in_frame(#[trigger] es@[j]),
        -50000 <= fx <= 50000,
        0 <= fs <= 100000,
    ensures
        k == first_hit_from(es@, b, fx as int, fs as int, 0),
{
    let mut i: usize = 0;
    while i < es.len()
        invariant
            0 <= i <= es@.len(),
            forall|j: int| 0 <= j < es@.len() ==> enemy_in_frame(#[trigger] es@[j]),
            -50000 <= fx <= 50000,
            0 <= fs <= 100000,
            first_hit_from(es@, b, fx as int, fs as int, i as int) == first_hit_from(
                es@,
                b,
                fx as int,
                fs as int,
                0,
            ),
        decreases es@.len() - i,
    {
        let e = es[i];
        proof {
            assert(enemy_in_frame(es@[i as int]));
        }
        if e.alive {
            let ex = e.x + fx;
            let ey = e.y + fs;
            if b.x >= ex && b.x <= ex + ENEMY_W && b.y >= ey && b.y <= ey + ENEMY_H {
                return i;
            }
        }
        i = i + 1;
    }
    i
}

/// Takes the player's bullets in order; each active one destroys the first
/// living enemy it hits and retires. Returns the explosions, in order.
fn resolve_player_hits(bs: &mut Vec<Bullet>, es: &mut Vec<Enemy>, fx: i32, fs: i32) -> (booms: Vec<
    Explosion,
>)
    requires
        forall|j: int| 0 <= j < old(es)@.len() ==> enemy_in_frame(#[trigger] old(es)@[j]),
        -50000 <= fx <= 50000,
        0 <= fs <= 100000,
    ensures
        final(bs)@ == resolve_from(old(bs)@, old(es)@, fx as int, fs as int, 0).0,
        final(es)@ == resolve_from(old(bs)@, old(es)@, fx as int, fs as int, 0).1,
        booms@ == resolve_from(old(bs)@, old(es)@, fx as int, fs as int, 0).2,
{
    let ghost whole = resolve_from(old(bs)@, old(es)@, fx as int, fs as int, 0);
    let mut booms: Vec<Explosion> = Vec::new();
    let n = bs.len();
    let mut i: usize = 0;
    while i < n
        invariant
            n == bs@.len(),
            0 <= i <= n,
            forall|j: int| 0 <= j < es@.len() ==> enemy_in_frame(#[trigger] es@[j]),
            -50000 <= fx <= 50000,
            0 <= fs <= 100000,
            resolve_from(bs@, es@, fx as int, fs as int, i as int).0 == whole.0,
            resolve_from(bs@, es@, fx as int, fs as int, i as int).1 == whole.1,
            booms@ + resolve_from(bs@, es@, fx as int, fs as int, i as int).2 == whole.2,
        decreases n - i,
    {
        let b = bs[i];
        if b.active {
            let k = find_hit(es, b, fx, fs);
            if k < es.len() {
                let e = es[k];
                proof {
                    assert(enemy_in_frame(es@[k as int]));
                }
                let ghost rest = resolve_from(
                    bs@.update(i as int, retired(b)),
                    es@.update(k as int, Enemy { alive: false, ..e }),
                    fx as int,
                    fs as int,
                    i + 1,
                );
                es.set(k, Enemy { x: e.x, y: e.y, alive: false, row: e.row });
                bs.set(i, Bullet { x: b.x, y: b.y, active: false });
                let color = enemy_color(e.row);
                let boom = Explosion {
                    x: e.x + fx + ENEMY_W / 2,
                    y: e.y + fs + ENEMY_H / 2,
                    age: 0,
                    color: color,
                };
                let ghost before = booms@;
                booms.push(boom);
                proof {
                    assert(booms@ + rest.2 =~= before + (seq![boom] + rest.2));
                    assert(forall|j: int| 0 <= j < es@.len() ==> enemy_in_frame(#[trigger] es@[j]));
                }
            }
        }
        i = i + 1;
    }
    booms
}

/// Retires every enemy bullet within the ship; tells whether any was.
fn retire_ship_hits(bs: &mut Vec<Bullet>, ship_x: i32) -> (hit: bool)
    requires
        SHIP_MIN_X <= ship_x <= SHIP_MAX_X,
    ensures
        final(bs)@ == old(bs)@.map_values(|b: Bullet| after_ship_check(b, ship_x as int)),
        hit == exists|k: int| 0 <= k < old(bs)@.len() && #[trigger] ship_hit(old(bs)@[k], ship_x as int),
{
    let ship_l = ship_x - SHIP_W / 2;
    let ship_r = ship_x + SHIP_W / 2;
    let ship_t = SHIP_TOP;
    let mut hit = false;
    let n = bs.len();
    let mut i: usize = 0;
    while i < n
        invariant
            n == old(bs)@.len(),
            bs@.len() == n,
            0 <= i <= n,
            SHIP_MIN_X <= ship_x <= SHIP_MAX_X,
            ship_l == ship_x - SHIP_W / 2,
            ship_r == ship_x + SHIP_W / 2,
            ship_t == SHIP_TOP,
            forall|k: int| 0 <= k < i ==> #[trigger] bs@[k] == after_ship_check(old(bs)@[k], ship_x as int),
            forall|k: int| i <= k < n ==> #[trigger] bs@[k] == old(bs)@[k],
            hit == exists|k: int| 0 <= k < i && #[trigger] ship_hit(old(bs)@[k], ship_x as int),
        decreases n - i,
    {
        let b = bs[i];
        if b.active && b.x >= ship_l && b.x <= ship_r && b.y >= ship_t && b.y <= SHIP_Y {
            bs.set(i, Bullet { x: b.x, y: b.y, active: false });
            hit = true;
            proof {
                assert(ship_hit(old(bs)@[i as int], ship_x as int));
            }
        } else {
            proof {
                assert(!ship_hit(old(bs)@[i as int], ship_x as int));
            }
        }
        i = i + 1;
    }
    assert(bs@ =~= old(bs)@.map_values(|b: Bullet| after_ship_check(b, ship_x as int)));
    hit
}

impl GameState {
    /// Adds a fresh explosion.
    pub fn spawn_explosion(&mut self, x: i32, y: i32, color: Rgba)
        ensures
            final(self)@ == (GameModel {
                explosions: old(self)@.explosions.push(Explosion { x: x, y: y, age: 0, color: color }),
                ..old(self)@
            }),
    {
        self.explosions.push(Explosion { x: x, y: y, age: 0, color: color });
        proof {
            assert(self@ =~= (GameModel {
                explosions: old(self)@.explosions.push(Explosion { x: x, y: y, age: 0, color: color }),
                ..old(self)@
            }));
        }
    }

    /// The collisions of one tick. Each active player's bullet, in order,
    /// destroys the first living enemy it hits, for 100 points and an
    /// explosion. Every enemy bullet within the ship retires; if any did,
    /// the ship explodes and a life is lost, and with the last life the game.
    pub fn check_collisions(&mut self)
        requires
            old(self).wf(),
        ensures
            final(self)@ == old(self)@.check_collisions(),
            final(self).wf(),
    {
        let fx = self.form_x;
        let fs = self.form_step;
        proof {
            assert forall|k: int| 0 <= k < self.enemies@.len() implies enemy_in_frame(
                #[trigger] self.enemies@[k],
            ) by {}
            lemma_check_collisions_wf(old(self)@);
            lemma_resolve(old(self)@.p_bullets, old(self)@.enemies, fx as int, fs as int, 0);
            lemma_count_bound(old(self)@.enemies, 0);
        }
        let booms = resolve_player_hits(&mut self.p_bullets, &mut self.enemies, fx, fs);
        self.score = self.score + ENEMY_POINTS * (booms.len() as i32);
        let ghost pre = self@;
        let mut i: usize = 0;
        while i < booms.len()
            invariant
                0 <= i <= booms@.len(),
                self@ == (GameModel { explosions: self.explosions@, ..pre }),
                self.explosions@ == pre.explosions + booms@.take(i as int),
                forall|k: int| 0 <= k < booms@.len() ==> (#[trigger] booms@[k]).age == 0,
            decreases booms@.len() - i,
        {
            let b = booms[i];
            self.spawn_explosion(b.x, b.y, b.color);
            proof {
                assert(booms@.take(i + 1) =~= booms@.take(i as int).push(b));
                assert(pre.explosions + booms@.take(i + 1) =~= (pre.explosions + booms@.take(
                    i as int,
                )).push(b));
            }
            i = i + 1;
        }
        self.update_status();
        let ship_x = self.ship_x;
        let hit = retire_ship_hits(&mut self.e_bullets, ship_x);
        if hit {
            self.spawn_explosion(ship_x, SHIP_Y - SHIP_H / 2, Rgba { r: 255, g: 140, b: 40, a: 255 });
            let lives = self.lives - 1;
            self.lives = if lives < 0 {
                0
            } else {
                lives
            };
            if lives <= 0 {
                self.over = true;
            }
            self.update_status();
        }
        proof {
            assert(booms@.take(booms@.len() as int) =~= booms@);
            assert(self@ =~= old(self)@.check_collisions());
        }
    }
}

/// The index of the living enemy with `t` living enemies before it, or the
/// number of enemies when there is none.
fn nth_living(es: &Vec<Enemy>, t: usize) -> (k: usize)
    ensures
        k == nth_alive_from(es@, t as int, 0),
{
    let mut rest: usize = t;
    let mut i: usize = 0;
    while i < es.len()
        invariant
            0 <= i <= es@.len(),
            nth_alive_from(es@, rest as int, i as int) == nth_alive_from(es@, t as int, 0),
        decreases es@.len() - i,
    {
        if es[i].alive {
            if rest == 0 {
                return i;
            }
            rest = rest - 1;
        }
        i = i + 1;
    }
    i
}

impl GameState {
    /// The enemies' fire of one tick: with chance 6/100 a living enemy, drawn
    /// at random, drops a bullet into the first free slot.
    pub fn maybe_enemy_fire(&mut self)
        requires
            old(self).wf(),
        ensures
            final(self)@ == old(self)@.maybe_enemy_fire(),
            final(self).wf(),
    {
        proof {
            lemma_maybe_enemy_fire_wf(old(self)@);
        }
        let r1 = self.rand();
        if (r1 as u64) * 100 > 6 * 0x1_0000_0000u64 {
            return;
        }
        let alive = self.alive_count();
        if alive == 0 {
            return;
        }
        let r2 = self.rand();
        let target = scale_unit_exec(r2, alive as u32);
        let k = nth_living(&self.enemies, target as usize);
        if k >= self.enemies.len() {
            return;
        }
        let e = self.enemies[k];
        proof {
            assert(enemy_in_frame(self.enemies@[k as int]));
        }
        let bx = e.x + self.form_x + ENEMY_W / 2;
        let by = e.y + self.form_step + ENEMY_H;
        let j = first_inactive(&self.e_bullets);
        if j < self.e_bullets.len() {
            self.e_bullets.set(j, Bullet { x: bx, y: by, active: true });
        }
        proof {
            assert(self@ =~= old(self)@.maybe_enemy_fire());
        }
    }

    /// One tick of the game. The stars and explosions move on even after the
    /// game is over; the ship, the formation, the bullets and the collisions
    /// only while it runs.
    pub fn tick(&mut self)
        requires
            old(self).wf(),
        ensures
            final(self)@ == old(self)@.tick(),
            final(self).wf(),
    {
        self.step_stars();
        self.step_explosions();
        if !self.over {
            self.step_ship();
            self.step_enemies();
            self.step_bullets();
            self.check_collisions();
            self.maybe_enemy_fire();
        }
    }
}

} // verus!
