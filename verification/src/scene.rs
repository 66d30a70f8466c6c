//! What the screen shows: the picture of a game as a list of shapes, drawn in
//! order, in picture units.
use vstd::prelude::*;
use crate::entities::{
    col_bg, enemy_color, rgba, spec_enemy_color, ENEMY_H, ENEMY_W, EXPLO_LIFE, FIELD_H, FIELD_W,
    SHIP_H, SHIP_TOP, SHIP_W, STAR_UNITS_PER_UNIT, Bullet, Enemy, Explosion, Rgba, Star,
};
use crate::game::GameState;
use crate::model::{e_bullet_ok, enemy_in_frame, explosion_ok, p_bullet_ok, star_ok, GameModel};

verus! {

/// Picture units in one unit of the field: the picture is drawn in units
/// fine enough to place the stars and the explosions exactly.
pub const PICTURE_UNITS_PER_UNIT: i64 = 7 * STAR_UNITS_PER_UNIT;
/// Picture units in one star unit.
pub const PICTURE_UNITS_PER_STAR_UNIT: i64 = 7;
/// Picture units in one pixel.
pub const PICTURE_UNITS_PER_PIXEL: i64 = 100 * PICTURE_UNITS_PER_UNIT;

/// A shape to draw, in picture units.
#[derive(Clone, Copy, Debug, PartialEq, Eq, Structural)]
pub enum Shape {
    /// A filled rectangle.
    Rect { x: i64, y: i64, w: i64, h: i64, color: Rgba },
    /// A filled rectangle with rounded corners.
    RoundRect { x: i64, y: i64, w: i64, h: i64, rx: i64, ry: i64, color: Rgba },
    /// A filled disc.
    Circle { cx: i64, cy: i64, r: i64, color: Rgba },
    /// The outline of a circle.
    Ring { cx: i64, cy: i64, r: i64, width: i64, color: Rgba },
    /// A straight line.
    Line { x1: i64, y1: i64, x2: i64, y2: i64, width: i64, color: Rgba },
    /// Six discs of radius `r`, evenly spaced on a circle of radius `dist`
    /// around the centre, the first one to its right.
    Debris { cx: i64, cy: i64, dist: i64, r: i64, color: Rgba },
}

/// A length of the field in picture units.
pub open spec fn pic(v: int) -> i64 {
    (v * PICTURE_UNITS_PER_UNIT) as i64
}

/// A colour with its alpha channel replaced.
pub open spec fn with_alpha(c: Rgba, a: int) -> Rgba {
    Rgba { r: c.r, g: c.g, b: c.b, a: a as u8 }
}

/// The picture of a star: a streak 1.5 pixels wide and 1.5 pixels longer
/// than the star falls in a tick.
pub open spec fn star_shape(s: Star) -> Shape {
    Shape::Rect {
        x: (s.x * PICTURE_UNITS_PER_STAR_UNIT) as i64,
        y: (s.y * PICTURE_UNITS_PER_STAR_UNIT) as i64,
        w: pic(150),
        h: (pic(150) + s.speed * PICTURE_UNITS_PER_STAR_UNIT) as i64,
        color: rgba(180, 190, 220, 160),
    }
}

/// The picture of an enemy whose box has its top left corner at (`x`, `y`):
/// a body, two wings and two eyes.
pub open spec fn enemy_picture(x: int, y: int, c: Rgba) -> Seq<Shape> {
    seq![
        Shape::RoundRect { x: pic(x), y: pic(y + 400), w: pic(ENEMY_W as int), h: pic(ENEMY_H - 600), rx: pic(600), ry: pic(600), color: c },
        Shape::Rect { x: pic(x - 400), y: pic(y + 800), w: pic(600), h: pic(800), color: c },
        Shape::Rect { x: pic(x + ENEMY_W - 200), y: pic(y + 800), w: pic(600), h: pic(800), color: c },
        Shape::Circle { cx: pic(x + 900), cy: pic(y + 1100), r: pic(250), color: rgba(6, 8, 22, 255) },
        Shape::Circle { cx: pic(x + ENEMY_W - 900), cy: pic(y + 1100), r: pic(250), color: rgba(6, 8, 22, 255) },
    ]
}

/// The pictures of the living enemies from index `i` on.
pub open spec fn enemies_picture_from(es: Seq<Enemy>, fx: int, fs: int, i: int) -> Seq<Shape>
    decreases es.len() - i,
{
    if i >= es.len() {
        Seq::empty()
    } else if es[i].alive {
        enemy_picture(es[i].x + fx, es[i].y + fs, spec_enemy_color(es[i].row)) + enemies_picture_from(
            es,
            fx,
            fs,
            i + 1,
        )
    } else {
        enemies_picture_from(es, fx, fs, i + 1)
    }
}

/// The pictures of the active player's bullets from index `i` on: yellow dashes.
pub open spec fn p_bullets_picture_from(bs: Seq<Bullet>, i: int) -> Seq<Shape>
    decreases bs.len() - i,
{
    if i >= bs.len() {
        Seq::empty()
    } else if bs[i].active {
        seq![Shape::Rect { x: pic(bs[i].x - 150), y: pic(bs[i].y as int), w: pic(300), h: pic(1200), color: rgba(255, 235, 90, 255) }]
            + p_bullets_picture_from(bs, i + 1)
    } else {
        p_bullets_picture_from(bs, i + 1)
    }
}

/// The pictures of the active enemy bullets from index `i` on: red balls.
pub open spec fn e_bullets_picture_from(bs: Seq<Bullet>, i: int) -> Seq<Shape>
    decreases bs.len() - i,
{
    if i >= bs.len() {
        Seq::empty()
    } else if bs[i].active {
        seq![Shape::Circle { cx: pic(bs[i].x as int), cy: pic(bs[i].y as int), r: pic(400), color: rgba(255, 90, 110, 255) }]
            + e_bullets_picture_from(bs, i + 1)
    } else {
        e_bullets_picture_from(bs, i + 1)
    }
}

/// The picture of the ship centred at `cx`: a hull, two fins and a cockpit.
pub open spec fn ship_picture(cx: int) -> Seq<Shape> {
    let c = rgba(90, 220, 255, 255);
    seq![
        Shape::RoundRect { x: pic(cx - SHIP_W / 2), y: pic(SHIP_TOP + 800), w: pic(SHIP_W as int), h: pic(SHIP_H - 800), rx: pic(400), ry: pic(400), color: c },
        Shape::Line { x1: pic(cx), y1: pic(SHIP_TOP as int), x2: pic(cx - 700), y2: pic(SHIP_TOP + 1200), width: pic(300), color: c },
        Shape::Line { x1: pic(cx), y1: pic(SHIP_TOP as int), x2: pic(cx + 700), y2: pic(SHIP_TOP + 1200), width: pic(300), color: c },
        Shape::Circle { cx: pic(cx), cy: pic(SHIP_TOP + 1200), r: pic(350), color: rgba(255, 255, 255, 255) },
    ]
}

/// Picture units in a fourteenth of a pixel: the explosions' lengths are
/// whole numbers of these.
pub open spec fn explo_step() -> int {
    PICTURE_UNITS_PER_PIXEL as int / EXPLO_LIFE as int
}

/// Radius of the shock ring of an explosion `age` ticks old:
/// `3 + 20 * age / 14` pixels.
pub open spec fn ring_radius(age: int) -> int {
    (3 * EXPLO_LIFE + 20 * age) * explo_step()
}

/// Radius of the white core: `7 * (14 - age) / 14` pixels.
pub open spec fn core_radius(age: int) -> int {
    7 * (EXPLO_LIFE - age) * explo_step()
}

/// How far the debris has flown: `18 * age / 14` pixels.
pub open spec fn debris_distance(age: int) -> int {
    18 * age * explo_step()
}

/// Radius of a debris particle: `3 * (14 - age) / 14` pixels.
pub open spec fn debris_radius(age: int) -> int {
    3 * (EXPLO_LIFE - age) * explo_step()
}

/// Alpha of the ring and the debris: 255 times the life left, rounded down.
pub open spec fn ring_alpha(age: int) -> int {
    (EXPLO_LIFE - age) * 255 / EXPLO_LIFE as int
}

/// Alpha of the core: 255 times the square of the life left, rounded down.
pub open spec fn core_alpha(age: int) -> int {
    (EXPLO_LIFE - age) * (EXPLO_LIFE - age) * 255 / (EXPLO_LIFE * EXPLO_LIFE) as int
}

/// The picture of an explosion: a shock ring that grows and fades, a white
/// core that shrinks and fades faster, and debris flying out.
pub open spec fn explosion_picture(e: Explosion) -> Seq<Shape> {
    let a = e.age as int;
    seq![
        Shape::Ring { cx: pic(e.x as int), cy: pic(e.y as int), r: ring_radius(a) as i64, width: pic(200), color: with_alpha(e.color, ring_alpha(a)) },
        Shape::Circle { cx: pic(e.x as int), cy: pic(e.y as int), r: core_radius(a) as i64, color: with_alpha(rgba(255, 255, 255, 255), core_alpha(a)) },
        Shape::Debris { cx: pic(e.x as int), cy: pic(e.y as int), dist: debris_distance(a) as i64, r: debris_radius(a) as i64, color: with_alpha(e.color, ring_alpha(a)) },
    ]
}

/// The pictures of the explosions from index `i` on.
pub open spec fn explosions_picture_from(es: Seq<Explosion>, i: int) -> Seq<Shape>
    decreases es.len() - i,
{
    if i >= es.len() {
        Seq::empty()
    } else {
        explosion_picture(es[i]) + explosions_picture_from(es, i + 1)
    }
}

/// The picture of a game, back to front: the sky, the stars, the living
/// enemies, the bullets, the ship unless it was lost, and the explosions on
/// top of everything.
pub open spec fn scene(m: GameModel) -> Seq<Shape> {
    seq![Shape::Rect { x: 0, y: 0, w: pic(FIELD_W as int), h: pic(FIELD_H as int), color: rgba(6, 8, 22, 255) }]
        + m.stars.map_values(|s: Star| star_shape(s))
        + enemies_picture_from(m.enemies, m.form_x as int, m.form_step as int, 0)
        + p_bullets_picture_from(m.p_bullets, 0)
        + e_bullets_picture_from(m.e_bullets, 0)
        + (if !m.over || m.won { ship_picture(m.ship_x as int) } else { Seq::empty() })
        + explosions_picture_from(m.explosions, 0)
}

/// A length of the field in picture units.
fn pic_of(v: i32) -> (r: i64)
    requires
        -1_000_000 <= v <= 1_000_000,
    ensures
        r == pic(v as int),
{
    (v as i64) * PICTURE_UNITS_PER_UNIT
}

/// Adds the pictures of the stars.
fn draw_stars(out: &mut Vec<Shape>, ss: &Vec<Star>)
    requires
        forall|k: int| 0 <= k < ss@.len() ==> star_ok(#[trigger] ss@[k]),
    ensures
        final(out)@ == old(out)@ + ss@.map_values(|s: Star| star_shape(s)),
{
    let mut i: usize = 0;
    while i < ss.len()
        invariant
            0 <= i <= ss@.len(),
            forall|k: int| 0 <= k < ss@.len() ==> star_ok(#[trigger] ss@[k]),
            out@ == old(out)@ + ss@.take(i as int).map_values(|s: Star| star_shape(s)),
        decreases ss@.len() - i,
    {
        let s = ss[i];
        proof {
            assert(star_ok(ss@[i as int]));
        }
        let w = pic_of(150);
        out.push(
            Shape::Rect {
                x: s.x * PICTURE_UNITS_PER_STAR_UNIT,
                y: s.y * PICTURE_UNITS_PER_STAR_UNIT,
                w: w,
                h: w + s.speed * PICTURE_UNITS_PER_STAR_UNIT,
                color: Rgba { r: 180, g: 190, b: 220, a: 160 },
            },
        );
        proof {
            assert(ss@.take(i + 1).map_values(|s: Star| star_shape(s)) =~= ss@.take(i as int).map_values(
                |s: Star| star_shape(s),
            ).push(star_shape(s)));
        }
        i = i + 1;
    }
    assert(ss@.take(ss@.len() as int) =~= ss@);
}

/// Adds the picture of an enemy whose box has its top left corner at (`x`, `y`).
fn draw_enemy(out: &mut Vec<Shape>, x: i32, y: i32, color: Rgba)
    requires
        in_draw_range(x as int),
        in_draw_range(y as int),
    ensures
        final(out)@ == old(out)@ + enemy_picture(x as int, y as int, color),
{
    out.push(
        Shape::RoundRect {
            x: pic_of(x),
            y: pic_of(y + 400),
            w: pic_of(ENEMY_W),
            h: pic_of(ENEMY_H - 600),
            rx: pic_of(600),
            ry: pic_of(600),
            color: color,
        },
    );
    out.push(Shape::Rect { x: pic_of(x - 400), y: pic_of(y + 800), w: pic_of(600), h: pic_of(800), color: color });
    out.push(
        Shape::Rect { x: pic_of(x + ENEMY_W - 200), y: pic_of(y + 800), w: pic_of(600), h: pic_of(800), color: color },
    );
    let bg = col_bg();
    out.push(Shape::Circle { cx: pic_of(x + 900), cy: pic_of(y + 1100), r: pic_of(250), color: bg });
    out.push(Shape::Circle { cx: pic_of(x + ENEMY_W - 900), cy: pic_of(y + 1100), r: pic_of(250), color: bg });
    assert(out@ =~= old(out)@ + enemy_picture(x as int, y as int, color));
}

/// Whether a coordinate is small enough to draw around without overflow.
pub open spec fn in_draw_range(v: int) -> bool {
    -200000 <= v <= 200000
}

/// Adds the pictures of the living enemies.
fn draw_enemies(out: &mut Vec<Shape>, es: &Vec<Enemy>, fx: i32, fs: i32)
    requires
        forall|k: int| 0 <= k < es@.len() ==> enemy_in_frame(#[trigger] es@[k]),
        -50000 <= fx <= 50000,
        0 <= fs <= 100000,
    ensures
        final(out)@ == old(out)@ + enemies_picture_from(es@, fx as int, fs as int, 0),
{
    let mut i: usize = 0;
    while i < es.len()
        invariant
            0 <= i <= es@.len(),
            forall|k: int| 0 <= k < es@.len() ==> enemy_in_frame(#[trigger] es@[k]),
            -50000 <= fx <= 50000,
            0 <= fs <= 100000,
            out@ + enemies_picture_from(es@, fx as int, fs as int, i as int) == old(out)@
                + enemies_picture_from(es@, fx as int, fs as int, 0),
        decreases es@.len() - i,
    {
        let e = es[i];
        proof {
            assert(enemy_in_frame(es@[i as int]));
        }
        if e.alive {
            let ghost before = out@;
            draw_enemy(out, e.x + fx, e.y + fs, enemy_color(e.row));
            proof {
                let rest = enemies_picture_from(es@, fx as int, fs as int, i + 1);
                assert(out@ + rest =~= before + (enemy_picture(
                    e.x + fx,
                    e.y + fs,
                    spec_enemy_color(e.row),
                ) + rest));
            }
        }
        i = i + 1;
    }
    assert(out@ =~= old(out)@ + enemies_picture_from(es@, fx as int, fs as int, 0));
}

/// Adds the pictures of the active player's bullets.
fn draw_p_bullets(out: &mut Vec<Shape>, bs: &Vec<Bullet>)
    requires
        forall|k: int| 0 <= k < bs@.len() ==> p_bullet_ok(#[trigger] bs@[k]),
    ensures
        final(out)@ == old(out)@ + p_bullets_picture_from(bs@, 0),
{
    let mut i: usize = 0;
    while i < bs.len()
        invariant
            0 <= i <= bs@.len(),
            forall|k: int| 0 <= k < bs@.len() ==> p_bullet_ok(#[trigger] bs@[k]),
            out@ + p_bullets_picture_from(bs@, i as int) == old(out)@ + p_bullets_picture_from(bs@, 0),
        decreases bs@.len() - i,
    {
        let b = bs[i];
        proof {
            assert(p_bullet_ok(bs@[i as int]));
        }
        if b.active {
            let ghost before = out@;
            let s = Shape::Rect {
                x: pic_of(b.x - 150),
                y: pic_of(b.y),
                w: pic_of(300),
                h: pic_of(1200),
                color: Rgba { r: 255, g: 235, b: 90, a: 255 },
            };
            out.push(s);
            proof {
                let rest = p_bullets_picture_from(bs@, i + 1);
                assert(out@ + rest =~= before + (seq![s] + rest));
            }
        }
        i = i + 1;
    }
    assert(out@ =~= old(out)@ + p_bullets_picture_from(bs@, 0));
}

/// Adds the pictures of the active enemy bullets.
fn draw_e_bullets(out: &mut Vec<Shape>, bs: &Vec<Bullet>)
    requires
        forall|k: int| 0 <= k < bs@.len() ==> e_bullet_ok(#[trigger] bs@[k]),
    ensures
        final(out)@ == old(out)@ + e_bullets_picture_from(bs@, 0),
{
    let mut i: usize = 0;
    while i < bs.len()
        invariant
            0 <= i <= bs@.len(),
            forall|k: int| 0 <= k < bs@.len() ==> e_bullet_ok(#[trigger] bs@[k]),
            out@ + e_bullets_picture_from(bs@, i as int) == old(out)@ + e_bullets_picture_from(bs@, 0),
        decreases bs@.len() - i,
    {
        let b = bs[i];
        proof {
            assert(e_bullet_ok(bs@[i as int]));
        }
        if b.active {
            let ghost before = out@;
            let s = Shape::Circle {
                cx: pic_of(b.x),
                cy: pic_of(b.y),
                r: pic_of(400),
                color: Rgba { r: 255, g: 90, b: 110, a: 255 },
            };
            out.push(s);
            proof {
                let rest = e_bullets_picture_from(bs@, i + 1);
                assert(out@ + rest =~= before + (seq![s] + rest));
            }
        }
        i = i + 1;
    }
    assert(out@ =~= old(out)@ + e_bullets_picture_from(bs@, 0));
}

/// Adds the picture of the ship centred at `cx`.
fn draw_ship(out: &mut Vec<Shape>, cx: i32)
    requires
        in_draw_range(cx as int),
    ensures
        final(out)@ == old(out)@ + ship_picture(cx as int),
{
    let top = SHIP_TOP;
    let c = Rgba { r: 90, g: 220, b: 255, a: 255 };
    out.push(
        Shape::RoundRect {
            x: pic_of(cx - SHIP_W / 2),
            y: pic_of(top + 800),
            w: pic_of(SHIP_W),
            h: pic_of(SHIP_H - 800),
            rx: pic_of(400),
            ry: pic_of(400),
            color: c,
        },
    );
    out.push(Shape::Line { x1: pic_of(cx), y1: pic_of(top), x2: pic_of(cx - 700), y2: pic_of(top + 1200), width: pic_of(300), color: c });
    out.push(Shape::Line { x1: pic_of(cx), y1: pic_of(top), x2: pic_of(cx + 700), y2: pic_of(top + 1200), width: pic_of(300), color: c });
    out.push(Shape::Circle { cx: pic_of(cx), cy: pic_of(top + 1200), r: pic_of(350), color: Rgba { r: 255, g: 255, b: 255, a: 255 } });
    assert(out@ =~= old(out)@ + ship_picture(cx as int));
}

/// Adds the picture of an explosion.
fn draw_explosion(out: &mut Vec<Shape>, e: Explosion)
    requires
        explosion_ok(e),
    ensures
        final(out)@ == old(out)@ + explosion_picture(e),
{
    let left = EXPLO_LIFE - e.age;
    assert(left * left <= 196) by (nonlinear_arith)
        requires 0 < left <= 14;
    let step: i64 = PICTURE_UNITS_PER_PIXEL / (EXPLO_LIFE as i64);
    assert(step == explo_step());
    let ring_alpha = left * 255 / EXPLO_LIFE;
    let core_alpha = left * left * 255 / (EXPLO_LIFE * EXPLO_LIFE);
    let ring = Rgba { r: e.color.r, g: e.color.g, b: e.color.b, a: ring_alpha as u8 };
    let cx = pic_of(e.x);
    let cy = pic_of(e.y);
    out.push(
        Shape::Ring {
            cx: cx,
            cy: cy,
            r: ((3 * EXPLO_LIFE + 20 * e.age) as i64) * step,
            width: pic_of(200),
            color: ring,
        },
    );
    out.push(
        Shape::Circle {
            cx: cx,
            cy: cy,
            r: ((7 * left) as i64) * step,
            color: Rgba { r: 255, g: 255, b: 255, a: core_alpha as u8 },
        },
    );
    out.push(
        Shape::Debris {
            cx: cx,
            cy: cy,
            dist: ((18 * e.age) as i64) * step,
            r: ((3 * left) as i64) * step,
            color: ring,
        },
    );
    assert(out@ =~= old(out)@ + explosion_picture(e));
}

/// Adds the pictures of the explosions.
fn draw_explosions(out: &mut Vec<Shape>, es: &Vec<Explosion>)
    requires
        forall|k: int| 0 <= k < es@.len() ==> explosion_ok(#[trigger] es@[k]),
    ensures
        final(out)@ == old(out)@ + explosions_picture_from(es@, 0),
{
    let mut i: usize = 0;
    while i < es.len()
        invariant
            0 <= i <= es@.len(),
            forall|k: int| 0 <= k < es@.len() ==> explosion_ok(#[trigger] es@[k]),
            out@ + explosions_picture_from(es@, i as int) == old(out)@ + explosions_picture_from(es@, 0),
        decreases es@.len() - i,
    {
        let e = es[i];
        proof {
            assert(explosion_ok(es@[i as int]));
        }
        let ghost before = out@;
        draw_explosion(out, e);
        proof {
            let rest = explosions_picture_from(es@, i + 1);
            assert(out@ + rest =~= before + (explosion_picture(e) + rest));
        }
        i = i + 1;
    }
    assert(out@ =~= old(out)@ + explosions_picture_from(es@, 0));
}

impl GameState {
    /// The picture of the game, as the shapes to draw back to front.
    pub fn draw(&self) -> (shapes: Vec<Shape>)
        requires
            self.wf(),
        ensures
            shapes@ == scene(self@),
    {
        let mut out: Vec<Shape> = Vec::new();
        out.push(Shape::Rect { x: 0, y: 0, w: pic_of(FIELD_W), h: pic_of(FIELD_H), color: col_bg() });
        proof {
            assert forall|k: int| 0 <= k < self.stars@.len() implies star_ok(#[trigger] self.stars@[k]) by {}
            assert forall|k: int| 0 <= k < self.enemies@.len() implies enemy_in_frame(
                #[trigger] self.enemies@[k],
            ) by {}
            assert forall|k: int| 0 <= k < self.p_bullets@.len() implies p_bullet_ok(
                #[trigger] self.p_bullets@[k],
            ) by {}
            assert forall|k: int| 0 <= k < self.e_bullets@.len() implies e_bullet_ok(
                #[trigger] self.e_bullets@[k],
            ) by {}
            assert(self@.explosions_wf());
            assert forall|k: int| 0 <= k < self.explosions@.len() implies explosion_ok(
                #[trigger] self.explosions@[k],
            ) by {
                assert(explosion_ok(self@.explosions[k]));
            }
        }
        draw_stars(&mut out, &self.stars);
        draw_enemies(&mut out, &self.enemies, self.form_x, self.form_step);
        draw_p_bullets(&mut out, &self.p_bullets);
        draw_e_bullets(&mut out, &self.e_bullets);
        if !self.over || self.won {
            draw_ship(&mut out, self.ship_x);
        }
        draw_explosions(&mut out, &self.explosions);
        proof {
            assert(out@ =~= scene(self@));
        }
        out
    }
}

} // verus!
