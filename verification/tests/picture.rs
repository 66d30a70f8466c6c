use galaga::entities::{enemy_color, Rgba, FIELD_H, FIELD_W, STAR_UNITS_PER_UNIT};
use galaga::game::GameState;
use galaga::scene::{Shape, PICTURE_UNITS_PER_PIXEL, PICTURE_UNITS_PER_UNIT};
use galaga::text::{append_int, status_line};

/// A length of the field in picture units.
fn pic(v: i64) -> i64 {
    v * PICTURE_UNITS_PER_UNIT
}

#[test]
fn new_game_picture() {
    let g = GameState::new();
    let shapes = g.draw();
    // Sky, 48 stars, 32 enemies of 5 shapes, the ship's 4 shapes.
    assert_eq!(shapes.len(), 1 + 48 + 32 * 5 + 4);
    assert_eq!(
        shapes[0],
        Shape::Rect { x: pic(0), y: pic(0), w: pic(FIELD_W as i64), h: pic(FIELD_H as i64), color: Rgba { r: 6, g: 8, b: 22, a: 255 } }
    );
    assert_eq!(
        shapes[1],
        Shape::Rect {
            x: 7 * 48000 * 2274908837,
            y: 7 * 60000 * 358294691,
            w: pic(150),
            h: pic(150) + 7 * (40 * STAR_UNITS_PER_UNIT + 160 * 1210119364),
            color: Rgba { r: 180, g: 190, b: 220, a: 160 }
        }
    );
    let c = enemy_color(0);
    assert_eq!(
        shapes[49],
        Shape::RoundRect { x: pic(4300), y: pic(6400), w: pic(3000), h: pic(1600), rx: pic(600), ry: pic(600), color: c }
    );
    assert_eq!(shapes[50], Shape::Rect { x: pic(3900), y: pic(6800), w: pic(600), h: pic(800), color: c });
    assert_eq!(shapes[51], Shape::Rect { x: pic(7100), y: pic(6800), w: pic(600), h: pic(800), color: c });
    assert_eq!(
        shapes[52],
        Shape::Circle { cx: pic(5200), cy: pic(7100), r: pic(250), color: Rgba { r: 6, g: 8, b: 22, a: 255 } }
    );
    assert_eq!(
        shapes[53],
        Shape::Circle { cx: pic(6400), cy: pic(7100), r: pic(250), color: Rgba { r: 6, g: 8, b: 22, a: 255 } }
    );
    let ship = Rgba { r: 90, g: 220, b: 255, a: 255 };
    let n = shapes.len();
    assert_eq!(
        shapes[n - 4],
        Shape::RoundRect { x: pic(22300), y: pic(54600), w: pic(3400), h: pic(1400), rx: pic(400), ry: pic(400), color: ship }
    );
    assert_eq!(
        shapes[n - 3],
        Shape::Line { x1: pic(24000), y1: pic(53800), x2: pic(23300), y2: pic(55000), width: pic(300), color: ship }
    );
    assert_eq!(
        shapes[n - 2],
        Shape::Line { x1: pic(24000), y1: pic(53800), x2: pic(24700), y2: pic(55000), width: pic(300), color: ship }
    );
    assert_eq!(
        shapes[n - 1],
        Shape::Circle { cx: pic(24000), cy: pic(55000), r: pic(350), color: Rgba { r: 255, g: 255, b: 255, a: 255 } }
    );
}

#[test]
fn lost_ship_is_not_drawn() {
    let mut g = GameState::new();
    g.lives = 0;
    g.over = true;
    g.update_status();
    assert_eq!(g.draw().len(), 1 + 48 + 32 * 5);
}

#[test]
fn dead_enemies_and_idle_bullets_are_not_drawn() {
    let mut g = GameState::new();
    g.enemies[3].alive = false;
    g.score = 100;
    g.update_status();
    g.p_bullets[0].active = true;
    g.p_bullets[0].x = 1000;
    g.p_bullets[0].y = 2000;
    g.e_bullets[2].active = true;
    g.e_bullets[2].x = 3000;
    g.e_bullets[2].y = 4000;
    let shapes = g.draw();
    assert_eq!(shapes.len(), 1 + 48 + 31 * 5 + 1 + 1 + 4);
    let i = 1 + 48 + 31 * 5;
    assert_eq!(
        shapes[i],
        Shape::Rect { x: pic(850), y: pic(2000), w: pic(300), h: pic(1200), color: Rgba { r: 255, g: 235, b: 90, a: 255 } }
    );
    assert_eq!(
        shapes[i + 1],
        Shape::Circle { cx: pic(3000), cy: pic(4000), r: pic(400), color: Rgba { r: 255, g: 90, b: 110, a: 255 } }
    );
}

/// A length in fourteenths of a pixel, in picture units.
fn fourteenths(v: i64) -> i64 {
    v * (PICTURE_UNITS_PER_PIXEL / 14)
}

#[test]
fn explosion_picture_halfway() {
    let mut g = GameState::new();
    let c = enemy_color(2);
    g.spawn_explosion(1000, 2000, c);
    g.explosions[0].age = 7;
    let shapes = g.draw();
    let n = shapes.len();
    // Explosions come last, on top of the ship.
    assert_eq!(
        shapes[n - 3],
        Shape::Ring { cx: pic(1000), cy: pic(2000), r: 13 * PICTURE_UNITS_PER_PIXEL, width: pic(200), color: Rgba { a: 127, ..c } }
    );
    assert_eq!(
        shapes[n - 2],
        Shape::Circle { cx: pic(1000), cy: pic(2000), r: pic(350), color: Rgba { r: 255, g: 255, b: 255, a: 63 } }
    );
    assert_eq!(
        shapes[n - 1],
        Shape::Debris { cx: pic(1000), cy: pic(2000), dist: pic(900), r: pic(150), color: Rgba { a: 127, ..c } }
    );
}

#[test]
fn explosion_lengths_one_tick_old() {
    let mut g = GameState::new();
    let c = enemy_color(1);
    g.spawn_explosion(1000, 2000, c);
    g.explosions[0].age = 1;
    let shapes = g.draw();
    let n = shapes.len();
    // Ring 3 + 20/14 px, debris at 18/14 px, particles 3 * 13/14 px.
    assert_eq!(
        shapes[n - 3],
        Shape::Ring { cx: pic(1000), cy: pic(2000), r: fourteenths(62), width: pic(200), color: Rgba { a: 236, ..c } }
    );
    assert_eq!(
        shapes[n - 2],
        Shape::Circle { cx: pic(1000), cy: pic(2000), r: fourteenths(91), color: Rgba { r: 255, g: 255, b: 255, a: 219 } }
    );
    assert_eq!(
        shapes[n - 1],
        Shape::Debris { cx: pic(1000), cy: pic(2000), dist: fourteenths(18), r: fourteenths(39), color: Rgba { a: 236, ..c } }
    );
    assert!((fourteenths(62) as f64 / PICTURE_UNITS_PER_PIXEL as f64 - 4.428571).abs() < 1e-6);
}

#[test]
fn fresh_explosion_picture() {
    let mut g = GameState::new();
    let c = enemy_color(0);
    g.spawn_explosion(500, 600, c);
    let shapes = g.draw();
    let n = shapes.len();
    assert_eq!(shapes[n - 3], Shape::Ring { cx: pic(500), cy: pic(600), r: pic(300), width: pic(200), color: c });
    assert_eq!(
        shapes[n - 2],
        Shape::Circle { cx: pic(500), cy: pic(600), r: pic(700), color: Rgba { r: 255, g: 255, b: 255, a: 255 } }
    );
    assert_eq!(shapes[n - 1], Shape::Debris { cx: pic(500), cy: pic(600), dist: 0, r: pic(300), color: c });
}

#[test]
fn status_lines() {
    assert_eq!(status_line(0, 3, false, false), "SCORE 0    LIVES 3");
    assert_eq!(status_line(1200, 2, false, false), "SCORE 1200    LIVES 2");
    assert_eq!(status_line(3200, 1, true, true), "SCORE 3200    LIVES 1    — YOU WIN! Enter to restart");
    assert_eq!(status_line(700, 0, false, true), "SCORE 700    LIVES 0    — GAME OVER! Enter to restart");
    assert_eq!(status_line(-5, 0, false, false), "SCORE -5    LIVES 0");
}

#[test]
fn decimal_numerals() {
    let mut s = String::new();
    append_int(&mut s, 0);
    s.push(' ');
    append_int(&mut s, 9);
    s.push(' ');
    append_int(&mut s, 10);
    s.push(' ');
    append_int(&mut s, i32::MAX);
    s.push(' ');
    append_int(&mut s, i32::MIN);
    assert_eq!(s, "0 9 10 2147483647 -2147483648");
}
