use galaga::controls::{control_for_key, Button, Control};
use galaga::entities::{
    col_bg, enemy_color, Bullet, Explosion, Rgba, ENEMY_COUNT, FIELD_W, FIRE_COOLDOWN, SHIP_MAX_X,
    SHIP_MIN_X, SHIP_TOP, STAR_UNITS_PER_UNIT,
};
use galaga::game::GameState;
use galaga::rng::{scale_unit_exec, xorshift32_next, RNG_SEED};

fn alive(g: &GameState) -> usize {
    g.enemies.iter().filter(|e| e.alive).count()
}

#[test]
fn xorshift_known_values() {
    assert_eq!(xorshift32_next(RNG_SEED), 2274908837);
    assert_eq!(xorshift32_next(1), 270369);
    assert_eq!(xorshift32_next(270369), 67634689);
    assert_eq!(xorshift32_next(0), 0);
}

#[test]
fn xorshift_never_reaches_zero_from_nonzero() {
    let mut x: u32 = RNG_SEED;
    for _ in 0..10000 {
        x = xorshift32_next(x);
        assert_ne!(x, 0);
    }
}

#[test]
fn scale_unit_rounds_down() {
    assert_eq!(scale_unit_exec(0, 48000), 0);
    assert_eq!(scale_unit_exec(u32::MAX, 48000), 47999);
    assert_eq!(scale_unit_exec(0x8000_0000, 100), 50);
    assert_eq!(scale_unit_exec(0x8000_0000, 7), 3);
}

#[test]
fn palette() {
    assert_eq!(col_bg(), Rgba { r: 6, g: 8, b: 22, a: 255 });
    assert_eq!(enemy_color(0), Rgba { r: 255, g: 90, b: 110, a: 255 });
    assert_eq!(enemy_color(1), Rgba { r: 255, g: 160, b: 60, a: 255 });
    assert_eq!(enemy_color(2), Rgba { r: 120, g: 230, b: 140, a: 255 });
    assert_eq!(enemy_color(3), Rgba { r: 190, g: 130, b: 255, a: 255 });
    assert_eq!(enemy_color(7), Rgba { r: 190, g: 130, b: 255, a: 255 });
}

#[test]
fn new_game_setup() {
    let g = GameState::new();
    assert_eq!(g.status, "SCORE 0    LIVES 3");
    assert_eq!(g.score, 0);
    assert_eq!(g.lives, 3);
    assert!(!g.over && !g.won);
    assert_eq!(g.ship_x, FIELD_W / 2);
    assert_eq!(g.enemies.len(), 32);
    assert_eq!(alive(&g), 32);
    assert_eq!((g.enemies[0].x, g.enemies[0].y, g.enemies[0].row), (4300, 6000, 0));
    assert_eq!((g.enemies[7].x, g.enemies[7].y, g.enemies[7].row), (40700, 6000, 0));
    assert_eq!((g.enemies[8].x, g.enemies[8].y, g.enemies[8].row), (4300, 10200, 1));
    assert_eq!((g.enemies[31].x, g.enemies[31].y, g.enemies[31].row), (40700, 18600, 3));
    assert_eq!(g.p_bullets.len(), 3);
    assert_eq!(g.e_bullets.len(), 6);
    assert!(g.p_bullets.iter().all(|b| !b.active));
    assert!(g.e_bullets.iter().all(|b| !b.active));
    assert_eq!(g.stars.len(), 48);
    // Star places and speeds are exact fractions of the draws, in star units
    // (2^32 per hundredth of a pixel): the first star is at
    // 480 * 2274908837 / 2^32 = 254.2408... pixels.
    assert_eq!(
        (g.stars[0].x, g.stars[0].y, g.stars[0].speed),
        (48000 * 2274908837, 60000 * 358294691, 40 * STAR_UNITS_PER_UNIT + 160 * 1210119364)
    );
    assert_eq!(
        (g.stars[1].x, g.stars[1].y, g.stars[1].speed),
        (104449727616000, 112971072480000, 283628105760)
    );
    assert_eq!(
        (g.stars[47].x, g.stars[47].y, g.stars[47].speed),
        (65993524224000, 44742220140000, 732649149920)
    );
    assert_eq!(g.rng, 3505315363);
    assert_eq!((g.form_x, g.form_dir, g.form_step), (0, 1, 0));
    assert!(g.explosions.is_empty());
}

#[test]
fn rand_advances_generator() {
    let mut g = GameState::new();
    g.rng = 1;
    assert_eq!(g.rand(), 270369);
    assert_eq!(g.rng, 270369);
}

#[test]
fn ship_moves_and_stays_on_field() {
    let mut g = GameState::new();
    g.left = true;
    g.step_ship();
    assert_eq!(g.ship_x, 24000 - 500);
    g.left = false;
    g.right = true;
    g.step_ship();
    g.step_ship();
    assert_eq!(g.ship_x, 24000 + 500);
    g.left = true;
    g.step_ship();
    assert_eq!(g.ship_x, 24000 + 500);
    g.left = false;
    g.ship_x = SHIP_MAX_X - 100;
    g.step_ship();
    assert_eq!(g.ship_x, SHIP_MAX_X);
    g.right = false;
    g.left = true;
    g.ship_x = SHIP_MIN_X + 100;
    g.step_ship();
    assert_eq!(g.ship_x, SHIP_MIN_X);
}

#[test]
fn firing_uses_first_free_slot_and_cooldown() {
    let mut g = GameState::new();
    g.fire = true;
    g.step_ship();
    assert_eq!(g.p_bullets[0], Bullet { x: 24000, y: SHIP_TOP, active: true });
    assert_eq!(g.fire_cooldown, FIRE_COOLDOWN);
    for k in 0..7 {
        g.step_ship();
        assert_eq!(g.fire_cooldown, FIRE_COOLDOWN - 1 - k);
        assert!(!g.p_bullets[1].active);
    }
    g.step_ship();
    assert_eq!(g.p_bullets[1], Bullet { x: 24000, y: SHIP_TOP, active: true });
    assert_eq!(g.fire_cooldown, FIRE_COOLDOWN);
}

#[test]
fn full_pool_fires_nothing() {
    let mut g = GameState::new();
    for b in g.p_bullets.iter_mut() {
        *b = Bullet { x: 100, y: 100, active: true };
    }
    g.fire = true;
    g.step_ship();
    assert!(g.p_bullets.iter().all(|b| b.x == 100 && b.y == 100));
    assert_eq!(g.fire_cooldown, 0);
}

#[test]
fn bullets_move_and_retire() {
    let mut g = GameState::new();
    g.p_bullets[0] = Bullet { x: 1000, y: 5000, active: true };
    g.p_bullets[1] = Bullet { x: 1000, y: 0, active: true };
    g.p_bullets[2] = Bullet { x: 1000, y: 3000, active: false };
    g.e_bullets[0] = Bullet { x: 1000, y: 5000, active: true };
    g.e_bullets[1] = Bullet { x: 1000, y: 60500, active: true };
    g.step_bullets();
    assert_eq!(g.p_bullets[0], Bullet { x: 1000, y: 4100, active: true });
    assert_eq!(g.p_bullets[1], Bullet { x: 1000, y: -900, active: false });
    assert_eq!(g.p_bullets[2], Bullet { x: 1000, y: 3000, active: false });
    assert_eq!(g.e_bullets[0], Bullet { x: 1000, y: 5400, active: true });
    assert_eq!(g.e_bullets[1], Bullet { x: 1000, y: 60900, active: false });
}

#[test]
fn formation_moves_and_turns() {
    let mut g = GameState::new();
    g.step_enemies();
    assert_eq!(g.form_x, 80);
    assert_eq!(g.form_dir, 1);
    // Right edge of the rightmost enemy at 43700 + form_x; it turns when it
    // would reach 47400.
    g.form_x = 3620;
    g.step_enemies();
    assert_eq!(g.form_x, 3700);
    assert_eq!(g.form_dir, -1);
    assert_eq!(g.form_step, 1400);
    g.step_enemies();
    assert_eq!(g.form_x, 3620);
    assert_eq!(g.form_dir, -1);
}

#[test]
fn formation_speeds_up_as_enemies_fall() {
    let mut g = GameState::new();
    for k in 0..10 {
        g.enemies[k].alive = false;
    }
    g.score = 1000;
    g.step_enemies();
    assert_eq!(g.form_x, 80 + 10 * 6);
}

#[test]
fn formation_turns_at_left_margin() {
    let mut g = GameState::new();
    g.form_dir = -1;
    g.form_x = -3620;
    g.step_enemies();
    assert_eq!(g.form_x, -3700);
    assert_eq!(g.form_dir, 1);
    assert_eq!(g.form_step, 1400);
}

#[test]
fn reaching_the_ship_ends_the_game() {
    let mut g = GameState::new();
    // Bottom row at 18600; it reaches the ship's top (53800) when
    // 18600 + form_step + 2200 >= 53800.
    g.form_step = 32900;
    g.form_x = 3620;
    g.step_enemies();
    assert_eq!(g.form_step, 34300);
    assert_eq!(g.lives, 0);
    assert!(g.over);
    assert!(!g.won);
    assert_eq!(g.status, "SCORE 0    LIVES 0    — GAME OVER! Enter to restart");
}

#[test]
fn clearing_the_formation_wins() {
    let mut g = GameState::new();
    for e in g.enemies.iter_mut() {
        e.alive = false;
    }
    g.score = 3200;
    g.update_status();
    g.step_enemies();
    assert!(g.won && g.over);
    assert_eq!(g.status, "SCORE 3200    LIVES 3    — YOU WIN! Enter to restart");
}

#[test]
fn bullet_destroys_first_enemy_it_hits() {
    let mut g = GameState::new();
    // Enemy 0's box: x in [4300, 7300], y in [6000, 8200].
    g.p_bullets[0] = Bullet { x: 5000, y: 7000, active: true };
    g.p_bullets[1] = Bullet { x: 5000, y: 7000, active: true };
    g.check_collisions();
    assert!(!g.enemies[0].alive);
    assert_eq!(alive(&g), 31);
    assert!(!g.p_bullets[0].active);
    // The second bullet found no living enemy there.
    assert!(g.p_bullets[1].active);
    assert_eq!(g.score, 100);
    assert_eq!(g.explosions.len(), 1);
    assert_eq!(
        g.explosions[0],
        Explosion { x: 5800, y: 7100, age: 0, color: enemy_color(0) }
    );
    assert_eq!(g.status, "SCORE 100    LIVES 3");
}

#[test]
fn collisions_follow_the_formation_offset() {
    let mut g = GameState::new();
    g.form_x = 1000;
    g.form_step = 2800;
    g.p_bullets[0] = Bullet { x: 5200, y: 8700, active: true };
    g.check_collisions();
    assert!(g.enemies[0].alive);
    assert!(g.p_bullets[0].active);
    g.p_bullets[0] = Bullet { x: 5300, y: 8800, active: true };
    g.check_collisions();
    assert!(!g.enemies[0].alive);
    assert_eq!(g.explosions[0], Explosion { x: 6800, y: 9900, age: 0, color: enemy_color(0) });
}

#[test]
fn enemy_bullet_costs_a_life() {
    let mut g = GameState::new();
    g.e_bullets[0] = Bullet { x: 24000, y: 55000, active: true };
    g.e_bullets[1] = Bullet { x: 25700, y: 53800, active: true };
    g.e_bullets[2] = Bullet { x: 25701, y: 55000, active: true };
    g.check_collisions();
    assert!(!g.e_bullets[0].active);
    assert!(!g.e_bullets[1].active);
    assert!(g.e_bullets[2].active);
    assert_eq!(g.lives, 2);
    assert!(!g.over);
    assert_eq!(g.explosions.len(), 1);
    assert_eq!(
        g.explosions[0],
        Explosion { x: 24000, y: 54900, age: 0, color: Rgba { r: 255, g: 140, b: 40, a: 255 } }
    );
    assert_eq!(g.status, "SCORE 0    LIVES 2");
}

#[test]
fn last_life_ends_the_game() {
    let mut g = GameState::new();
    g.lives = 1;
    g.update_status();
    g.e_bullets[3] = Bullet { x: 24000, y: 55000, active: true };
    g.check_collisions();
    assert_eq!(g.lives, 0);
    assert!(g.over);
    assert_eq!(g.status, "SCORE 0    LIVES 0    — GAME OVER! Enter to restart");
}

#[test]
fn enemy_fire_from_drawn_enemy() {
    let mut g = GameState::new();
    g.rng = 1;
    g.maybe_enemy_fire();
    assert_eq!(g.rng, 67634689);
    assert_eq!(g.e_bullets[0], Bullet { x: 5800, y: 8200, active: true });
    assert!(g.e_bullets[1..].iter().all(|b| !b.active));
}

#[test]
fn enemy_fire_skips_dead_enemies() {
    let mut g = GameState::new();
    g.rng = 1;
    g.enemies[0].alive = false;
    g.score = 100;
    g.maybe_enemy_fire();
    // The draw picks the first living enemy, now enemy 1.
    assert_eq!(g.e_bullets[0], Bullet { x: 11000, y: 8200, active: true });
}

#[test]
fn enemies_mostly_hold_fire() {
    let mut g = GameState::new();
    g.rng = RNG_SEED;
    g.maybe_enemy_fire();
    assert_eq!(g.rng, 2274908837);
    assert!(g.e_bullets.iter().all(|b| !b.active));
}

#[test]
fn stars_fall_and_wrap() {
    let mut g = GameState::new();
    g.stars[0].y = 59990 * STAR_UNITS_PER_UNIT;
    let speed0 = g.stars[0].speed;
    let y1 = g.stars[1].y;
    let speed1 = g.stars[1].speed;
    let rng = g.rng;
    g.step_stars();
    let r = xorshift32_next(rng);
    assert_eq!(g.stars[0].y, 0);
    assert_eq!(g.stars[0].x, 48000 * r as i64);
    assert_eq!(g.stars[0].speed, speed0);
    assert_eq!(g.stars[1].y, y1 + speed1);
}

#[test]
fn explosions_age_and_fade_out() {
    let mut g = GameState::new();
    g.spawn_explosion(100, 200, enemy_color(1));
    g.spawn_explosion(300, 400, enemy_color(2));
    g.explosions[1].age = 12;
    g.step_explosions();
    assert_eq!(g.explosions.len(), 2);
    assert_eq!(g.explosions[0].age, 1);
    assert_eq!(g.explosions[1].age, 13);
    g.step_explosions();
    assert_eq!(g.explosions.len(), 1);
    assert_eq!(g.explosions[0], Explosion { x: 100, y: 200, age: 2, color: enemy_color(1) });
}

#[test]
fn explosion_lives_fourteen_ticks() {
    let mut g = GameState::new();
    g.spawn_explosion(100, 200, enemy_color(0));
    for _ in 0..13 {
        g.step_explosions();
        assert_eq!(g.explosions.len(), 1);
    }
    g.step_explosions();
    assert!(g.explosions.is_empty());
}

#[test]
fn first_tick_of_a_new_game() {
    let mut g = GameState::new();
    g.tick();
    assert_eq!(g.form_x, 80);
    assert_eq!(g.ship_x, 24000);
    assert_eq!(g.score, 0);
    assert!(!g.over);
}

#[test]
fn game_over_freezes_play() {
    let mut g = GameState::new();
    g.lives = 0;
    g.over = true;
    g.update_status();
    g.right = true;
    g.fire = true;
    g.tick();
    assert_eq!(g.ship_x, 24000);
    assert_eq!(g.form_x, 0);
    assert!(g.p_bullets.iter().all(|b| !b.active));
}

#[test]
fn long_play_keeps_rules() {
    let mut g = GameState::new();
    g.fire = true;
    let mut last_score = 0;
    for t in 0..3000 {
        if t % 200 == 0 {
            g.right = !g.right;
            g.left = !g.right;
        }
        g.tick();
        assert!(g.score >= last_score);
        last_score = g.score;
        assert_eq!(g.score as usize, 100 * (ENEMY_COUNT as usize - alive(&g)));
        assert!(g.ship_x >= SHIP_MIN_X && g.ship_x <= SHIP_MAX_X);
        assert!(g.lives >= 0 && g.lives <= 3);
        assert!(g.p_bullets.iter().filter(|b| b.active).count() <= 3);
        assert!(g.explosions.iter().all(|e| e.age >= 0 && e.age < 14));
        if g.won {
            assert!(g.over);
            assert_eq!(alive(&g), 0);
        }
    }
}

#[test]
fn key_mapping() {
    assert_eq!(control_for_key("ArrowLeft"), Some(Control::Left));
    assert_eq!(control_for_key("a"), Some(Control::Left));
    assert_eq!(control_for_key("A"), Some(Control::Left));
    assert_eq!(control_for_key("ArrowRight"), Some(Control::Right));
    assert_eq!(control_for_key("d"), Some(Control::Right));
    assert_eq!(control_for_key("D"), Some(Control::Right));
    assert_eq!(control_for_key(" "), Some(Control::Fire));
    assert_eq!(control_for_key("Spacebar"), Some(Control::Fire));
    assert_eq!(control_for_key("Enter"), Some(Control::Restart));
    assert_eq!(control_for_key("r"), Some(Control::Restart));
    assert_eq!(control_for_key("R"), Some(Control::Restart));
    assert_eq!(control_for_key("x"), None);
    assert_eq!(control_for_key("ArrowUp"), None);
    assert_eq!(control_for_key(""), None);
}

#[test]
fn keys_hold_and_release() {
    let mut g = GameState::new();
    assert!(g.key_down("ArrowLeft"));
    assert!(g.left);
    assert!(g.key_down("d"));
    assert!(g.right);
    assert!(g.key_down(" "));
    assert!(g.fire);
    assert!(!g.key_down("q"));
    g.key_up("a");
    assert!(!g.left);
    g.key_up("ArrowRight");
    assert!(!g.right);
    g.key_up("Spacebar");
    assert!(!g.fire);
}

#[test]
fn restart_only_after_game_over() {
    let mut g = GameState::new();
    g.enemies[0].alive = false;
    g.score = 100;
    g.update_status();
    assert!(g.key_down("Enter"));
    assert_eq!(g.score, 100);
    assert!(!g.enemies[0].alive);
    g.lives = 0;
    g.over = true;
    g.update_status();
    assert!(g.key_down("R"));
    assert_eq!(g.score, 0);
    assert_eq!(g.lives, 3);
    assert!(!g.over);
    assert_eq!(alive(&g), 32);
    assert_eq!(g.status, "SCORE 0    LIVES 3");
}

#[test]
fn on_screen_buttons() {
    let mut g = GameState::new();
    g.pointer_down(Button::Left);
    assert!(g.left);
    g.pointer_up(Button::Left);
    assert!(!g.left);
    g.pointer_down(Button::Right);
    assert!(g.right);
    g.pointer_up(Button::Right);
    assert!(!g.right);
    g.pointer_down(Button::Fire);
    assert!(g.fire);
    g.pointer_up(Button::Fire);
    assert!(!g.fire);
    g.lives = 0;
    g.over = true;
    g.update_status();
    g.pointer_down(Button::Fire);
    assert!(!g.over);
    assert!(!g.fire);
    assert_eq!(g.lives, 3);
}

#[test]
fn reset_clears_the_field() {
    let mut g = GameState::new();
    g.fire = true;
    for _ in 0..50 {
        g.tick();
    }
    g.lives = 0;
    g.over = true;
    g.update_status();
    let stars = g.stars.clone();
    let rng = g.rng;
    g.reset();
    assert_eq!(alive(&g), 32);
    assert!(g.p_bullets.iter().all(|b| !b.active));
    assert!(g.e_bullets.iter().all(|b| !b.active));
    assert!(g.explosions.is_empty());
    assert_eq!(g.stars, stars);
    assert_eq!(g.rng, rng);
    assert!(!g.fire);
    assert_eq!(g.fire_cooldown, 0);
}

#[test]
fn three_bullets_three_kills() {
    let mut g = GameState::new();
    // Enemies 0, 1 and 9: boxes at x 4300, 9500 and 9500 (second row).
    g.p_bullets[0] = Bullet { x: 4300, y: 6000, active: true };
    g.p_bullets[1] = Bullet { x: 12500, y: 8200, active: true };
    g.p_bullets[2] = Bullet { x: 10000, y: 11000, active: true };
    g.check_collisions();
    assert!(!g.enemies[0].alive && !g.enemies[1].alive && !g.enemies[9].alive);
    assert_eq!(alive(&g), 29);
    assert_eq!(g.score, 300);
    assert!(g.p_bullets.iter().all(|b| !b.active));
    assert_eq!(g.explosions.len(), 3);
    assert_eq!(g.explosions[2].color, enemy_color(1));
    assert_eq!(g.status, "SCORE 300    LIVES 3");
}
