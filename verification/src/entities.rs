use vstd::prelude::*;

verus! {

// All lengths are in hundredths of a pixel ("units"); the playfield is
// 480 x 600 pixels.
/// Units per pixel.
pub const UNITS_PER_PIXEL: i32 = 100;
/// Width of the playfield.
pub const FIELD_W: i32 = 48000;
/// Height of the playfield.
pub const FIELD_H: i32 = 60000;

/// Width of the player's ship.
pub const SHIP_W: i32 = 3400;
/// Height of the player's ship.
pub const SHIP_H: i32 = 2200;
/// Distance the ship moves in one tick while a direction is held.
pub const SHIP_SPEED: i32 = 500;
/// The line the bottom of the ship stands on.
pub const SHIP_Y: i32 = 56000;
/// Top of the ship, where the player's bullets appear.
pub const SHIP_TOP: i32 = SHIP_Y - SHIP_H;
/// Leftmost centre the ship may reach.
pub const SHIP_MIN_X: i32 = 1700;
/// Rightmost centre the ship may reach.
pub const SHIP_MAX_X: i32 = FIELD_W - SHIP_MIN_X;

/// Columns of the enemy formation.
pub const ENEMY_COLS: i32 = 8;
/// Rows of the enemy formation.
pub const ENEMY_ROWS: i32 = 4;
/// Number of enemies in a fresh formation.
pub const ENEMY_COUNT: i32 = ENEMY_COLS * ENEMY_ROWS;
/// Width of one enemy.
pub const ENEMY_W: i32 = 3000;
/// Height of one enemy.
pub const ENEMY_H: i32 = 2200;
/// Horizontal gap between two enemies of a row.
pub const ENEMY_GAP_X: i32 = 2200;
/// Vertical gap between two rows.
pub const ENEMY_GAP_Y: i32 = 2000;
/// Top of the first row.
pub const ENEMY_TOP: i32 = 6000;
/// Left edge of the first column: the formation is centred on the field.
pub const ENEMY_LEFT: i32 = 4300;
/// Distance between the left edges of two neighbouring columns.
pub const ENEMY_STRIDE_X: i32 = ENEMY_W + ENEMY_GAP_X;
/// Distance between the tops of two neighbouring rows.
pub const ENEMY_STRIDE_Y: i32 = ENEMY_H + ENEMY_GAP_Y;
/// The formation turns when its edge would come this close to a field edge.
pub const FORMATION_MARGIN: i32 = 600;
/// How far the formation descends at each turn.
pub const FORMATION_DROP: i32 = 1400;
/// Base speed of the formation.
pub const FORMATION_BASE_SPEED: i32 = 80;
/// Extra formation speed for each destroyed enemy.
pub const FORMATION_SPEEDUP: i32 = 6;

/// Distance a player's bullet climbs in one tick.
pub const P_BULLET_SPEED: i32 = 900;
/// Distance an enemy bullet falls in one tick.
pub const E_BULLET_SPEED: i32 = 400;
/// Size of the pool of player bullets.
pub const MAX_P_BULLETS: usize = 3;
/// Size of the pool of enemy bullets.
pub const MAX_E_BULLETS: usize = 6;
/// How far past a field edge a bullet flies before it is retired.
pub const BULLET_MARGIN: i32 = 800;
/// Ticks between two shots of the player.
pub const FIRE_COOLDOWN: i32 = 8;

/// Ticks an explosion lives.
pub const EXPLO_LIFE: i32 = 14;
/// Number of background stars.
pub const STAR_COUNT: usize = 48;
/// Slowest star speed, in units.
pub const STAR_MIN_SPEED: i32 = 40;
/// Range of star speeds above the slowest, in units.
pub const STAR_SPEED_RANGE: i32 = 160;
/// Stars are placed by fractions `r / 2^32` of the generator's draws, so
/// their places and speeds are kept exactly, in star units: 2^32 star units
/// make one unit.
pub const STAR_UNITS_PER_UNIT: i64 = 0x1_0000_0000;

/// Points for each destroyed enemy.
pub const ENEMY_POINTS: i32 = 100;
/// Lives at the start of a game.
pub const START_LIVES: i32 = 3;

/// A colour with 8-bit red, green, blue and alpha channels.
#[derive(Clone, Copy, Debug, PartialEq, Eq, Structural)]
pub struct Rgba {
    pub r: u8,
    pub g: u8,
    pub b: u8,
    pub a: u8,
}

/// A bullet of a pool; inactive bullets are free slots.
#[derive(Clone, Copy, Debug, PartialEq, Eq, Structural)]
pub struct Bullet {
    pub x: i32,
    pub y: i32,
    pub active: bool,
}

/// An enemy of the formation, at its place relative to the formation's offset.
#[derive(Clone, Copy, Debug, PartialEq, Eq, Structural)]
pub struct Enemy {
    pub x: i32,
    pub y: i32,
    pub alive: bool,
    pub row: i32,
}

/// A background star falling at its own speed, in star units.
#[derive(Clone, Copy, Debug, PartialEq, Eq, Structural)]
pub struct Star {
    pub x: i64,
    pub y: i64,
    pub speed: i64,
}

/// An explosion, `age` ticks old.
#[derive(Clone, Copy, Debug, PartialEq, Eq, Structural)]
pub struct Explosion {
    pub x: i32,
    pub y: i32,
    pub age: i32,
    pub color: Rgba,
}

/// Builds a colour from its channels.
pub open spec fn rgba(r: u8, g: u8, b: u8, a: u8) -> Rgba {
    Rgba { r, g, b, a }
}

/// Colour of the sky.
pub fn col_bg() -> (c: Rgba)
    ensures
        c == rgba(6, 8, 22, 255),
{
    Rgba { r: 6, g: 8, b: 22, a: 255 }
}

/// Colour of the enemies of a row.
pub open spec fn spec_enemy_color(row: i32) -> Rgba {
    if row == 0 {
        rgba(255, 90, 110, 255)
    } else if row == 1 {
        rgba(255, 160, 60, 255)
    } else if row == 2 {
        rgba(120, 230, 140, 255)
    } else {
        rgba(190, 130, 255, 255)
    }
}

/// Colour of the enemies of a row: each of the first three rows has its
/// own, every other row shares the fourth.
pub fn enemy_color(row: i32) -> (c: Rgba)
    ensures
        c == spec_enemy_color(row),
{
    match row {
        0 => Rgba { r: 255, g: 90, b: 110, a: 255 },
        1 => Rgba { r: 255, g: 160, b: 60, a: 255 },
        2 => Rgba { r: 120, g: 230, b: 140, a: 255 },
        _ => Rgba { r: 190, g: 130, b: 255, a: 255 },
    }
}

/// Colour of the ship's explosion.
pub open spec fn ship_explosion_color() -> Rgba {
    rgba(255, 140, 40, 255)
}

} // verus!
