# galaga

A small Galaga-style shoot-'em-up whose rules are a library verified with
Verus, and a browser front end built on fui-rs that draws it.

## Layout

- `src/entities.rs` — the game's constants, its entities (bullets, enemies,
  stars, explosions) and its palette.
- `src/rng.rs` — the xorshift32 generator the game draws from.
- `src/model.rs` — the model: a game as plain values, what a well-formed game
  is, and each rule of a tick as a function from state to state.
- `src/game.rs` — `GameState` and its operations (`new`, `reset`, `tick` and
  its steps), each proved to compute the model's function and to keep the
  game well formed.
- `src/controls.rs` — keys and on-screen buttons.
- `src/scene.rs` — the picture of a game, as a list of shapes.
- `src/text.rs` — the status line.
- `src/lemmas.rs`, `src/laws.rs` — the proofs the operations rest on, and the
  laws of the game (the score counts destroyed enemies, everything stays on
  the field, a tick never revives an enemy, a finished game stays finished,
  ...).
- `app/` — the page: canvas, status line, buttons, the clock that ticks the
  game, and the painting of its shapes.

## Units

The library holds no floating point; it counts in whole numbers of small
units, fine enough that every length of the game is exact:

- the field, the ship, the formation and the bullets in hundredths of a
  pixel (`UNITS_PER_PIXEL`), so the 480 x 600 pixel field is 48000 x 60000
  units and every speed is a whole number of units per tick;
- the stars in star units, 2^32 to the unit (`STAR_UNITS_PER_UNIT`): a draw
  `r` of the generator stands for the fraction `r / 2^32`, and a star placed
  or sped by a draw is kept exactly;
- the picture in picture units, 7 * 2^32 to the unit
  (`PICTURE_UNITS_PER_UNIT`), so that the stars and the explosions, whose
  lengths are in fourteenths of a pixel, are drawn exactly.

The front end divides by the units per pixel to draw.
