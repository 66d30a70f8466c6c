//! A verified shoot-'em-up engine: the rules of a small Galaga-style game,
//! written over integer coordinates and proved to keep the game well formed.
pub mod controls;
pub mod entities;
pub mod game;
pub mod laws;
pub mod lemmas;
pub mod model;
pub mod play_laws;
pub mod rng;
pub mod scene;
pub mod text;
