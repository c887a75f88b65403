//! A rule-driven board-game engine generalising chess to arbitrary board
//! sizes, team counts and per-piece movement rules.
pub mod vec2;
pub mod error;
pub mod team;
pub mod piece_rules;
pub mod moves;
pub mod generation;
pub mod piece;
pub mod tile;
pub mod piece_set;
pub mod board;
pub mod game;
pub mod legality;
