//! Rules engine for a two-player Battleship match: boards, the ship catalog,
//! placement validation, turn order and guess resolution.

pub mod board;
pub mod catalog;
pub mod error;
pub mod fleet;
pub mod game;
pub mod laws;
pub mod model;
pub mod player;
pub mod service;
pub mod ship;
pub mod text;
