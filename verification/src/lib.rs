//! Briscola, the Italian trick-taking card game: cards and deck, the scoring
//! and trick rules, the computer opponents, the terminal game and the table
//! state machine that drives the browser game.

pub mod card;
pub mod rules;
pub mod chance;
pub mod ai;
pub mod hand;
pub mod deck;
pub mod text;
pub mod painter;
pub mod player;
pub mod game;
pub mod console;
pub mod constants;
pub mod table;
pub mod table_laws;
pub mod gesture;
