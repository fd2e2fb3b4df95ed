//! The rules of a grid-based Snake game: the snake and its moves, food
//! placement, difficulty and speed, the time-gated step engine, the menu
//! state machine and the high-score table. Drawing, sound, windowing and
//! file storage live with the host program.
pub mod grid;
pub mod difficulty;
pub mod scores;
pub mod snake;
pub mod text;
pub mod game;
