//! Rules engine of a falling-block puzzle game: playfield, pieces, line
//! clearing, scoring and the high-score table, with their contracts.

pub mod color;
pub mod constants;
pub mod game;
pub mod score;
pub mod board;
pub mod tetromino;
mod text;

pub use board::GameBoard;
pub use color::Color;
pub use game::{GameEvent, GameScreen, GameState, Input, Movement, SoundCue};
pub use score::{format_score, HighScoreEntry, HighScores};
pub use tetromino::{Position, Tetromino, TetrominoType};
