//! Rules engine of a falling-block puzzle game: the board, the pieces and
//! their geometry, collision tests, line clearing, and the frame-driven
//! state machine that merges the timed inputs into one board mutation.
pub mod board;
pub mod piece;
pub mod session;
pub mod shape;
