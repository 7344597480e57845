//! The state engine of a snake game on a wrap-around square board: the board's
//! coordinate arithmetic, the snake's moves and growth, and food placement.
pub mod point;
pub mod snake;
pub mod land;
pub mod game;
