pub mod team;
pub mod vec2;
pub mod coords;
pub mod piece_type;
pub mod piece;
pub mod moves;
pub mod board;
pub mod state;
