//! Verified simulation core of a falling-block puzzle game: a fixed grid of
//! settled cells, an optional falling piece, collision detection, gravity
//! stepping, lateral movement, and full-row clearing.

pub mod board;
pub mod grid;
pub mod piece;

pub use board::BlockCommand;
pub use board::Board;
pub use board::UserInput;
pub use grid::Cell;
pub use grid::Cells;
pub use grid::CELLS_HIGH;
pub use grid::CELLS_WIDE;
pub use grid::clear_full_rows;
pub use grid::empty_cells;
pub use piece::Block;
pub use piece::FallingBlock;
