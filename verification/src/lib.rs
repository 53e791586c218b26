//! Heuristic board evaluation and T-spin opportunity detection for a
//! Tetris-playing agent: geometry metrics over a board's column-height
//! profile, sliding-window T-slot shape detectors, a cutout simulator that
//! chains discovered T-spins, a weighted score aggregator, and a best-move
//! selector over candidate boards.

pub mod board;
pub mod chooser;
pub mod cutout;
pub mod detect;
pub mod grid_placements;
pub mod lock;
pub mod metrics;
pub mod piece;
pub mod score;
pub mod weights;

pub use board::{Board, PieceSet};
pub use chooser::{choose_best_board, ScoredBoard};
pub use grid_placements::{apply_placements, Placement};
pub use lock::{LockResult, PlacementKind};
pub use piece::{FallingPiece, Piece, PieceState, RotationState, TspinStatus};
pub use weights::Standard;
