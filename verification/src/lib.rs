//! Core of a sliding-tile puzzle (15-puzzle style).
//!
//! The crate owns the puzzle board state machine: the grid model with its
//! two mutually inverse tile/position mappings, the blank-adjacency move
//! rule, the pixel/grid coordinate mapping, and reset-to-origin semantics.
//! Rendering, input polling and window management are left to the caller,
//! which feeds plain pixel positions, direction keys and viewport sizes in
//! and reads tile positions back out.

pub mod board;
pub mod layout;
pub mod position;
pub mod resolver;
pub mod session;

pub use board::{Board, BoardView, Snapshot};
pub use layout::Layout;
pub use position::Position;
pub use resolver::{Command, Direction};
pub use session::{GameState, Session};
