//! Real-time state synchronization and piece prediction for a falling-block
//! puzzle overlay assistant.
//!
//! The library turns noisy point-in-time samples of a game's state into a
//! deduplicated stream of board snapshots, predicts hidden upcoming pieces
//! from seven-bag elimination, packs board occupancy for a placement-search
//! oracle, and maps the oracle's placements into renderable cell geometry.
//! Process attachment, memory reading, the search oracle itself, and the
//! rendering loop are external collaborators and live outside this crate.

pub mod board;
pub mod broadcast;
pub mod detector;
pub mod plan;
pub mod state;

pub use board::Board;
pub use board::BoardEvent;
pub use broadcast::BroadcastDecision;
pub use broadcast::Broadcaster;
pub use detector::Detector;
pub use detector::Phase;
pub use detector::RawSample;
pub use plan::Direction;
pub use plan::EdgeSet;
pub use plan::PieceType;
pub use plan::Placement;
pub use plan::Rotation;
pub use state::State;
