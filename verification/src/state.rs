//! A directly sampled game state, as read in one sweep from the observed
//! process.

use vstd::prelude::*;

use crate::board::grid_view;
use crate::board::wf_columns;

verus! {

/// A point-in-time game state: the column grid, the piece in play, the held
/// piece, and the upcoming queue in reveal order. Unlike a detector
/// snapshot, the queue here is exactly what the process exposes.
#[derive(Clone, Debug, PartialEq)]
pub struct State {
    pub columns: Vec<Vec<i32>>,
    pub current_piece: Option<u32>,
    pub hold: Option<u32>,
    pub next_queue: Vec<u32>,
}

impl State {
    /// A well-formed state has a ten-by-twenty grid and only valid piece
    /// identifiers.
    pub open spec fn wf(&self) -> bool {
        &&& wf_columns(grid_view(self.columns))
        &&& self.current_piece matches Some(p) ==> p < 7
        &&& self.hold matches Some(p) ==> p < 7
        &&& forall|i: int| 0 <= i < self.next_queue@.len() ==> self.next_queue@[i] < 7
    }
}

} // verus!
