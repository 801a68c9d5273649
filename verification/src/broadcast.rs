//! Result deduplicator and broadcaster: accepts the oracle's candidate for
//! each snapshot, suppresses structurally identical repeats, and turns a
//! fresh candidate into an overlay payload.

use vstd::prelude::*;

use crate::plan::Cells;
use crate::plan::Placement;
use crate::plan::cell_view;
use crate::plan::placement_cell;
use crate::plan::placement_in_range;

verus! {

/// What the broadcaster does with one candidate: stay silent, or announce a
/// payload — either the first placement's four cells, or nothing to show.
#[derive(Clone, Debug, PartialEq)]
pub enum BroadcastDecision {
    Suppress,
    Announce(Option<Cells>),
}

/// The mathematical value of a stored or candidate solution: an optional
/// placement sequence.
pub open spec fn solution_view(s: Option<Vec<Placement>>) -> Option<Seq<Placement>> {
    match s {
        Some(v) => Some(v@),
        None => None,
    }
}

/// Whether a candidate is announced: exactly when it differs structurally
/// from the last broadcast one.
pub open spec fn accept_emits(last: Option<Seq<Placement>>, cand: Option<Seq<Placement>>) -> bool {
    last != cand
}

/// The broadcaster's memory after a candidate: always that candidate.
pub open spec fn accept_next(last: Option<Seq<Placement>>, cand: Option<Seq<Placement>>) -> Option<
    Seq<Placement>,
> {
    cand
}

/// The result deduplicator: remembers the last broadcast solution.
pub struct Broadcaster {
    pub last_broadcast: Option<Vec<Placement>>,
}

impl View for Broadcaster {
    type V = Option<Seq<Placement>>;

    open spec fn view(&self) -> Option<Seq<Placement>> {
        solution_view(self.last_broadcast)
    }
}

/// Whether two placement sequences are structurally identical.
fn vec_eq_placement(a: &Vec<Placement>, b: &Vec<Placement>) -> (r: bool)
    ensures
        r == (a@ == b@),
{
    if a.len() != b.len() {
        return false;
    }
    let mut i: usize = 0;
    while i < a.len()
        invariant
            a@.len() == b@.len(),
            i <= a@.len(),
            forall|j: int| 0 <= j < i ==> a@[j] == b@[j],
        decreases a@.len() - i,
    {
        if a[i] != b[i] {
            return false;
        }
        i += 1;
    }
    proof {
        assert(a@ =~= b@);
    }
    true
}

/// Whether two optional solutions are structurally identical.
fn solution_eq(a: &Option<Vec<Placement>>, b: &Option<Vec<Placement>>) -> (r: bool)
    ensures
        r == (solution_view(*a) == solution_view(*b)),
{
    match (a, b) {
        (None, None) => true,
        (Some(x), Some(y)) => vec_eq_placement(x, y),
        _ => false,
    }
}

impl Broadcaster {
    /// A broadcaster that has announced nothing yet.
    pub fn new() -> (r: Broadcaster)
        ensures
            r@ is None,
    {
        Broadcaster { last_broadcast: None }
    }

    /// Accept the oracle's candidate for one snapshot. A candidate that is
    /// structurally identical to the last broadcast one is suppressed; a
    /// differing candidate is announced — its first placement's cells when a
    /// solution exists, an empty payload when the board came back
    /// unsolvable — and remembered.
    pub fn accept(&mut self, candidate: Option<Vec<Placement>>) -> (r: BroadcastDecision)
        requires
            candidate matches Some(c) ==> c@.len() > 0 && placement_in_range(c@[0]),
        ensures
            final(self)@ == accept_next(old(self)@, solution_view(candidate)),
            (r is Announce) == accept_emits(old(self)@, solution_view(candidate)),
            r matches BroadcastDecision::Announce(p) ==> match candidate {
                None => p is None,
                Some(c) => p matches Some(cells) && forall|i: int|
                    0 <= i < 4 ==> cell_view(cells[i]) == placement_cell(c@[0], i),
            },
    {
        let equal = solution_eq(&self.last_broadcast, &candidate);
        if equal {
            BroadcastDecision::Suppress
        } else {
            let payload = match &candidate {
                None => None,
                Some(c) => Some(c[0].cells()),
            };
            self.last_broadcast = candidate;
            BroadcastDecision::Announce(payload)
        }
    }
}

/// Deduplication: a candidate is announced exactly when it differs
/// structurally from the last broadcast one, and the broadcaster then
/// remembers it — so of two consecutive structurally identical candidates
/// at most the first is announced, while any structural difference is
/// always announced.
pub proof fn lemma_dedup(
    last: Option<Seq<Placement>>,
    c1: Option<Seq<Placement>>,
    c2: Option<Seq<Placement>>,
)
    ensures
        accept_emits(last, c1) == (last != c1),
        c2 == c1 ==> !accept_emits(accept_next(last, c1), c2),
        c2 != c1 ==> accept_emits(accept_next(last, c1), c2),
{
}

} // verus!
