//! Transition detector and bag predictor: turns raw point-in-time samples
//! into debounced board snapshots, tracking the seven-bag randomizer to
//! predict the one piece hidden just beyond the preview window.

use vstd::prelude::*;

use crate::board::Board;
use crate::board::columns_well_formed;
use crate::board::grid_view;
use crate::board::wf_columns;

verus! {

/// The detector's explicit account of a "no current piece" reading: a piece
/// is in play, a lock or clear animation may be running, or a bag boundary
/// has been confirmed.
#[derive(Clone, Copy, Debug, PartialEq, Eq, Structural)]
pub enum Phase {
    Active,
    LockPending,
    BagBoundary,
}

/// One point-in-time reading of the observed game: the piece in play, the
/// column grid, the preview queue in reveal order (earliest next first), and
/// the held piece. Every field was read successfully this tick.
pub struct RawSample {
    pub current_piece: Option<u32>,
    pub columns: Vec<Vec<i32>>,
    pub preview_queue: Vec<u32>,
    pub held_piece: Option<u32>,
}

/// The mathematical value of a raw sample.
pub struct SampleModel {
    pub current_piece: Option<u32>,
    pub grid: Seq<Seq<i32>>,
    pub preview: Seq<u32>,
    pub held: Option<u32>,
}

impl View for RawSample {
    type V = SampleModel;

    open spec fn view(&self) -> SampleModel {
        SampleModel {
            current_piece: self.current_piece,
            grid: grid_view(self.columns),
            preview: self.preview_queue@,
            held: self.held_piece,
        }
    }
}

/// Whether every entry of a piece sequence is a valid identifier.
fn ids_below_seven(v: &Vec<u32>) -> (r: bool)
    ensures
        r == (forall|i: int| 0 <= i < v@.len() ==> v@[i] < 7),
{
    let mut i: usize = 0;
    while i < v.len()
        invariant
            i <= v@.len(),
            forall|j: int| 0 <= j < i ==> v@[j] < 7,
        decreases v@.len() - i,
    {
        if v[i] >= 7 {
            return false;
        }
        i += 1;
    }
    true
}

impl RawSample {
    /// A well-formed sample has a ten-by-twenty grid and only valid piece
    /// identifiers: exactly the domain the detector is specified over.
    pub open spec fn wf(&self) -> bool {
        &&& wf_columns(grid_view(self.columns))
        &&& self.current_piece matches Some(p) ==> p < 7
        &&& self.held_piece matches Some(p) ==> p < 7
        &&& forall|i: int| 0 <= i < self.preview_queue@.len() ==> self.preview_queue@[i] < 7
    }

    /// Whether this sample is well formed. A reading that fails this check
    /// is malformed and is treated like a transient read failure: the tick
    /// is dropped.
    pub fn is_valid(&self) -> (r: bool)
        ensures
            r == self.wf(),
    {
        let cols_ok = columns_well_formed(&self.columns);
        let current_ok = match self.current_piece {
            Some(p) => p < 7,
            None => true,
        };
        let held_ok = match self.held_piece {
            Some(p) => p < 7,
            None => true,
        };
        let preview_ok = ids_below_seven(&self.preview_queue);
        cols_ok && current_ok && held_ok && preview_ok
    }
}

/// The mathematical value of an emitted snapshot.
pub struct SnapshotModel {
    pub grid: Seq<Seq<i32>>,
    pub current_piece: Option<u32>,
    pub hold: Option<u32>,
    pub next: Seq<u32>,
}

/// The mathematical value of an emitted `Board`.
pub open spec fn snapshot_model(b: Board) -> SnapshotModel {
    SnapshotModel {
        grid: b.grid(),
        current_piece: b.current_piece,
        hold: b.hold,
        next: b.next_pieces@,
    }
}

/// The mathematical value of the detector's state.
pub struct DetectorModel {
    pub last_current: Option<u32>,
    pub unseen: Seq<u32>,
    pub last_preview: Seq<u32>,
    pub phase: Phase,
}

/// The full bag: each of the seven piece identifiers once, ascending.
pub open spec fn full_bag() -> Seq<u32> {
    seq![0u32, 1u32, 2u32, 3u32, 4u32, 5u32, 6u32]
}

/// The piece identifiers below `k` that the preview does not contain,
/// ascending.
pub open spec fn complement_upto(preview: Seq<u32>, k: nat) -> Seq<u32>
    decreases k,
{
    if k == 0 {
        Seq::empty()
    } else {
        complement_upto(preview, (k - 1) as nat) + if preview.contains(((k - 1) as nat) as u32) {
            Seq::empty()
        } else {
            seq![((k - 1) as nat) as u32]
        }
    }
}

/// The piece identifiers of the full seven-bag that the preview does not
/// contain, ascending.
pub open spec fn bag_complement(preview: Seq<u32>) -> Seq<u32> {
    complement_upto(preview, 7)
}

/// `s` with every occurrence of `p` removed, order otherwise kept.
pub open spec fn remove_piece(s: Seq<u32>, p: u32) -> Seq<u32>
    decreases s.len(),
{
    if s.len() == 0 {
        Seq::empty()
    } else {
        remove_piece(s.drop_last(), p) + if s.last() == p {
            Seq::empty()
        } else {
            seq![s.last()]
        }
    }
}

/// The unseen set after comparing the sampled preview against the last one:
/// when a new piece has been revealed at the tail, that piece's type leaves
/// the unseen set.
pub open spec fn unseen_after_reveal(
    unseen: Seq<u32>,
    last_preview: Seq<u32>,
    preview: Seq<u32>,
) -> Seq<u32> {
    if preview != last_preview && preview.len() > 0 {
        remove_piece(unseen, preview.last())
    } else {
        unseen
    }
}

/// The piece provably next, by elimination: present exactly when one
/// candidate is left unseen.
pub open spec fn predicted(unseen: Seq<u32>) -> Option<u32> {
    if unseen.len() == 1 {
        Some(unseen[0])
    } else {
        None
    }
}

/// The snapshot queue: the preview in reveal order, extended by the one
/// predicted entry when the unseen set has a single candidate.
pub open spec fn next_with_prediction(preview: Seq<u32>, unseen: Seq<u32>) -> Seq<u32> {
    match predicted(unseen) {
        Some(p) => preview + seq![p],
        None => preview,
    }
}

/// An empty unseen set means the current bag is fully observed: tracking
/// restarts with the full seven-bag.
pub open spec fn unseen_after_reset(unseen: Seq<u32>) -> Seq<u32> {
    if unseen.len() == 0 {
        full_bag()
    } else {
        unseen
    }
}

/// The snapshot emitted for a changed current piece.
pub open spec fn emit_model(d: DetectorModel, s: SampleModel) -> SnapshotModel {
    let u1 = unseen_after_reveal(d.unseen, d.last_preview, s.preview);
    SnapshotModel {
        grid: s.grid,
        current_piece: s.current_piece,
        hold: s.held,
        next: next_with_prediction(s.preview, u1),
    }
}

/// The detector state after emitting a snapshot.
pub open spec fn detector_after_emit(d: DetectorModel, s: SampleModel) -> DetectorModel {
    let u1 = unseen_after_reveal(d.unseen, d.last_preview, s.preview);
    DetectorModel {
        last_current: s.current_piece,
        unseen: unseen_after_reset(u1),
        last_preview: s.preview,
        phase: if s.current_piece is Some {
            Phase::Active
        } else {
            Phase::LockPending
        },
    }
}

/// One detector step. A snapshot is emitted exactly when the sampled
/// current piece differs from the last one seen (the debounce); a "no
/// piece" reading persisting past the lock-pending tick confirms a bag
/// boundary and reinitializes the unseen set from the preview.
pub open spec fn step_model(d: DetectorModel, s: SampleModel) -> (DetectorModel, Option<
    SnapshotModel,
>) {
    if s.current_piece != d.last_current {
        (detector_after_emit(d, s), Some(emit_model(d, s)))
    } else if d.phase is LockPending && s.current_piece is None {
        (
            DetectorModel {
                last_current: d.last_current,
                unseen: bag_complement(s.preview),
                last_preview: s.preview,
                phase: Phase::BagBoundary,
            },
            None,
        )
    } else {
        (d, None)
    }
}

/// The detector's starting state: nothing seen yet, a full bag untracked.
pub open spec fn initial_model() -> DetectorModel {
    DetectorModel {
        last_current: None,
        unseen: full_bag(),
        last_preview: Seq::empty(),
        phase: Phase::LockPending,
    }
}

/// The transition detector and bag predictor. Owns the bag state
/// exclusively; samples go in, debounced enriched snapshots come out.
pub struct Detector {
    pub last_current: Option<u32>,
    pub unseen: Vec<u32>,
    pub last_preview: Vec<u32>,
    pub phase: Phase,
}

impl View for Detector {
    type V = DetectorModel;

    open spec fn view(&self) -> DetectorModel {
        DetectorModel {
            last_current: self.last_current,
            unseen: self.unseen@,
            last_preview: self.last_preview@,
            phase: self.phase,
        }
    }
}

/// Whether two piece options are the same.
fn opt_eq(a: Option<u32>, b: Option<u32>) -> (r: bool)
    ensures
        r == (a == b),
{
    match (a, b) {
        (None, None) => true,
        (Some(x), Some(y)) => x == y,
        _ => false,
    }
}

/// Whether two piece sequences are the same.
fn vec_eq_u32(a: &Vec<u32>, b: &Vec<u32>) -> (r: bool)
    ensures
        r == (a@ == b@),
{
    if a.len() != b.len() {
        return false;
    }
    let mut i: usize = 0;
    while i < a.len()
        invariant
            a@.len() == b@.len(),
            i <= a@.len(),
            forall|j: int| 0 <= j < i ==> a@[j] == b@[j],
        decreases a@.len() - i,
    {
        if a[i] != b[i] {
            return false;
        }
        i += 1;
    }
    proof {
        assert(a@ =~= b@);
    }
    true
}

/// A fresh copy of a piece sequence.
fn copy_vec_u32(v: &Vec<u32>) -> (r: Vec<u32>)
    ensures
        r@ == v@,
{
    let mut out: Vec<u32> = Vec::new();
    let mut i: usize = 0;
    while i < v.len()
        invariant
            i <= v@.len(),
            out@ == v@.take(i as int),
        decreases v@.len() - i,
    {
        out.push(v[i]);
        proof {
            assert(v@.take(i as int) + seq![v@[i as int]] =~= v@.take(i + 1));
        }
        i += 1;
    }
    proof {
        assert(v@.take(v@.len() as int) =~= v@);
    }
    out
}

/// A fresh copy of a column grid.
fn copy_columns(cols: &Vec<Vec<i32>>) -> (r: Vec<Vec<i32>>)
    ensures
        grid_view(r) == grid_view(*cols),
{
    let mut out: Vec<Vec<i32>> = Vec::new();
    let mut x: usize = 0;
    while x < cols.len()
        invariant
            x <= cols@.len(),
            out@.len() == x,
            forall|i: int| 0 <= i < x ==> #[trigger] out@[i]@ == cols@[i]@,
        decreases cols@.len() - x,
    {
        let col = &cols[x];
        let mut c: Vec<i32> = Vec::new();
        let mut y: usize = 0;
        while y < col.len()
            invariant
                y <= col@.len(),
                c@ == col@.take(y as int),
            decreases col@.len() - y,
        {
            c.push(col[y]);
            proof {
                assert(col@.take(y as int) + seq![col@[y as int]] =~= col@.take(y + 1));
            }
            y += 1;
        }
        proof {
            assert(col@.take(col@.len() as int) =~= col@);
        }
        out.push(c);
        x += 1;
    }
    proof {
        assert(grid_view(out) =~~= grid_view(*cols));
    }
    out
}

/// Whether a piece sequence contains `p`.
fn vec_contains_u32(v: &Vec<u32>, p: u32) -> (r: bool)
    ensures
        r == v@.contains(p),
{
    let mut i: usize = 0;
    while i < v.len()
        invariant
            i <= v@.len(),
            forall|j: int| 0 <= j < i ==> v@[j] != p,
        decreases v@.len() - i,
    {
        if v[i] == p {
            return true;
        }
        i += 1;
    }
    false
}

/// The unseen pieces of the full seven-bag given a preview: each identifier
/// below seven not in the preview, ascending.
fn bag_complement_vec(preview: &Vec<u32>) -> (r: Vec<u32>)
    ensures
        r@ == bag_complement(preview@),
{
    let mut out: Vec<u32> = Vec::new();
    let mut k: u32 = 0;
    while k < 7
        invariant
            k <= 7,
            out@ == complement_upto(preview@, k as nat),
        decreases 7 - k,
    {
        if !vec_contains_u32(preview, k) {
            out.push(k);
        }
        proof {
            assert(complement_upto(preview@, (k + 1) as nat) == complement_upto(preview@, k as nat)
                + if preview@.contains(k) {
                Seq::<u32>::empty()
            } else {
                seq![k]
            });
            if !preview@.contains(k) {
                assert(complement_upto(preview@, k as nat) + seq![k] =~= out@);
            } else {
                assert(complement_upto(preview@, k as nat) + Seq::<u32>::empty() =~= out@);
            }
        }
        k += 1;
    }
    out
}

/// `v` without any occurrence of `p`, order otherwise kept.
fn remove_piece_vec(v: &Vec<u32>, p: u32) -> (r: Vec<u32>)
    ensures
        r@ == remove_piece(v@, p),
{
    let mut out: Vec<u32> = Vec::new();
    let mut i: usize = 0;
    while i < v.len()
        invariant
            i <= v@.len(),
            out@ == remove_piece(v@.take(i as int), p),
        decreases v@.len() - i,
    {
        let e = v[i];
        proof {
            assert(v@.take(i + 1).drop_last() =~= v@.take(i as int));
            assert(v@.take(i + 1).last() == v@[i as int]);
        }
        if e != p {
            out.push(e);
            proof {
                assert(remove_piece(v@.take(i as int), p) + seq![v@[i as int]] =~= out@);
            }
        } else {
            proof {
                assert(remove_piece(v@.take(i as int), p) + Seq::<u32>::empty() =~= remove_piece(
                    v@.take(i as int),
                    p,
                ));
            }
        }
        i += 1;
    }
    proof {
        assert(v@.take(v@.len() as int) =~= v@);
    }
    out
}

/// The full seven-bag as executable data.
fn full_bag_vec() -> (r: Vec<u32>)
    ensures
        r@ == full_bag(),
{
    let out: Vec<u32> = vec![0u32, 1u32, 2u32, 3u32, 4u32, 5u32, 6u32];
    proof {
        assert(out@ =~= full_bag());
    }
    out
}

impl Detector {
    /// A detector that has seen nothing yet.
    pub fn new() -> (r: Detector)
        ensures
            r@ == initial_model(),
    {
        let d = Detector {
            last_current: None,
            unseen: full_bag_vec(),
            last_preview: Vec::new(),
            phase: Phase::LockPending,
        };
        proof {
            assert(d@.last_preview =~= initial_model().last_preview);
        }
        d
    }

    /// Consume one complete sample: emit a snapshot exactly when the
    /// current piece changed since the last one seen, updating the bag
    /// state as `step_model` describes.
    pub fn step(&mut self, sample: &RawSample) -> (r: Option<Board>)
        ensures
            final(self)@ == step_model(old(self)@, sample@).0,
            (r is Some) == (step_model(old(self)@, sample@).1 is Some),
            (r is Some) == (sample.current_piece != old(self).last_current),
            r matches Some(b) ==> Some(snapshot_model(b)) == step_model(old(self)@, sample@).1,
            final(self).last_current == sample.current_piece,
    {
        let changed = !opt_eq(self.last_current, sample.current_piece);
        if changed {
            let preview_changed = !vec_eq_u32(&self.last_preview, &sample.preview_queue);
            if preview_changed && sample.preview_queue.len() > 0 {
                let newly = sample.preview_queue[sample.preview_queue.len() - 1];
                proof {
                    assert(newly == sample.preview_queue@.last());
                }
                self.unseen = remove_piece_vec(&self.unseen, newly);
            }
            proof {
                assert(self.unseen@ == unseen_after_reveal(
                    old(self)@.unseen,
                    old(self)@.last_preview,
                    sample@.preview,
                ));
            }
            let mut next = copy_vec_u32(&sample.preview_queue);
            if self.unseen.len() == 1 {
                next.push(self.unseen[0]);
                proof {
                    assert(next@ =~= next_with_prediction(sample@.preview, self.unseen@));
                }
            } else {
                proof {
                    assert(next@ == next_with_prediction(sample@.preview, self.unseen@));
                }
            }
            if self.unseen.len() == 0 {
                self.unseen = full_bag_vec();
            }
            self.last_preview = copy_vec_u32(&sample.preview_queue);
            self.last_current = sample.current_piece;
            self.phase = if sample.current_piece.is_some() {
                Phase::Active
            } else {
                Phase::LockPending
            };
            let board = Board {
                columns: copy_columns(&sample.columns),
                current_piece: sample.current_piece,
                hold: sample.held_piece,
                next_pieces: next,
            };
            Some(board)
        } else {
            let boundary = matches!(self.phase, Phase::LockPending) && sample.current_piece.is_none();
            if boundary {
                self.unseen = bag_complement_vec(&sample.preview_queue);
                self.last_preview = copy_vec_u32(&sample.preview_queue);
                self.phase = Phase::BagBoundary;
            }
            None
        }
    }
}

/// Debounce leaves the detector untouched: while a piece is in play, a
/// tick whose current piece matches the last seen one emits nothing and
/// changes no state. (The in-play side condition is necessary: on a
/// persisting no-piece tick the detector does change — it confirms the bag
/// boundary and reinitializes the unseen set from the preview.)
pub proof fn lemma_debounce_no_change(d: DetectorModel, s: SampleModel)
    requires
        s.current_piece == d.last_current,
        d.last_current is Some,
    ensures
        step_model(d, s).0 == d,
        step_model(d, s).1 is None,
{
}

/// Bag reset: once the unseen set becomes empty, the next evaluation
/// reinitializes it to the full seven-element bag, and a non-empty set is
/// left alone.
pub proof fn lemma_bag_reset(unseen: Seq<u32>)
    ensures
        unseen.len() == 0 ==> unseen_after_reset(unseen) == full_bag(),
        unseen.len() > 0 ==> unseen_after_reset(unseen) == unseen,
{
}

/// A prediction is appended exactly when a single candidate is left unseen;
/// while more than one candidate remains, the queue is the preview alone.
pub proof fn lemma_no_premature_prediction(preview: Seq<u32>, unseen: Seq<u32>)
    ensures
        unseen.len() != 1 ==> next_with_prediction(preview, unseen) == preview,
        unseen.len() == 1 ==> next_with_prediction(preview, unseen) == preview + seq![unseen[0]],
{
}

/// A true seven-bag: seven entries, each a valid piece identifier, no
/// repeats, every one of the seven types present.
pub open spec fn is_seven_bag(bag: Seq<u32>) -> bool {
    &&& bag.len() == 7
    &&& forall|i: int| 0 <= i < 7 ==> bag[i] < 7
    &&& forall|i: int, j: int| 0 <= i < j < 7 ==> bag[i] != bag[j]
    &&& forall|v: u32| v < 7 ==> bag.contains(v)
}

proof fn lemma_complement_of_six(bag: Seq<u32>, k: nat)
    requires
        is_seven_bag(bag),
        k <= 7,
    ensures
        complement_upto(bag.take(6), k) == if bag[6] < k {
            seq![bag[6]]
        } else {
            Seq::<u32>::empty()
        },
    decreases k,
{
    if k > 0 {
        lemma_complement_of_six(bag, (k - 1) as nat);
        let p = bag.take(6);
        let v = ((k - 1) as nat) as u32;
        if v == bag[6] {
            assert(!p.contains(v)) by {
                if p.contains(v) {
                    let i = choose|i: int| 0 <= i < p.len() && p[i] == v;
                    assert(bag[i] == v && bag[6] == v && i < 6);
                }
            }
            assert(complement_upto(p, k) =~= seq![bag[6]]);
        } else {
            assert(p.contains(v)) by {
                assert(bag.contains(v));
                let i = choose|i: int| 0 <= i < bag.len() && bag[i] == v;
                assert(i != 6);
                assert(p[i] == v);
                assert(p.contains(p[i]));
            }
            assert(complement_upto(p, k) =~= complement_upto(p, (k - 1) as nat));
        }
    }
}

/// Bag prediction correctness: with a true seven-bag whose first six pieces
/// have been revealed, the one piece computed unseen by elimination is
/// exactly the piece the bag reveals next.
pub proof fn lemma_bag_prediction(bag: Seq<u32>)
    requires
        is_seven_bag(bag),
    ensures
        bag_complement(bag.take(6)) == seq![bag[6]],
        predicted(bag_complement(bag.take(6))) == Some(bag[6]),
{
    lemma_complement_of_six(bag, 7);
}

proof fn lemma_push_contains(p: Seq<u32>, v: u32, w: u32)
    ensures
        p.push(v).contains(w) == (p.contains(w) || w == v),
{
    if p.contains(w) {
        let i = choose|i: int| 0 <= i < p.len() && p[i] == w;
        assert(p.push(v)[i] == w);
    }
    if w == v {
        assert(p.push(v)[p.len() as int] == w);
    }
    if p.push(v).contains(w) {
        let i = choose|i: int| 0 <= i < p.push(v).len() && p.push(v)[i] == w;
        if i < p.len() {
            assert(p[i] == w);
        }
    }
}

proof fn lemma_remove_complement_upto(p: Seq<u32>, v: u32, k: nat)
    ensures
        remove_piece(complement_upto(p, k), v) == complement_upto(p.push(v), k),
    decreases k,
{
    if k == 0 {
        assert(complement_upto(p, 0) =~= Seq::<u32>::empty());
        assert(complement_upto(p.push(v), 0) =~= Seq::<u32>::empty());
    } else {
        lemma_remove_complement_upto(p, v, (k - 1) as nat);
        let w = ((k - 1) as nat) as u32;
        lemma_push_contains(p, v, w);
        let prev = complement_upto(p, (k - 1) as nat);
        if p.contains(w) {
            assert(complement_upto(p, k) =~= prev);
            assert(complement_upto(p.push(v), k) =~= complement_upto(p.push(v), (k - 1) as nat));
        } else {
            assert(complement_upto(p, k) =~= prev.push(w));
            assert(prev.push(w).drop_last() =~= prev);
            assert(prev.push(w).last() == w);
            if w == v {
                assert(remove_piece(prev.push(w), v) =~= remove_piece(prev, v));
                assert(complement_upto(p.push(v), k) =~= complement_upto(
                    p.push(v),
                    (k - 1) as nat,
                ));
            } else {
                assert(remove_piece(prev.push(w), v) =~= remove_piece(prev, v).push(w));
                assert(complement_upto(p.push(v), k) =~= complement_upto(
                    p.push(v),
                    (k - 1) as nat,
                ).push(w));
            }
        }
    }
}

/// Removing a newly revealed piece from the unseen set tracks the grown
/// revealed sequence: what the detector computes step by step equals the
/// complement of everything revealed so far.
pub proof fn lemma_remove_is_complement(p: Seq<u32>, v: u32)
    ensures
        remove_piece(bag_complement(p), v) == bag_complement(p.push(v)),
{
    lemma_remove_complement_upto(p, v, 7);
}

/// Bag prediction, end to end: a boundary observed with the bag's first
/// five pieces in the preview, followed by the reveal of its sixth, leaves
/// exactly one candidate unseen — and the predicted piece is exactly the
/// piece the bag reveals next.
pub proof fn lemma_prediction_after_reveal(bag: Seq<u32>)
    requires
        is_seven_bag(bag),
    ensures
        predicted(remove_piece(bag_complement(bag.take(5)), bag[5])) == Some(bag[6]),
{
    lemma_remove_is_complement(bag.take(5), bag[5]);
    assert(bag.take(5).push(bag[5]) =~= bag.take(6));
    lemma_bag_prediction(bag);
}

/// The snapshots a detector in state `d` emits over a sequence of samples.
pub open spec fn run_detector(d: DetectorModel, samples: Seq<SampleModel>) -> Seq<SnapshotModel>
    decreases samples.len(),
{
    if samples.len() == 0 {
        Seq::empty()
    } else {
        let step = step_model(d, samples[0]);
        (match step.1 {
            Some(m) => seq![m],
            None => Seq::empty(),
        }) + run_detector(step.0, samples.skip(1))
    }
}

/// How many snapshots in `s` carry `v` as the piece in play.
pub open spec fn count_for(s: Seq<SnapshotModel>, v: u32) -> nat
    decreases s.len(),
{
    if s.len() == 0 {
        0
    } else {
        (if s[0].current_piece == Some(v) {
            1nat
        } else {
            0nat
        }) + count_for(s.skip(1), v)
    }
}

proof fn lemma_count_cons(m: SnapshotModel, rest: Seq<SnapshotModel>, v: u32)
    ensures
        count_for(seq![m] + rest, v) == (if m.current_piece == Some(v) {
            1nat
        } else {
            0nat
        }) + count_for(rest, v),
{
    assert((seq![m] + rest).skip(1) =~= rest);
    assert((seq![m] + rest)[0] == m);
}

proof fn lemma_count_nil(rest: Seq<SnapshotModel>, v: u32)
    ensures
        count_for(Seq::<SnapshotModel>::empty() + rest, v) == count_for(rest, v),
{
    assert(Seq::<SnapshotModel>::empty() + rest =~= rest);
}

proof fn lemma_run_all_none(d: DetectorModel, samples: Seq<SampleModel>, v: u32)
    requires
        d.last_current is None,
        forall|i: int| 0 <= i < samples.len() ==> (#[trigger] samples[i]).current_piece is None,
    ensures
        count_for(run_detector(d, samples), v) == 0,
    decreases samples.len(),
{
    if samples.len() > 0 {
        let st = step_model(d, samples[0]);
        assert(st.1 is None);
        assert(st.0.last_current is None);
        assert forall|i: int|
            0 <= i < samples.skip(1).len() implies (#[trigger] samples.skip(
            1,
        )[i]).current_piece is None by {
            assert(samples.skip(1)[i] == samples[i + 1]);
        }
        lemma_run_all_none(st.0, samples.skip(1), v);
        lemma_count_nil(run_detector(st.0, samples.skip(1)), v);
    }
}

proof fn lemma_run_block_tail(d: DetectorModel, samples: Seq<SampleModel>, v: u32, b: int)
    requires
        d.last_current == Some(v),
        0 <= b <= samples.len(),
        forall|i: int|
            0 <= i < samples.len() ==> (#[trigger] samples[i]).current_piece == (if i < b {
                Some(v)
            } else {
                None::<u32>
            }),
    ensures
        count_for(run_detector(d, samples), v) == 0,
    decreases samples.len(),
{
    if samples.len() > 0 {
        let st = step_model(d, samples[0]);
        if b > 0 {
            assert(st.1 is None);
            assert(st.0 == d);
            assert forall|i: int|
                0 <= i < samples.skip(1).len() implies (#[trigger] samples.skip(
                1,
            )[i]).current_piece == (if i < b - 1 {
                Some(v)
            } else {
                None::<u32>
            }) by {
                assert(samples.skip(1)[i] == samples[i + 1]);
            }
            lemma_run_block_tail(st.0, samples.skip(1), v, b - 1);
            lemma_count_nil(run_detector(st.0, samples.skip(1)), v);
        } else {
            let m = st.1.unwrap();
            assert(m.current_piece is None);
            assert(st.0.last_current is None);
            assert forall|i: int|
                0 <= i < samples.skip(1).len() implies (#[trigger] samples.skip(
                1,
            )[i]).current_piece is None by {
                assert(samples.skip(1)[i] == samples[i + 1]);
            }
            lemma_run_all_none(st.0, samples.skip(1), v);
            lemma_count_cons(m, run_detector(st.0, samples.skip(1)), v);
        }
    }
}

/// Debounce and single emission: over any sample sequence whose current
/// piece reads `None` up to tick `a`, then `v` up to tick `b`, then `None`
/// again — one None-to-v-to-None transition — a detector that last saw no
/// piece emits exactly one snapshot carrying `v`.
pub proof fn lemma_single_emission(
    d: DetectorModel,
    samples: Seq<SampleModel>,
    v: u32,
    a: int,
    b: int,
)
    requires
        d.last_current is None,
        0 <= a < b <= samples.len(),
        forall|i: int|
            0 <= i < samples.len() ==> (#[trigger] samples[i]).current_piece == (if a <= i < b {
                Some(v)
            } else {
                None::<u32>
            }),
    ensures
        count_for(run_detector(d, samples), v) == 1,
    decreases samples.len(),
{
    let st = step_model(d, samples[0]);
    if a > 0 {
        assert(st.1 is None);
        assert(st.0.last_current is None);
        assert forall|i: int|
            0 <= i < samples.skip(1).len() implies (#[trigger] samples.skip(
            1,
        )[i]).current_piece == (if a - 1 <= i < b - 1 {
            Some(v)
        } else {
            None::<u32>
        }) by {
            assert(samples.skip(1)[i] == samples[i + 1]);
        }
        lemma_single_emission(st.0, samples.skip(1), v, a - 1, b - 1);
        lemma_count_nil(run_detector(st.0, samples.skip(1)), v);
    } else {
        let m = st.1.unwrap();
        assert(m.current_piece == Some(v));
        assert(st.0.last_current == Some(v));
        assert forall|i: int|
            0 <= i < samples.skip(1).len() implies (#[trigger] samples.skip(
            1,
        )[i]).current_piece == (if i < b - 1 {
            Some(v)
        } else {
            None::<u32>
        }) by {
            assert(samples.skip(1)[i] == samples[i + 1]);
        }
        lemma_run_block_tail(st.0, samples.skip(1), v, b - 1);
        lemma_count_cons(m, run_detector(st.0, samples.skip(1)), v);
    }
}

} // verus!
