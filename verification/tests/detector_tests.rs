//! Detector state machine: debounce, bag boundary detection, piece
//! prediction by elimination, and bag reset.

use pc_assist::Board;
use pc_assist::Detector;
use pc_assist::RawSample;

fn empty_columns() -> Vec<Vec<i32>> {
    (0..10).map(|_| vec![-1i32; 20]).collect()
}

fn sample(current: Option<u32>, preview: Vec<u32>) -> RawSample {
    RawSample {
        current_piece: current,
        columns: empty_columns(),
        preview_queue: preview,
        held_piece: None,
    }
}

#[test]
fn no_piece_transition_emits_nothing() {
    let mut d = Detector::new();
    assert!(d.step(&sample(None, vec![0, 1, 2, 3, 4])).is_none());
    assert!(d.step(&sample(None, vec![0, 1, 2, 3, 4])).is_none());
}

#[test]
fn single_transition_emits_exactly_once() {
    let mut d = Detector::new();
    let preview = vec![1, 2, 3, 4, 5];
    let mut emitted: Vec<Board> = Vec::new();
    // None, then a run of piece 3 in play, then None again.
    let currents = [None, None, Some(3), Some(3), Some(3), None, None];
    for c in currents {
        if let Some(b) = d.step(&sample(c, preview.clone())) {
            emitted.push(b);
        }
    }
    let for_three = emitted.iter().filter(|b| b.current_piece == Some(3)).count();
    assert_eq!(for_three, 1);
}

#[test]
fn unchanged_piece_is_debounced() {
    let mut d = Detector::new();
    assert!(d.step(&sample(Some(2), vec![3, 4, 5, 6, 0])).is_some());
    assert!(d.step(&sample(Some(2), vec![3, 4, 5, 6, 0])).is_none());
    assert!(d.step(&sample(Some(2), vec![3, 4, 5, 6, 0])).is_none());
}

#[test]
fn emitted_snapshot_copies_the_sample() {
    let mut d = Detector::new();
    let mut cols = empty_columns();
    cols[4][0] = 7;
    let s = RawSample {
        current_piece: Some(1),
        columns: cols.clone(),
        preview_queue: vec![2, 3, 4, 5, 6],
        held_piece: Some(0),
    };
    let b = d.step(&s).expect("changed piece must emit");
    assert_eq!(b.columns, cols);
    assert_eq!(b.current_piece, Some(1));
    assert_eq!(b.hold, Some(0));
}

#[test]
fn boundary_initializes_unseen_from_preview() {
    let mut d = Detector::new();
    // First "no piece" tick: lock pending. Second: confirmed bag boundary.
    assert!(d.step(&sample(None, vec![0, 1, 2, 3, 4])).is_none());
    assert!(d.step(&sample(None, vec![0, 1, 2, 3, 4])).is_none());
    assert_eq!(d.unseen, vec![5, 6]);
    assert_eq!(d.last_preview, vec![0, 1, 2, 3, 4]);
}

#[test]
fn sixth_reveal_predicts_the_seventh_piece() {
    let mut d = Detector::new();
    // Bag boundary with pieces 0..4 in the preview: 5 and 6 are unseen.
    d.step(&sample(None, vec![0, 1, 2, 3, 4]));
    d.step(&sample(None, vec![0, 1, 2, 3, 4]));
    // Piece 0 enters play and the preview reveals 5 at its tail: only 6 is
    // left unseen, so the queue gains it as a predicted entry.
    let b = d.step(&sample(Some(0), vec![1, 2, 3, 4, 5])).expect("must emit");
    assert_eq!(b.next_pieces, vec![1, 2, 3, 4, 5, 6]);
}

#[test]
fn no_prediction_while_two_candidates_remain() {
    let mut d = Detector::new();
    d.step(&sample(None, vec![0, 1, 2, 3, 4]));
    d.step(&sample(None, vec![0, 1, 2, 3, 4]));
    // The preview is unchanged, so nothing is revealed and two candidates
    // (5 and 6) remain unseen: the queue must not be extended.
    let b = d.step(&sample(Some(0), vec![0, 1, 2, 3, 4])).expect("must emit");
    assert_eq!(b.next_pieces, vec![0, 1, 2, 3, 4]);
}

#[test]
fn empty_unseen_resets_to_full_bag() {
    let mut d = Detector::new();
    d.step(&sample(None, vec![0, 1, 2, 3, 4]));
    d.step(&sample(None, vec![0, 1, 2, 3, 4]));
    // Reveal 5: unseen shrinks to {6} and the queue predicts 6.
    d.step(&sample(Some(0), vec![1, 2, 3, 4, 5]));
    // Reveal 6: unseen becomes empty, so the next evaluation reinitializes
    // it to the full seven-element bag; no prediction is possible.
    let b = d.step(&sample(Some(1), vec![2, 3, 4, 5, 6])).expect("must emit");
    assert_eq!(b.next_pieces, vec![2, 3, 4, 5, 6]);
    assert_eq!(d.unseen, vec![0, 1, 2, 3, 4, 5, 6]);
}

#[test]
fn sample_validity_checks_shape_and_identifiers() {
    assert!(sample(Some(3), vec![0, 1, 2, 3, 4]).is_valid());
    assert!(sample(None, vec![]).is_valid());

    let mut short_column = sample(Some(3), vec![0, 1]);
    short_column.columns[2].pop();
    assert!(!short_column.is_valid());

    assert!(!sample(Some(7), vec![0, 1]).is_valid());
    assert!(!sample(Some(3), vec![0, 9]).is_valid());

    let mut bad_hold = sample(Some(3), vec![0, 1]);
    bad_hold.held_piece = Some(42);
    assert!(!bad_hold.is_valid());
}

#[test]
fn empty_preview_reveals_nothing() {
    let mut d = Detector::new();
    d.step(&sample(None, vec![]));
    d.step(&sample(None, vec![]));
    assert_eq!(d.unseen, vec![0, 1, 2, 3, 4, 5, 6]);
    let b = d.step(&sample(Some(4), vec![])).expect("must emit");
    assert_eq!(b.next_pieces, Vec::<u32>::new());
}
