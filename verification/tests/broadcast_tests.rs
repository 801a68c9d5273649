//! Deduplicating broadcaster and the end-to-end snapshot-to-payload flow
//! with a stand-in placement oracle.

use pc_assist::Board;
use pc_assist::BroadcastDecision;
use pc_assist::Broadcaster;
use pc_assist::PieceType;
use pc_assist::Placement;
use pc_assist::Rotation;

fn empty_columns() -> Vec<Vec<i32>> {
    (0..10).map(|_| vec![-1i32; 20]).collect()
}

fn placement(piece: PieceType, x: i32) -> Placement {
    Placement { piece, rotation: Rotation::North, x, y: 0 }
}

#[test]
fn nothing_to_clear_stays_silent() {
    let mut b = Broadcaster::new();
    assert_eq!(b.accept(None), BroadcastDecision::Suppress);
    assert_eq!(b.accept(None), BroadcastDecision::Suppress);
}

#[test]
fn identical_solutions_broadcast_once() {
    let mut b = Broadcaster::new();
    let soln = vec![placement(PieceType::O, 4), placement(PieceType::I, 0)];
    match b.accept(Some(soln.clone())) {
        BroadcastDecision::Announce(Some(cells)) => {
            assert_eq!(cells, soln[0].cells());
        },
        other => panic!("expected a cell payload, got {:?}", other),
    }
    assert_eq!(b.accept(Some(soln)), BroadcastDecision::Suppress);
}

#[test]
fn structural_difference_broadcasts_again() {
    let mut b = Broadcaster::new();
    let first = vec![placement(PieceType::O, 4)];
    let second = vec![placement(PieceType::O, 5)];
    assert!(matches!(b.accept(Some(first)), BroadcastDecision::Announce(Some(_))));
    assert!(matches!(b.accept(Some(second)), BroadcastDecision::Announce(Some(_))));
}

#[test]
fn unsolvable_after_solution_clears_the_overlay() {
    let mut b = Broadcaster::new();
    let soln = vec![placement(PieceType::T, 2)];
    assert!(matches!(b.accept(Some(soln)), BroadcastDecision::Announce(Some(_))));
    assert_eq!(b.accept(None), BroadcastDecision::Announce(None));
    assert_eq!(b.accept(None), BroadcastDecision::Suppress);
}

/// A stand-in for the external placement-search oracle: solves only the
/// empty board, with one placement per queue entry, and counts how often it
/// is consulted.
fn stub_oracle(queue: &[u32], mask: u64, calls: &mut usize) -> Option<Vec<Placement>> {
    *calls += 1;
    if mask != 0 {
        return None;
    }
    let pieces = [
        PieceType::I,
        PieceType::O,
        PieceType::T,
        PieceType::S,
        PieceType::Z,
        PieceType::J,
        PieceType::L,
    ];
    Some(
        queue
            .iter()
            .enumerate()
            .map(|(i, &id)| placement(pieces[id as usize], i as i32))
            .collect(),
    )
}

#[test]
fn empty_board_scenario_broadcasts_first_candidate() {
    // An empty ten-by-twenty board with the queue I, O, T, S, Z, J, L and
    // no held piece.
    let board = Board {
        columns: empty_columns(),
        current_piece: Some(0),
        hold: None,
        next_pieces: vec![1, 2, 3, 4, 5, 6],
    };
    let queue = board.get_queue();
    assert_eq!(queue, vec![0, 1, 2, 3, 4, 5, 6]);
    let mask = board.get_bitboard();
    assert_eq!(mask, 0);

    let mut calls = 0usize;
    let candidate = stub_oracle(&queue, mask, &mut calls);
    assert_eq!(calls, 1);
    let first = candidate.as_ref().unwrap()[0];

    let mut b = Broadcaster::new();
    match b.accept(candidate.clone()) {
        BroadcastDecision::Announce(Some(cells)) => {
            assert_eq!(cells, first.cells());
        },
        other => panic!("expected the first candidate's cells, got {:?}", other),
    }

    // Fill one column's bottom cell and resubmit the same queue: the board
    // is no longer solvable for the stand-in, so the broadcast is an
    // explicit empty payload.
    let mut columns = empty_columns();
    columns[0][0] = 0;
    let filled = Board { columns, current_piece: Some(0), hold: None, next_pieces: vec![
        1,
        2,
        3,
        4,
        5,
        6,
    ] };
    assert_eq!(filled.get_queue(), queue);
    let mask2 = filled.get_bitboard();
    assert_ne!(mask2, mask);
    let candidate2 = stub_oracle(&queue, mask2, &mut calls);
    assert_eq!(calls, 2);
    assert_eq!(b.accept(candidate2), BroadcastDecision::Announce(None));
}
