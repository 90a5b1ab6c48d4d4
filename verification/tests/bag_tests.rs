use cross_tetris::{PieceKind, SevenBag};
use std::collections::HashSet;

#[test]
fn every_seven_draws_is_one_of_each() {
    let mut bag = SevenBag::new(7);
    for _ in 0..20 {
        let seven: HashSet<PieceKind> = (0..7).map(|_| bag.next()).collect();
        assert_eq!(seven.len(), 7, "each bag of 7 must contain every kind exactly once");
    }
}

#[test]
fn same_seed_same_sequence() {
    let mut a = SevenBag::new(123);
    let mut b = SevenBag::new(123);
    let seq_a: Vec<PieceKind> = (0..50).map(|_| a.next()).collect();
    let seq_b: Vec<PieceKind> = (0..50).map(|_| b.next()).collect();
    assert_eq!(seq_a, seq_b);
}

#[test]
fn preview_matches_subsequent_draws() {
    let mut bag = SevenBag::new(99);
    let preview = bag.preview(5);
    let drawn: Vec<PieceKind> = (0..5).map(|_| bag.next()).collect();
    assert_eq!(preview, drawn);
}
