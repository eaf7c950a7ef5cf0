use monty::{line_through, Attacks};
use monty::attacks::{mask_bishop_attacks, mask_rook_attacks, Piece, FILE_A};

#[test]
fn knight_from_corner() {
    assert_eq!(Attacks::knight(0), 0x20400);
    assert_eq!(Attacks::knight(63), (1u64 << 53) | (1u64 << 46));
}

#[test]
fn king_from_corner_and_centre() {
    assert_eq!(Attacks::king(0), 0x302);
    assert_eq!(Attacks::king(27).count_ones(), 8);
}

#[test]
fn pawn_attacks_by_side() {
    assert_eq!(Attacks::pawn(8, 0), 1u64 << 17);
    assert_eq!(Attacks::pawn(9, 0), (1u64 << 16) | (1u64 << 18));
    assert_eq!(Attacks::pawn(49, 1), (1u64 << 40) | (1u64 << 42));
    assert_eq!(Attacks::pawn(9, 0), Attacks::white_pawn_setwise(1u64 << 9));
    assert_eq!(Attacks::pawn(49, 1), Attacks::black_pawn_setwise(1u64 << 49));
}

#[test]
fn setwise_pawns() {
    assert_eq!(Attacks::white_pawn_setwise(1u64 << 9), 0x50000);
    assert_eq!(Attacks::black_pawn_setwise(1u64 << 49), 0x50000000000);
    assert_eq!(Attacks::white_pawn_setwise(1u64 << 8), 1u64 << 17);
}

#[test]
fn sliders_on_empty_board() {
    assert_eq!(Attacks::rook(0, 0), 0x0101_0101_0101_01FE);
    assert_eq!(Attacks::bishop(0, 0), 0x8040_2010_0804_0200);
    assert_eq!(Attacks::queen(0, 0), 0x0101_0101_0101_01FE | 0x8040_2010_0804_0200);
}

#[test]
fn sliders_stop_at_first_blocker() {
    let occ = (1u64 << 2) | (1u64 << 16) | (1u64 << 5);
    assert_eq!(Attacks::rook(0, occ), 0x10106);
    let occ = 1u64 << 18;
    assert_eq!(Attacks::bishop(0, occ), (1u64 << 9) | (1u64 << 18));
}

#[test]
fn xray_through_blocker() {
    let occ = (1u64 << 1) | (1u64 << 2);
    assert_eq!(Attacks::xray_rook(0, occ, 1u64 << 1), 1u64 << 2);
    let occ = (1u64 << 9) | (1u64 << 18);
    assert_eq!(Attacks::xray_bishop(0, occ, 1u64 << 9), 1u64 << 18);
}

#[test]
fn piece_dispatch() {
    assert_eq!(Attacks::of_piece::<{ Piece::KNIGHT }>(0, 0), Attacks::knight(0));
    assert_eq!(Attacks::of_piece::<{ Piece::BISHOP }>(0, 0), Attacks::bishop(0, 0));
    assert_eq!(Attacks::of_piece::<{ Piece::ROOK }>(0, 0), Attacks::rook(0, 0));
    assert_eq!(Attacks::of_piece::<{ Piece::QUEEN }>(0, 0), Attacks::queen(0, 0));
    assert_eq!(Attacks::of_piece::<{ Piece::KING }>(0, 0), Attacks::king(0));
}

#[test]
fn lines_through_two_squares() {
    assert_eq!(line_through(0, 63), 0x8040_2010_0804_0201);
    assert_eq!(line_through(0, 7), 0xFF);
    assert_eq!(line_through(0, 56), FILE_A);
    assert_eq!(line_through(7, 56), 0x0102_0408_1020_4080);
    assert_eq!(line_through(0, 10), 0);
    assert_eq!(line_through(5, 5), FILE_A << 5);
}

#[test]
fn relevant_occupancy_masks() {
    assert_eq!(mask_rook_attacks(0), 0x0001_0101_0101_017E);
    assert_eq!(mask_bishop_attacks(0), 0x0040_2010_0804_0200);
    assert_eq!(mask_rook_attacks(27).count_ones(), 10);
}

#[test]
fn destinations_from_corner() {
    let d = Attacks::all_destinations(0);
    assert_eq!(d, Attacks::queen(0, 0) | Attacks::knight(0));
    assert_eq!(d.count_ones(), 21 + 2);
    assert_eq!(d & 1, 0);
}
