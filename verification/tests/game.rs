use knix::board::ParseBoardError;
use knix::board_position::BoardIndex;
use knix::game_state::{GameState, ParseGameStateError};
use knix::piece_move::Move;

const START_FEN: &str = "rnbqkbnr/pppppppp/8/8/8/8/PPPPPPPP/RNBQKBNR w KQkq - 0 1";

fn simple(from: u8, to: u8) -> Move {
    Move::Simple(BoardIndex::new(from).unwrap(), BoardIndex::new(to).unwrap())
}

fn field(fen: &str, n: usize) -> String {
    fen.split(' ').nth(n).unwrap().to_string()
}

#[test]
fn correct_starting() {
    let _starting = GameState::starting();
}

#[test]
fn starting_matches_canonical_fen() {
    let starting = GameState::starting();
    let parsed = GameState::parse_from_fen(START_FEN).unwrap();
    assert_eq!(starting, parsed);
}

#[test]
fn fen_round_trip_canonical_start() {
    let state = GameState::parse_from_fen(START_FEN).unwrap();
    assert_eq!(state.to_fen(), START_FEN);
}

#[test]
fn fen_round_trip_mid_game() {
    let fen = "r3kr2/8/8/pP6/8/8/8/R3K2R b Kq A6 12 34";
    let state = GameState::parse_from_fen(fen).unwrap();
    assert_eq!(state.to_fen(), fen);
}

#[test]
fn starting_position_has_twenty_moves() {
    let state = GameState::starting();
    assert_eq!(state.legal_moves().len(), 20);
}

#[test]
fn half_move_clock_semantics() {
    let mut state = GameState::starting();
    // A knight move neither advances a pawn nor captures: the clock counts.
    state.perform_move(simple(6, 21)); // g1 -> f3
    assert_eq!(field(&state.to_fen(), 4), "1");
    state.perform_move(simple(57, 42)); // b8 -> c6
    assert_eq!(field(&state.to_fen(), 4), "2");
    // A pawn advance resets the clock.
    state.perform_move(simple(12, 28)); // e2 -> e4
    assert_eq!(field(&state.to_fen(), 4), "0");
}

#[test]
fn full_move_counter_increments_after_black() {
    let mut state = GameState::starting();
    state.perform_move(simple(12, 28)); // e2 -> e4, White
    assert_eq!(field(&state.to_fen(), 5), "1");
    state.perform_move(simple(51, 35)); // d7 -> d5, Black
    assert_eq!(field(&state.to_fen(), 5), "2");
}

#[test]
fn en_passant_lifecycle() {
    let mut state = GameState::starting();
    state.perform_move(simple(12, 28)); // e2 -> e4
    assert_eq!(field(&state.to_fen(), 3), "E3");
    state.perform_move(simple(57, 42)); // b8 -> c6, unrelated
    assert_eq!(field(&state.to_fen(), 3), "-");
}

#[test]
fn en_passant_capture_applies() {
    // Black just advanced a7 -> a5; the white pawn on b5 may capture onto a6.
    let mut state = GameState::parse_from_fen("8/8/8/pP6/8/8/8/8 w - A6 0 1").unwrap();
    let capture = state
        .legal_moves()
        .into_iter()
        .find(|m| matches!(m, Move::EnPassant { .. }))
        .unwrap();
    state.perform_move(capture);
    assert_eq!(field(&state.to_fen(), 0), "8/8/P7/8/8/8/8/8");
    assert_eq!(field(&state.to_fen(), 3), "-");
}

#[test]
fn castling_rights_revoked_by_king_move() {
    let mut state =
        GameState::parse_from_fen("rnbqkbnr/pppppppp/8/8/8/8/PPPP1PPP/RNBQKBNR w KQkq - 0 1")
            .unwrap();
    state.perform_move(simple(4, 12)); // e1 -> e2
    assert_eq!(field(&state.to_fen(), 2), "kq");
    // The rights only ever shrink: a later move regains nothing.
    state.perform_move(simple(57, 42)); // b8 -> c6
    assert_eq!(field(&state.to_fen(), 2), "kq");
}

#[test]
fn rook_move_revokes_one_side() {
    let mut state = GameState::parse_from_fen("r3k2r/8/8/8/8/8/8/R3K2R w KQkq - 0 1").unwrap();
    state.perform_move(simple(0, 8)); // a1 -> a2
    assert_eq!(field(&state.to_fen(), 2), "Kkq");
}

#[test]
fn castle_moves_generated() {
    let state = GameState::parse_from_fen("r3k2r/8/8/8/8/8/8/R3K2R w KQkq - 0 1").unwrap();
    let castles: Vec<Move> = state
        .legal_moves()
        .into_iter()
        .filter(|m| matches!(m, Move::Castle { .. }))
        .collect();
    assert_eq!(castles.len(), 2);
    let mut state = state;
    let king_side = castles
        .iter()
        .copied()
        .find(|m| matches!(m, Move::Castle { king_to, .. } if king_to.get_pos() == 6))
        .unwrap();
    state.perform_move(king_side);
    assert_eq!(field(&state.to_fen(), 0), "r3k2r/8/8/8/8/8/8/R4RK1");
    assert_eq!(field(&state.to_fen(), 2), "kq");
}

#[test]
fn castle_blocked_through_attack() {
    // The black rook on f8 attacks f1, the square the king would cross when
    // castling king-side; queen-side remains available.
    let state = GameState::parse_from_fen("r3kr2/8/8/8/8/8/8/R3K2R w KQkq - 0 1").unwrap();
    let castles: Vec<Move> = state
        .legal_moves()
        .into_iter()
        .filter(|m| matches!(m, Move::Castle { .. }))
        .collect();
    assert_eq!(castles.len(), 1);
    assert!(matches!(castles[0], Move::Castle { king_to, .. } if king_to.get_pos() == 2));
}

#[test]
fn pinned_piece_moves_absent() {
    // The knight on e2 is pinned against the king on e1 by the rook on e8:
    // no knight move may appear among the legal moves.
    let state = GameState::parse_from_fen("4r3/8/8/8/8/8/4N3/4K3 w - - 0 1").unwrap();
    for m in state.legal_moves() {
        if let Move::Simple(from, _) = m {
            assert_ne!(from.get_pos(), 12);
        }
    }
}

#[test]
fn malformed_board_missing_files() {
    let r = GameState::parse_from_fen("ppppppp/8/8/8/8/8/8/RNBQKBNR w KQkq - 0 1");
    assert_eq!(
        r,
        Err(ParseGameStateError::InvalidBoard(ParseBoardError::MissingFilesInFEN(7)))
    );
}

#[test]
fn malformed_board_missing_rank() {
    let r = GameState::parse_from_fen("8/8 w KQkq - 0 1");
    assert_eq!(
        r,
        Err(ParseGameStateError::InvalidBoard(ParseBoardError::MissingRank(5)))
    );
}

#[test]
fn malformed_board_too_many_files() {
    let r = GameState::parse_from_fen("p8/8/8/8/8/8/8/8 w - - 0 1");
    assert_eq!(
        r,
        Err(ParseGameStateError::InvalidBoard(ParseBoardError::TooManyFilesInFEN(9)))
    );
}

#[test]
fn malformed_board_bad_piece_letter() {
    let r = GameState::parse_from_fen("xxxxxxxx/8/8/8/8/8/8/8 w - - 0 1");
    assert_eq!(
        r,
        Err(ParseGameStateError::InvalidBoard(ParseBoardError::InvalidFENPieceChar('x')))
    );
}

#[test]
fn malformed_next_move_token() {
    let r = GameState::parse_from_fen("8/8/8/8/8/8/8/8 x - - 0 1");
    assert_eq!(r, Err(ParseGameStateError::InvalidNextMove));
}

#[test]
fn malformed_castle_right() {
    let r = GameState::parse_from_fen("8/8/8/8/8/8/8/8 w X - 0 1");
    assert!(matches!(r, Err(ParseGameStateError::InvalidCastleRight(_))));
}

#[test]
fn malformed_clock_field() {
    let r = GameState::parse_from_fen("8/8/8/8/8/8/8/8 w - - x 1");
    assert_eq!(r, Err(ParseGameStateError::ParseInt));
    let r = GameState::parse_from_fen("8/8/8/8/8/8/8/8 w - - 256 1");
    assert_eq!(r, Err(ParseGameStateError::ParseInt));
}

#[test]
fn missing_fields() {
    let r = GameState::parse_from_fen("8/8/8/8/8/8/8/8 w -");
    assert_eq!(r, Err(ParseGameStateError::MissingFields { field_count: 3 }));
}

#[test]
fn bad_en_passant_field_means_no_target() {
    let state = GameState::parse_from_fen("8/8/8/8/8/8/8/8 w - xx 0 1").unwrap();
    assert_eq!(field(&state.to_fen(), 3), "-");
}

#[test]
fn board_visual_render() {
    let state = GameState::starting();
    let expected = "    ABCDEFGH\n   +--------+\n\
8  |rnbqkbnr|  8\n\
7  |pppppppp|  7\n\
6  |        |  6\n\
5  |        |  5\n\
4  |        |  4\n\
3  |        |  3\n\
2  |PPPPPPPP|  2\n\
1  |RNBQKBNR|  1\n   +--------+\n    ABCDEFGH\n";
    assert_eq!(state.board_to_visual().render(), expected);
}

#[test]
fn move_text_names_squares() {
    let state = GameState::starting();
    let opening = state
        .legal_moves()
        .into_iter()
        .find(|m| matches!(m, Move::Simple(from, to) if from.get_pos() == 12 && to.get_pos() == 28))
        .unwrap();
    assert_eq!(opening.describe(), "E2 -> E4");
}
