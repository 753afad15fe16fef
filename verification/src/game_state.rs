//! Game state: board, side to move, castling rights, en-passant target and
//! the two clocks; the full FEN codec; and the one-move transition.

use vstd::prelude::*;

use crate::board::{
    lemma_board_fen_no_space, lemma_board_round_trip, spec_board_fen, spec_parse_board, Board,
    BoardVisual, ParseBoardError,
};
use crate::board_position::{BoardColumn, BoardIndex};
use crate::castle_rights::{
    lemma_rights_fen_chars, lemma_rights_round_trip, spec_rights_fen, CastleRights,
    InvalidCastleRight,
};
use crate::clocks::{FullMoveCounter, HalfMoveClock};
use crate::en_passant_target::{lemma_ep_round_trip, spec_ep_fen, EnPassantTarget};
use crate::fen_text::{
    chars_to_string, digit_to_char, lemma_split_join, lemma_split_single, lemma_uint_chars_digits,
    lemma_uint_chars_parse, parse_uint_capped, push_str_chars, push_uint_chars, spec_digit_char,
    spec_is_digit, spec_parse_uint, spec_split, spec_uint_chars, split_str,
};
use crate::move_rules::{
    lemma_pseudo_legal_applicable, lemma_pseudo_legal_mover_color, move_legal, spec_applicable,
    spec_board_after, spec_move_info,
};
use crate::piece::{BoardPiece, PieceColor};
use crate::piece_move::Move;

verus! {

/// The mathematical state of a game: what a `GameState` denotes.
pub struct GameModel {
    pub board: Seq<Option<BoardPiece>>,
    pub turn: PieceColor,
    pub rights: CastleRights,
    pub ept: Option<int>,
    pub half_move: int,
    pub full_move: int,
}

impl GameModel {
    /// The bounds every state held by a `GameState` satisfies.
    pub open spec fn wf(self) -> bool {
        &&& self.board.len() == 64
        &&& (self.ept matches Some(t) ==> 0 <= t < 64)
        &&& 0 <= self.half_move < 256
        &&& 0 <= self.full_move < 65536
    }
}

/// Round trip: parsing the description of any well-formed state yields that
/// state back. A description already in canonical (serialized) form is
/// therefore reproduced exactly by parse followed by serialize.
#[verifier::rlimit(100)]
pub proof fn lemma_fen_round_trip(gm: GameModel)
    requires
        gm.wf(),
    ensures
        spec_parse_game(spec_game_fen(gm)) == Ok::<GameModel, ParseGameStateError>(gm),
{
    let s = spec_game_fen(gm);
    let f0 = spec_board_fen(gm.board);
    let f1: Seq<char> = if gm.turn is White {
        seq!['w']
    } else {
        seq!['b']
    };
    let f2 = spec_rights_fen(gm.rights);
    let f3 = spec_ep_fen(gm.ept);
    let f4 = spec_uint_chars(gm.half_move);
    let f5 = spec_uint_chars(gm.full_move);
    let sp = seq![' '];
    // No field contains a space, so the split recovers the six fields.
    lemma_board_fen_no_space(gm.board, 7);
    lemma_rights_fen_chars(gm.rights);
    lemma_uint_chars_digits(gm.half_move);
    lemma_uint_chars_digits(gm.full_move);
    assert(forall|k: int| 0 <= k < f0.len() ==> #[trigger] f0[k] != ' ');
    assert(forall|k: int| 0 <= k < f1.len() ==> #[trigger] f1[k] != ' ');
    assert(forall|k: int| 0 <= k < f2.len() ==> #[trigger] f2[k] != ' ');
    assert forall|k: int| 0 <= k < f3.len() implies #[trigger] f3[k] != ' ' by {
        match gm.ept {
            None => {},
            Some(t) => {
                assert(f3[0] == BoardColumn::spec_char(BoardColumn::spec_from_value(t % 8 + 1)));
                assert(f3[1] == spec_digit_char(t / 8 + 1));
            },
        }
    }
    assert forall|k: int| 0 <= k < f4.len() implies #[trigger] f4[k] != ' ' by {
        assert(spec_is_digit(f4[k]));
    }
    assert forall|k: int| 0 <= k < f5.len() implies #[trigger] f5[k] != ' ' by {
        assert(spec_is_digit(f5[k]));
    }
    let r4 = f4 + sp + f5;
    let r3 = f3 + sp + r4;
    let r2 = f2 + sp + r3;
    let r1 = f1 + sp + r2;
    assert(s =~= f0 + sp + r1);
    lemma_split_join(f0, r1, ' ');
    lemma_split_join(f1, r2, ' ');
    lemma_split_join(f2, r3, ' ');
    lemma_split_join(f3, r4, ' ');
    lemma_split_join(f4, f5, ' ');
    lemma_split_single(f5, ' ');
    let fields = spec_split(s, ' ');
    assert(fields =~~= seq![f0, f1, f2, f3, f4, f5]);
    // Each field parses back to the component it came from.
    lemma_board_round_trip(gm.board);
    lemma_rights_round_trip(gm.rights);
    lemma_ep_round_trip(gm.ept);
    lemma_uint_chars_parse(gm.half_move);
    lemma_uint_chars_parse(gm.full_move);
    if gm.turn is White {
        assert(fields[1] =~= seq!['w']);
    } else {
        assert(fields[1] =~= seq!['b']);
        assert(!(fields[1] =~= seq!['w']));
    }
    assert(spec_parse_game(s) == Ok::<GameModel, ParseGameStateError>(gm));
}

/// For a description already in canonical form — one that some well-formed
/// state serializes to — parse followed by serialize reproduces the text
/// exactly.
pub proof fn lemma_canonical_fen_reparse(s: Seq<char>, gm: GameModel)
    requires
        gm.wf(),
        s == spec_game_fen(gm),
    ensures
        spec_parse_game(s) matches Ok(parsed) && spec_game_fen(parsed) == s,
{
    lemma_fen_round_trip(gm);
}

/// The round trip at the level of the executable state: the description
/// `to_fen` writes, `parse_from_fen` reads back as an equal state.
pub proof fn lemma_game_state_fen_round_trip(st: GameState)
    requires
        st.wf(),
    ensures
        spec_parse_game(spec_game_fen(st@)) == Ok::<GameModel, ParseGameStateError>(st@),
{
    lemma_fen_round_trip(st@);
}

/// The state a single applied move leads to, per the transition rules: the
/// half-move clock resets on a pawn advance or capture and otherwise counts
/// up, the full-move counter counts Black's moves, the en-passant target is
/// whatever the move created, rights only shrink, and the turn flips.
pub open spec fn spec_apply(gm: GameModel, m: Move) -> GameModel {
    let mi = spec_move_info(gm.board, m);
    GameModel {
        board: spec_board_after(gm.board, m),
        turn: mi.moved_piece_color.spec_other(),
        rights: gm.rights.spec_minus(mi.revoked_castle_rights),
        ept: match mi.new_en_passant_target {
            None => None,
            Some(t) => Some(t.0@),
        },
        half_move: if mi.pawn_advanced || mi.captured is Some {
            0
        } else {
            gm.half_move + 1
        },
        full_move: if mi.moved_piece_color is Black {
            gm.full_move + 1
        } else {
            gm.full_move
        },
    }
}

/// A sequence of moves applied in order.
pub open spec fn spec_apply_seq(gm: GameModel, ms: Seq<Move>) -> GameModel
    decreases ms.len(),
{
    if ms.len() == 0 {
        gm
    } else {
        spec_apply_seq(spec_apply(gm, ms[0]), ms.drop_first())
    }
}

/// Castling rights are monotone: for any sequence of applied moves, the
/// rights that remain are a subset of what the sequence started with; a
/// right never comes back once cleared.
pub proof fn lemma_castle_rights_monotonic(gm: GameModel, ms: Seq<Move>)
    ensures
        gm.rights.spec_has(spec_apply_seq(gm, ms).rights),
    decreases ms.len(),
{
    if ms.len() > 0 {
        lemma_castle_rights_monotonic(spec_apply(gm, ms[0]), ms.drop_first());
    }
}

/// En-passant lifecycle: the target after a pseudo-legal move is exactly
/// what that move created, so it is present only right after a two-square
/// pawn advance, on the square passed over, and any other move, by either
/// side, clears it.
pub proof fn lemma_en_passant_lifecycle(
    gm: GameModel,
    ept: Option<EnPassantTarget>,
    m: Move,
)
    requires
        crate::move_rules::pseudo_legal(gm.board, gm.turn, ept, gm.rights, m),
        gm.board.len() == 64,
    ensures
        spec_apply(gm, m).ept == (match spec_move_info(gm.board, m).new_en_passant_target {
            None => None::<int>,
            Some(t) => Some(t.0@),
        }),
        spec_apply(gm, m).ept is Some ==> (m matches Move::Simple(f, t) && ((gm.board[f@] == Some(
            BoardPiece::WhitePawn,
        ) && t@ - f@ == 16 && spec_apply(gm, m).ept == Some(f@ + 8)) || (gm.board[f@] == Some(
            BoardPiece::BlackPawn,
        ) && f@ - t@ == 16 && spec_apply(gm, m).ept == Some(f@ - 8)))),
{
    match m {
        Move::Simple(f, t) => {},
        Move::EnPassant { .. } => {},
        Move::Castle { rook_from, rook_to, king_from, king_to } => {
            let c = (gm.board[m.spec_from()]->0).spec_color();
            assert(crate::move_rules::castle_move_ok(gm.board, c, gm.rights, king_from@, m));
        },
    }
}

/// The 6-field description of a game state.
pub open spec fn spec_game_fen(gm: GameModel) -> Seq<char> {
    spec_board_fen(gm.board) + seq![' '] + (if gm.turn is White {
        seq!['w']
    } else {
        seq!['b']
    }) + seq![' '] + spec_rights_fen(gm.rights) + seq![' '] + spec_ep_fen(gm.ept) + seq![' ']
        + spec_uint_chars(gm.half_move) + seq![' '] + spec_uint_chars(gm.full_move)
}

/// What parsing a 6-field position description yields: extra fields are
/// ignored, and an unparseable en-passant field means no target.
pub open spec fn spec_parse_game(s: Seq<char>) -> Result<GameModel, ParseGameStateError> {
    let fields = spec_split(s, ' ');
    if fields.len() < 6 {
        Err(ParseGameStateError::MissingFields { field_count: fields.len() as usize })
    } else {
        match spec_parse_board(fields[0]) {
            Err(e) => Err(ParseGameStateError::InvalidBoard(e)),
            Ok(board) => {
                if !(fields[1] =~= seq!['w']) && !(fields[1] =~= seq!['b']) {
                    Err(ParseGameStateError::InvalidNextMove)
                } else {
                    let turn = if fields[1] =~= seq!['w'] {
                        PieceColor::White
                    } else {
                        PieceColor::Black
                    };
                    match CastleRights::spec_rights_from_str(fields[2]) {
                        Err(e) => Err(ParseGameStateError::InvalidCastleRight(e)),
                        Ok(rights) => {
                            let ept = match EnPassantTarget::spec_from_fen(fields[3]) {
                                None => None::<int>,
                                Some(t) => Some(t.0@),
                            };
                            match spec_parse_uint(fields[4]) {
                                None => Err(ParseGameStateError::ParseInt),
                                Some(h) => {
                                    if h > 255 {
                                        Err(ParseGameStateError::ParseInt)
                                    } else {
                                        match spec_parse_uint(fields[5]) {
                                            None => Err(ParseGameStateError::ParseInt),
                                            Some(fm) => {
                                                if fm > 65535 {
                                                    Err(ParseGameStateError::ParseInt)
                                                } else {
                                                    Ok(
                                                        GameModel {
                                                            board,
                                                            turn,
                                                            rights,
                                                            ept,
                                                            half_move: h,
                                                            full_move: fm,
                                                        },
                                                    )
                                                }
                                            },
                                        }
                                    }
                                },
                            }
                        },
                    }
                }
            },
        }
    }
}

/// The occupant of square `i` in the canonical starting position.
pub open spec fn spec_start_square(i: int) -> Option<BoardPiece> {
    if i == 0 || i == 7 {
        Some(BoardPiece::WhiteRook)
    } else if i == 1 || i == 6 {
        Some(BoardPiece::WhiteKnight)
    } else if i == 2 || i == 5 {
        Some(BoardPiece::WhiteBishop)
    } else if i == 3 {
        Some(BoardPiece::WhiteQueen)
    } else if i == 4 {
        Some(BoardPiece::WhiteKing)
    } else if 8 <= i < 16 {
        Some(BoardPiece::WhitePawn)
    } else if 48 <= i < 56 {
        Some(BoardPiece::BlackPawn)
    } else if i == 56 || i == 63 {
        Some(BoardPiece::BlackRook)
    } else if i == 57 || i == 62 {
        Some(BoardPiece::BlackKnight)
    } else if i == 58 || i == 61 {
        Some(BoardPiece::BlackBishop)
    } else if i == 59 {
        Some(BoardPiece::BlackQueen)
    } else if i == 60 {
        Some(BoardPiece::BlackKing)
    } else {
        None
    }
}

/// The canonical starting board.
pub open spec fn spec_start_board() -> Seq<Option<BoardPiece>> {
    Seq::new(64, |i: int| spec_start_square(i))
}

#[derive(Debug, Copy, Clone, PartialEq, Eq)]
pub struct GameState {
    pub board: Board,
    pub next_move: PieceColor,
    pub castling_rights: CastleRights,
    pub en_passant_target: Option<EnPassantTarget>,
    pub half_move_clock: HalfMoveClock,
    pub full_move_counter: FullMoveCounter,
}

impl View for GameState {
    type V = GameModel;

    open spec fn view(&self) -> GameModel {
        GameModel {
            board: self.board@,
            turn: self.next_move,
            rights: self.castling_rights,
            ept: match self.en_passant_target {
                None => None,
                Some(t) => Some(t.0@),
            },
            half_move: self.half_move_clock.clock as int,
            full_move: self.full_move_counter.counter as int,
        }
    }
}

impl GameState {
    /// A state is well formed when its en-passant target, if any, is on the
    /// board.
    pub open spec fn wf(self) -> bool {
        self.en_passant_target matches Some(t) ==> t.0.wf()
    }

    /// The canonical starting position: White to move, full rights, no
    /// target, clocks at 0 and 1.
    pub fn starting() -> (r: Self)
        ensures
            r@.board == spec_start_board(),
            r@.turn is White,
            r@.rights == (CastleRights {
                white_king_side: true,
                white_queen_side: true,
                black_king_side: true,
                black_queen_side: true,
            }),
            r@.ept is None,
            r@.half_move == 0,
            r@.full_move == 1,
            r.wf(),
    {
        let mut board = Board::empty_board();
        let mut file: u8 = 0;
        while file < 8
            invariant
                file <= 8,
                board@.len() == 64,
                forall|i: int|
                    0 <= i < 64 ==> board@[i] == if (8 <= i < 8 + file as int) {
                        Some(BoardPiece::WhitePawn)
                    } else if (48 <= i < 48 + file as int) {
                        Some(BoardPiece::BlackPawn)
                    } else {
                        None::<BoardPiece>
                    },
            decreases 8 - file,
        {
            board.repr.set_piece(BoardIndex::new_unchecked(8 + file), Some(BoardPiece::WhitePawn));
            board.repr.set_piece(
                BoardIndex::new_unchecked(48 + file),
                Some(BoardPiece::BlackPawn),
            );
            file = file + 1;
        }
        board.repr.set_piece(BoardIndex::new_unchecked(0), Some(BoardPiece::WhiteRook));
        board.repr.set_piece(BoardIndex::new_unchecked(1), Some(BoardPiece::WhiteKnight));
        board.repr.set_piece(BoardIndex::new_unchecked(2), Some(BoardPiece::WhiteBishop));
        board.repr.set_piece(BoardIndex::new_unchecked(3), Some(BoardPiece::WhiteQueen));
        board.repr.set_piece(BoardIndex::new_unchecked(4), Some(BoardPiece::WhiteKing));
        board.repr.set_piece(BoardIndex::new_unchecked(5), Some(BoardPiece::WhiteBishop));
        board.repr.set_piece(BoardIndex::new_unchecked(6), Some(BoardPiece::WhiteKnight));
        board.repr.set_piece(BoardIndex::new_unchecked(7), Some(BoardPiece::WhiteRook));
        board.repr.set_piece(BoardIndex::new_unchecked(56), Some(BoardPiece::BlackRook));
        board.repr.set_piece(BoardIndex::new_unchecked(57), Some(BoardPiece::BlackKnight));
        board.repr.set_piece(BoardIndex::new_unchecked(58), Some(BoardPiece::BlackBishop));
        board.repr.set_piece(BoardIndex::new_unchecked(59), Some(BoardPiece::BlackQueen));
        board.repr.set_piece(BoardIndex::new_unchecked(60), Some(BoardPiece::BlackKing));
        board.repr.set_piece(BoardIndex::new_unchecked(61), Some(BoardPiece::BlackBishop));
        board.repr.set_piece(BoardIndex::new_unchecked(62), Some(BoardPiece::BlackKnight));
        board.repr.set_piece(BoardIndex::new_unchecked(63), Some(BoardPiece::BlackRook));
        proof {
            assert(board@ =~= spec_start_board());
        }
        GameState {
            board,
            next_move: PieceColor::White,
            castling_rights: CastleRights {
                white_king_side: true,
                white_queen_side: true,
                black_king_side: true,
                black_queen_side: true,
            },
            en_passant_target: None,
            half_move_clock: HalfMoveClock::new(),
            full_move_counter: FullMoveCounter::new(),
        }
    }

    /// Parses a 6-field position description.
    pub fn parse_from_fen(fen: &str) -> (r: Result<Self, ParseGameStateError>)
        ensures
            r matches Ok(st) ==> (spec_parse_game(fen@) matches Ok(gm) && st@ == gm && st.wf()),
            r matches Err(e) ==> spec_parse_game(fen@) == Err::<GameModel, ParseGameStateError>(e),
    {
        let fields = split_str(fen, ' ');
        proof {
            assert forall|k: int| 0 <= k < fields@.len() implies fields.deep_view()[k]
                == fields@[k]@ by {}
        }
        if fields.len() < 6 {
            return Err(ParseGameStateError::MissingFields { field_count: fields.len() });
        }
        let board = match Board::parse_from_fen(fields[0]) {
            Ok(board) => board,
            Err(e) => {
                return Err(ParseGameStateError::InvalidBoard(e));
            },
        };
        let turn_field = fields[1];
        let turn_len = turn_field.unicode_len();
        let next_move = if turn_len == 1 && turn_field.get_char(0) == 'w' {
            proof {
                assert(turn_field@ =~= seq!['w']);
            }
            PieceColor::White
        } else if turn_len == 1 && turn_field.get_char(0) == 'b' {
            proof {
                assert(turn_field@ =~= seq!['b']);
                assert(!(turn_field@ =~= seq!['w']));
            }
            PieceColor::Black
        } else {
            proof {
                assert(!(turn_field@ =~= seq!['w']));
                assert(!(turn_field@ =~= seq!['b']));
            }
            return Err(ParseGameStateError::InvalidNextMove);
        };
        let castling_rights = match CastleRights::rights_from_fen_str(fields[2]) {
            Ok(castling_rights) => castling_rights,
            Err(e) => {
                return Err(ParseGameStateError::InvalidCastleRight(e));
            },
        };
        let en_passant_target = EnPassantTarget::from_fen(fields[3]);
        let half_move_clock = match parse_uint_capped(fields[4], 255) {
            Some(h) => HalfMoveClock::new_from_clock(h as u8),
            None => {
                return Err(ParseGameStateError::ParseInt);
            },
        };
        let full_move_counter = match parse_uint_capped(fields[5], 65535) {
            Some(fm) => FullMoveCounter::new_from_counter(fm as u16),
            None => {
                return Err(ParseGameStateError::ParseInt);
            },
        };
        proof {
            let fields_dv = spec_split(fen@, ' ');
            assert(fields_dv == fields.deep_view());
            assert(fields_dv[4] == fields@[4]@);
            assert(fields_dv[5] == fields@[5]@);
            assert(spec_parse_uint(fields_dv[4]) is Some);
            let v4 = spec_parse_uint(fields_dv[4])->0;
            assert(0 <= v4 <= 255);
            assert(half_move_clock.clock as int == v4);
            assert(spec_parse_uint(fields_dv[5]) is Some);
            let v5 = spec_parse_uint(fields_dv[5])->0;
            assert(0 <= v5 <= 65535);
            assert(full_move_counter.counter as int == v5);
        }
        Ok(
            Self {
                board,
                next_move,
                castling_rights,
                en_passant_target,
                half_move_clock,
                full_move_counter,
            },
        )
    }

    /// The board field alone of this state's description.
    pub fn board_to_fen(&self) -> (r: String)
        ensures
            r@ == spec_board_fen(self@.board),
    {
        self.board.to_fen()
    }

    /// The full 6-field description of this state.
    #[verifier::rlimit(100)]
    pub fn to_fen(&self) -> (r: String)
        requires
            self.wf(),
        ensures
            r@ == spec_game_fen(self@),
    {
        let mut out: Vec<char> = Vec::new();
        let board_fen = self.board.to_fen();
        push_str_chars(board_fen.as_str(), &mut out);
        out.push(' ');
        match self.next_move {
            PieceColor::White => out.push('w'),
            PieceColor::Black => out.push('b'),
        }
        out.push(' ');
        let cr = self.castling_rights;
        if !cr.white_king_side && !cr.white_queen_side && !cr.black_king_side
            && !cr.black_queen_side {
            out.push('-');
        } else {
            if cr.white_king_side {
                out.push('K');
            }
            if cr.white_queen_side {
                out.push('Q');
            }
            if cr.black_king_side {
                out.push('k');
            }
            if cr.black_queen_side {
                out.push('q');
            }
        }
        out.push(' ');
        match self.en_passant_target {
            Some(t) => {
                let file = t.0.file();
                let rank = t.0.rank();
                out.push(BoardColumn::from_index_unchecked(file).char());
                out.push(digit_to_char(rank as u32));
            },
            None => {
                out.push('-');
            },
        }
        out.push(' ');
        push_uint_chars(self.half_move_clock.get() as u32, &mut out);
        out.push(' ');
        push_uint_chars(self.full_move_counter.get() as u32, &mut out);
        proof {
            assert(out@ =~= spec_game_fen(self@));
        }
        chars_to_string(&out)
    }

    /// Every legal move of the side to move. A move that would leave the
    /// mover's own king reachable by an opposing simple move never appears.
    pub fn legal_moves(&self) -> (r: Vec<Move>)
        ensures
            forall|m: Move|
                r@.contains(m) <==> move_legal(
                    self@.board,
                    self@.turn,
                    self.en_passant_target,
                    self.castling_rights,
                    m,
                ),
            forall|m: Move|
                r@.contains(m) ==> spec_applicable(self@.board, m) && spec_move_info(
                    self@.board,
                    m,
                ).moved_piece_color == self@.turn,
    {
        let r = self.board.all_legal_moves_for_turn(
            self.next_move,
            self.en_passant_target,
            self.castling_rights,
        );
        proof {
            assert forall|m: Move| r@.contains(m) implies spec_applicable(self@.board, m)
                && spec_move_info(self@.board, m).moved_piece_color == self@.turn by {
                lemma_pseudo_legal_mover_color(
                    self@.board,
                    self@.turn,
                    self.en_passant_target,
                    self.castling_rights,
                    m,
                );
            }
        }
        r
    }

    /// Applies one move: the board advances, the half-move clock resets on a
    /// pawn advance or capture and otherwise counts one more, the full-move
    /// counter counts one more exactly when Black moved, the en-passant
    /// target becomes whatever the move created, the revoked castling rights
    /// disappear for good, and the turn passes to the opponent.
    pub fn perform_move(&mut self, m: Move)
        requires
            spec_applicable(old(self)@.board, m),
            spec_move_info(old(self)@.board, m).moved_piece_color == old(self)@.turn,
            spec_move_info(old(self)@.board, m).pawn_advanced || spec_move_info(
                old(self)@.board,
                m,
            ).captured is Some || old(self)@.half_move < 255,
            old(self)@.turn is Black ==> old(self)@.full_move < 65535,
        ensures
            final(self)@ == spec_apply(old(self)@, m),
            final(self).wf(),
            ({
                let mi = spec_move_info(old(self)@.board, m);
                &&& (mi.pawn_advanced || mi.captured is Some) ==> final(self)@.half_move == 0
                &&& !(mi.pawn_advanced || mi.captured is Some) ==> final(self)@.half_move == old(
                    self,
                )@.half_move + 1
                &&& old(self)@.turn is Black ==> final(self)@.full_move == old(self)@.full_move + 1
                &&& old(self)@.turn is White ==> final(self)@.full_move == old(self)@.full_move
                &&& old(self)@.rights.spec_has(final(self)@.rights)
            }),
    {
        let (b, mi) = self.board.board_after_move(m);
        self.board = b;
        if mi.pawn_advanced || mi.captured.is_some() {
            self.half_move_clock.reset();
        } else {
            self.half_move_clock.advance();
        }
        match mi.moved_piece_color {
            PieceColor::Black => self.full_move_counter.inc(),
            PieceColor::White => {},
        }
        self.en_passant_target = mi.new_en_passant_target;
        self.castling_rights.revoke(mi.revoked_castle_rights);
        self.next_move = mi.moved_piece_color.other();
    }

    /// A human-readable grid of the board, for diagnostics.
    pub fn board_to_visual(&self) -> (r: BoardVisual)
        ensures
            r.0@.len() == 64,
            forall|i: int|
                0 <= i < 64 ==> r.0@[i] == crate::board::spec_visual_byte(self@.board[i]),
    {
        self.board.to_visual()
    }
}

/// Why a position description failed to parse.
#[derive(Debug, Copy, Clone, PartialEq, Eq, Structural)]
pub enum ParseGameStateError {
    /// Fewer than 6 fields; carries how many there were.
    MissingFields { field_count: usize },
    /// A clock or counter field that is not a number in range.
    ParseInt,
    InvalidBoard(ParseBoardError),
    InvalidNextMove,
    InvalidCastleRight(InvalidCastleRight),
}

} // verus!
