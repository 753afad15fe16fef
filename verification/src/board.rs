//! The board: 64 occupancy cells in packed storage, the move generator's
//! driver, the legality filter, and the board half of the FEN codec.

use vstd::prelude::*;

use crate::board_position::BoardIndex;
use crate::castle_rights::CastleRights;
use crate::cell_buffer::{RankCellBuffer, WholeBoardCellBuffer};
use crate::en_passant_target::EnPassantTarget;
use crate::fen_text::{
    chars_to_string, digit_to_char, push_str_chars, spec_digit_char, spec_digit_val, spec_split,
    split_str,
};
use crate::move_rules::{
    attacked, king_capturable, lemma_pseudo_legal_applicable, move_legal, move_safe, piece_move_ok,
    piece_simple_move, pseudo_legal, spec_applicable, spec_board_after, spec_move_info,
    spec_simple_applied, spec_simple_move_info,
};
use crate::piece::{BoardPiece, BoardPieceKind, PieceColor};
use crate::piece_move::{Move, MoveInfo};
use vstd::seq_lib::lemma_seq_contains_after_push;

verus! {

/// A chess board: a value type of 32 packed bytes, copied freely. Its view
/// is the sequence of the 64 occupants in square order.
#[derive(Copy, Clone, PartialEq, Eq, Debug)]
pub struct Board {
    pub repr: WholeBoardCellBuffer,
}

impl View for Board {
    type V = Seq<Option<BoardPiece>>;

    open spec fn view(&self) -> Seq<Option<BoardPiece>> {
        self.repr@
    }
}

impl Board {
    pub fn get_piece_at(&self, index: BoardIndex) -> (r: Option<BoardPiece>)
        requires
            index.wf(),
        ensures
            r == self@[index@],
    {
        self.repr.get_piece(index)
    }

    pub fn empty_board() -> (r: Self)
        ensures
            r@.len() == 64,
            forall|i: int| 0 <= i < 64 ==> r@[i] is None,
    {
        Self { repr: WholeBoardCellBuffer::init_empty() }
    }

    /// Every occupied square of the board with its piece, in square order.
    pub fn piece_iterator(&self) -> (r: Vec<(BoardIndex, BoardPiece)>)
        ensures
            forall|k: int|
                0 <= k < r@.len() ==> (#[trigger] r@[k]).0.wf() && self@[r@[k].0@] == Some(
                    r@[k].1,
                ),
            forall|i: int|
                0 <= i < 64 && self@[i] is Some ==> r@.contains(
                    (BoardIndex::spec_from_int(i), self@[i]->0),
                ),
    {
        let mut r: Vec<(BoardIndex, BoardPiece)> = Vec::new();
        let mut i: u8 = 0;
        while i < 64
            invariant
                i <= 64,
                forall|k: int|
                    0 <= k < r@.len() ==> (#[trigger] r@[k]).0.wf() && self@[r@[k].0@] == Some(
                        r@[k].1,
                    ),
                forall|j: int|
                    0 <= j < i && self@[j] is Some ==> r@.contains(
                        (BoardIndex::spec_from_int(j), self@[j]->0),
                    ),
            decreases 64 - i,
        {
            let index = BoardIndex::new_unchecked(i);
            match self.get_piece_at(index) {
                Some(p) => {
                    let ghost old_r = r@;
                    r.push((index, p));
                    proof {
                        assert(r@ == old_r.push((index, p)));
                        assert(r@[r@.len() - 1] == (index, p));
                        assert forall|j: int| 0 <= j < i + 1 && self@[j] is Some implies r@
                            .contains((BoardIndex::spec_from_int(j), self@[j]->0)) by {
                            if j < i {
                                let v = (BoardIndex::spec_from_int(j), self@[j]->0);
                                let k = choose|k: int| 0 <= k < old_r.len() && old_r[k] == v;
                                assert(r@[k] == v);
                            } else {
                                assert(r@[r@.len() - 1] == (BoardIndex::spec_from_int(j),
                                self@[j]->0));
                            }
                        }
                    }
                },
                None => {},
            }
            i = i + 1;
        }
        r
    }
}

impl Board {
    /// Every pseudo-legal move of color `turn`: the union, over every square
    /// occupied by that color, of the per-piece generation.
    pub fn all_possible_moves_for_turn(
        &self,
        turn: PieceColor,
        en_passant_target: Option<EnPassantTarget>,
        castle_rights: CastleRights,
    ) -> (r: Vec<Move>)
        ensures
            forall|m: Move|
                r@.contains(m) <==> pseudo_legal(
                    self@,
                    turn,
                    en_passant_target,
                    castle_rights,
                    m,
                ),
    {
        let pieces = self.piece_iterator();
        let mut moves: Vec<Move> = Vec::new();
        let mut i: usize = 0;
        while i < pieces.len()
            invariant
                i <= pieces@.len(),
                forall|k: int|
                    0 <= k < pieces@.len() ==> (#[trigger] pieces@[k]).0.wf()
                        && self@[pieces@[k].0@] == Some(pieces@[k].1),
                forall|m: Move|
                    moves@.contains(m) ==> pseudo_legal(
                        self@,
                        turn,
                        en_passant_target,
                        castle_rights,
                        m,
                    ),
                forall|k: int, m: Move|
                    0 <= k < i && pieces@[k].1.spec_color() == turn && #[trigger] piece_move_ok(
                        self@,
                        pieces@[k].1,
                        pieces@[k].0@,
                        en_passant_target,
                        castle_rights,
                        m,
                    ) ==> moves@.contains(m),
            decreases pieces@.len() - i,
        {
            let (index, p) = pieces[i];
            if p.color() == turn {
                let generated = p.moves_on_board(index, self, en_passant_target, castle_rights);
                let ghost pre = moves@;
                let mut j: usize = 0;
                while j < generated.len()
                    invariant
                        j <= generated@.len(),
                        index.wf(),
                        self@[index@] == Some(p),
                        p.spec_color() == turn,
                        forall|m: Move|
                            generated@.contains(m) <==> piece_move_ok(
                                self@,
                                p,
                                index@,
                                en_passant_target,
                                castle_rights,
                                m,
                            ),
                        forall|m: Move| pre.contains(m) ==> moves@.contains(m),
                        forall|m: Move|
                            moves@.contains(m) ==> pre.contains(m) || generated@.contains(m),
                        forall|k: int|
                            0 <= k < j ==> moves@.contains(#[trigger] generated@[k]),
                    decreases generated@.len() - j,
                {
                    let ghost snap = moves@;
                    moves.push(generated[j]);
                    proof {
                        broadcast use lemma_seq_contains_after_push;

                        assert(moves@ == snap.push(generated@[j as int]));
                    }
                    j = j + 1;
                }
                proof {
                    assert forall|m: Move|
                        generated@.contains(m) implies moves@.contains(m) by {
                        let k = choose|k: int|
                            0 <= k < generated@.len() && generated@[k] == m;
                        assert(moves@.contains(generated@[k]));
                    }
                    assert forall|m: Move|
                        moves@.contains(m) implies pseudo_legal(
                        self@,
                        turn,
                        en_passant_target,
                        castle_rights,
                        m,
                    ) by {
                        if !pre.contains(m) {
                            assert(generated@.contains(m));
                            assert(piece_move_ok(
                                self@,
                                p,
                                index@,
                                en_passant_target,
                                castle_rights,
                                m,
                            ));
                            assert(m.spec_from() == index@);
                        }
                    }
                }
            }
            i = i + 1;
        }
        proof {
            assert forall|m: Move|
                pseudo_legal(self@, turn, en_passant_target, castle_rights, m) implies moves@
                .contains(m) by {
                let f = m.spec_from();
                let p = self@[f]->0;
                assert(pieces@.contains((BoardIndex::spec_from_int(f), p)));
                let k = choose|k: int|
                    0 <= k < pieces@.len() && pieces@[k] == (BoardIndex::spec_from_int(f), p);
                assert(pieces@[k].0@ == f);
            }
        }
        moves
    }

    /// Applies a simple move: the piece on `start` lands on `end`, which is
    /// cleared first; derives the side effects of that move.
    fn apply_simple(&self, start: BoardIndex, end: BoardIndex) -> (r: (Board, MoveInfo))
        requires
            start.wf(),
            end.wf(),
            self@[start@] is Some,
        ensures
            r.0@ == spec_simple_applied(self@, start@, end@),
            r.1 == spec_simple_move_info(self@, start@, end@),
    {
        let piece = self.repr.get_piece(start).unwrap();
        let captured = self.repr.get_piece(end);
        let mut new_board = *self;
        new_board.repr.set_piece(end, Some(piece));
        new_board.repr.set_piece(start, None);
        let s = start.get_pos();
        let e = end.get_pos();
        let revoked = match piece {
            BoardPiece::WhiteRook => {
                if s == 0 {
                    CastleRights::white_queen_side()
                } else if s == 7 {
                    CastleRights::white_king_side()
                } else {
                    CastleRights::empty()
                }
            },
            BoardPiece::BlackRook => {
                if s == 56 {
                    CastleRights::black_queen_side()
                } else if s == 63 {
                    CastleRights::black_king_side()
                } else {
                    CastleRights::empty()
                }
            },
            BoardPiece::WhiteKing => CastleRights::white_king_side().union(
                CastleRights::white_queen_side(),
            ),
            BoardPiece::BlackKing => CastleRights::black_king_side().union(
                CastleRights::black_queen_side(),
            ),
            _ => CastleRights::empty(),
        };
        let new_en_passant_target = match piece {
            BoardPiece::WhitePawn => {
                if e >= 16 && e - 16 == s {
                    Some(EnPassantTarget(BoardIndex::new_unchecked(s + 8)))
                } else {
                    None
                }
            },
            BoardPiece::BlackPawn => {
                if s >= 16 && s - 16 == e {
                    Some(EnPassantTarget(BoardIndex::new_unchecked(s - 8)))
                } else {
                    None
                }
            },
            _ => None,
        };
        let info = MoveInfo {
            moved_piece_color: piece.color(),
            revoked_castle_rights: revoked,
            captured,
            pawn_advanced: matches!(piece.kind(), BoardPieceKind::Pawn),
            new_en_passant_target,
        };
        (new_board, info)
    }

    /// The board after applying `m`, together with the side effects of the
    /// move; the board the move was applied to is untouched.
    pub fn board_after_move(&self, m: Move) -> (r: (Self, MoveInfo))
        requires
            spec_applicable(self@, m),
        ensures
            r.0@ == spec_board_after(self@, m),
            r.1 == spec_move_info(self@, m),
    {
        match m {
            Move::Simple(start, end) => self.apply_simple(start, end),
            Move::EnPassant { pawn_doing_en_passant, pawn_being_captured, en_passant_target } => {
                let pawn = self.repr.get_piece(pawn_doing_en_passant).unwrap();
                let captured_pawn = self.repr.get_piece(pawn_being_captured).unwrap();
                let mut new_board = *self;
                new_board.repr.set_piece(pawn_doing_en_passant, None);
                new_board.repr.set_piece(pawn_being_captured, None);
                new_board.repr.set_piece(en_passant_target.0, Some(pawn));
                let info = MoveInfo {
                    moved_piece_color: pawn.color(),
                    revoked_castle_rights: CastleRights::empty(),
                    captured: Some(captured_pawn),
                    pawn_advanced: true,
                    new_en_passant_target: None,
                };
                (new_board, info)
            },
            Move::Castle { rook_from, rook_to, king_from, king_to } => {
                let (after_king, info_king) = self.apply_simple(king_from, king_to);
                let (after_rook, info_rook) = after_king.apply_simple(rook_from, rook_to);
                (after_rook, info_king.combine_composite(info_rook))
            },
        }
    }

    /// Whether some piece of color `by` has a simple pseudo-legal move onto
    /// `square`.
    fn is_square_attacked(&self, by: PieceColor, square: BoardIndex) -> (r: bool)
        requires
            square.wf(),
        ensures
            r == attacked(self@, by, square@),
    {
        let candidate_moves = self.all_possible_moves_for_turn(by, None, CastleRights::empty());
        let mut i: usize = 0;
        while i < candidate_moves.len()
            invariant
                i <= candidate_moves@.len(),
                square.wf(),
                forall|m: Move|
                    candidate_moves@.contains(m) <==> pseudo_legal(
                        self@,
                        by,
                        None,
                        CastleRights::spec_empty(),
                        m,
                    ),
                forall|j: int|
                    0 <= j < i ==> !(#[trigger] candidate_moves@[j] matches Move::Simple(a, t)
                        && t == square),
            decreases candidate_moves@.len() - i,
        {
            match candidate_moves[i] {
                Move::Simple(_, end) => {
                    if end.get_pos() == square.get_pos() {
                        proof {
                            let m = candidate_moves@[i as int];
                            assert(candidate_moves@.contains(m));
                            let f = m.spec_from();
                            assert(self@[f] matches Some(p) && p.spec_color() == by
                                && piece_simple_move(self@, p, f, square@));
                        }
                        return true;
                    }
                },
                _ => {},
            }
            i = i + 1;
        }
        proof {
            if attacked(self@, by, square@) {
                let f = choose|f: int|
                    0 <= f < 64 && (#[trigger] self@[f] matches Some(p) && p.spec_color() == by
                        && piece_simple_move(self@, p, f, square@));
                let witness = Move::Simple(BoardIndex::spec_from_int(f), square);
                assert(pseudo_legal(self@, by, None, CastleRights::spec_empty(), witness));
                assert(candidate_moves@.contains(witness));
                let j = choose|j: int|
                    0 <= j < candidate_moves@.len() && candidate_moves@[j] == witness;
                assert(false);
            }
        }
        false
    }

    /// Whether applying `m` leaves no square holding `turn`'s king reachable
    /// by an opposing simple move, and, for a castle, whether the king
    /// neither starts from nor crosses an attacked square.
    pub fn check_move_validity(
        &self,
        turn: PieceColor,
        m: Move,
        en_passant_target: Option<EnPassantTarget>,
        castle_rights: CastleRights,
    ) -> (r: bool)
        requires
            spec_applicable(self@, m),
        ensures
            r == move_safe(self@, turn, m),
    {
        let (new_board, _mi) = self.board_after_move(m);
        let other_turn = turn.other();
        let king = turn.king_of_color();
        let opponent_moves = new_board.all_possible_moves_for_turn(
            other_turn,
            en_passant_target,
            castle_rights,
        );
        let mut i: usize = 0;
        while i < opponent_moves.len()
            invariant
                i <= opponent_moves@.len(),
                new_board@ == spec_board_after(self@, m),
                king == BoardPiece::spec_new(BoardPieceKind::King, turn),
                other_turn == turn.spec_other(),
                forall|m2: Move|
                    opponent_moves@.contains(m2) <==> pseudo_legal(
                        new_board@,
                        turn.spec_other(),
                        en_passant_target,
                        castle_rights,
                        m2,
                    ),
                forall|j: int|
                    0 <= j < i ==> !(#[trigger] opponent_moves@[j] matches Move::Simple(a, t)
                        && new_board@[t@] == Some(BoardPiece::spec_new(BoardPieceKind::King, turn))
                        && t.wf()),
            decreases opponent_moves@.len() - i,
        {
            match opponent_moves[i] {
                Move::Simple(_, end) => {
                    proof {
                        let m2 = opponent_moves@[i as int];
                        assert(opponent_moves@.contains(m2));
                    }
                    match new_board.get_piece_at(end) {
                        Some(p) => {
                            if p == king {
                                proof {
                                    let m2 = opponent_moves@[i as int];
                                    let f = m2.spec_from();
                                    assert(new_board@[f] matches Some(q) && q.spec_color()
                                        == turn.spec_other() && piece_simple_move(
                                        new_board@,
                                        q,
                                        f,
                                        end@,
                                    ));
                                    assert(attacked(new_board@, turn.spec_other(), end@));
                                    assert(king_capturable(new_board@, turn));
                                }
                                return false;
                            }
                        },
                        None => {},
                    }
                },
                _ => {},
            }
            i = i + 1;
        }
        proof {
            if king_capturable(new_board@, turn) {
                let s = choose|s: int|
                    0 <= s < 64 && #[trigger] new_board@[s] == Some(
                        BoardPiece::spec_new(BoardPieceKind::King, turn),
                    ) && attacked(new_board@, turn.spec_other(), s);
                let f = choose|f: int|
                    0 <= f < 64 && (#[trigger] new_board@[f] matches Some(p) && p.spec_color()
                        == turn.spec_other() && piece_simple_move(new_board@, p, f, s));
                let witness = Move::Simple(
                    BoardIndex::spec_from_int(f),
                    BoardIndex::spec_from_int(s),
                );
                assert(pseudo_legal(
                    new_board@,
                    turn.spec_other(),
                    en_passant_target,
                    castle_rights,
                    witness,
                ));
                assert(opponent_moves@.contains(witness));
                let j = choose|j: int|
                    0 <= j < opponent_moves@.len() && opponent_moves@[j] == witness;
                assert(false);
            }
        }
        match m {
            Move::Castle { king_from, king_to, .. } => {
                let transit = BoardIndex::new_unchecked(
                    (king_from.get_pos() + king_to.get_pos()) / 2,
                );
                if self.is_square_attacked(other_turn, king_from) {
                    return false;
                }
                if self.is_square_attacked(other_turn, transit) {
                    return false;
                }
                true
            },
            _ => true,
        }
    }

    /// Every legal move of color `turn`: the pseudo-legal moves that do not
    /// leave the mover's own king capturable.
    pub fn all_legal_moves_for_turn(
        &self,
        turn: PieceColor,
        en_passant_target: Option<EnPassantTarget>,
        castle_rights: CastleRights,
    ) -> (r: Vec<Move>)
        ensures
            forall|m: Move|
                r@.contains(m) <==> move_legal(self@, turn, en_passant_target, castle_rights, m),
            forall|m: Move| r@.contains(m) ==> spec_applicable(self@, m),
    {
        let pseudo = self.all_possible_moves_for_turn(turn, en_passant_target, castle_rights);
        let mut r: Vec<Move> = Vec::new();
        let mut i: usize = 0;
        while i < pseudo.len()
            invariant
                i <= pseudo@.len(),
                forall|m: Move|
                    pseudo@.contains(m) <==> pseudo_legal(
                        self@,
                        turn,
                        en_passant_target,
                        castle_rights,
                        m,
                    ),
                forall|m: Move|
                    r@.contains(m) ==> move_legal(self@, turn, en_passant_target, castle_rights, m)
                        && spec_applicable(self@, m),
                forall|j: int|
                    0 <= j < i && move_safe(self@, turn, #[trigger] pseudo@[j]) ==> r@.contains(
                        pseudo@[j],
                    ),
            decreases pseudo@.len() - i,
        {
            let m = pseudo[i];
            proof {
                assert(pseudo@.contains(m));
                assert(self@.len() == 64);
                lemma_pseudo_legal_applicable(self@, turn, en_passant_target, castle_rights, m);
            }
            if self.check_move_validity(turn, m, en_passant_target, castle_rights) {
                let ghost snap = r@;
                r.push(m);
                proof {
                    broadcast use lemma_seq_contains_after_push;

                    assert(r@ == snap.push(m));
                }
            }
            i = i + 1;
        }
        proof {
            assert forall|m: Move|
                move_legal(self@, turn, en_passant_target, castle_rights, m) implies r@.contains(
                m,
            ) by {
                assert(pseudo@.contains(m));
                let j = choose|j: int| 0 <= j < pseudo@.len() && pseudo@[j] == m;
            }
        }
        r
    }
}

/// An empty-run digit of a board rank: `1` through `8`.
pub open spec fn spec_is_run_digit(c: char) -> bool {
    '1' <= c <= '8'
}

/// One character of a rank description folded into the parse state: the
/// cells filled so far and the file index reached.
pub open spec fn spec_rank_fold(
    s: Seq<char>,
    cells: Seq<Option<BoardPiece>>,
    idx: int,
) -> Result<(Seq<Option<BoardPiece>>, int), ParseBoardError>
    decreases s.len(),
{
    if s.len() == 0 {
        Ok((cells, idx))
    } else {
        let c = s[0];
        if spec_is_run_digit(c) {
            let n = spec_digit_val(c);
            if idx + n > 8 {
                Err(ParseBoardError::TooManyFilesInFEN((idx + n) as u8))
            } else {
                spec_rank_fold(s.drop_first(), cells, idx + n)
            }
        } else {
            match BoardPiece::spec_try_from_fen_char(c) {
                None => Err(ParseBoardError::InvalidFENPieceChar(c)),
                Some(p) => {
                    if idx + 1 > 8 {
                        Err(ParseBoardError::TooManyFilesInFEN((idx + 1) as u8))
                    } else {
                        spec_rank_fold(s.drop_first(), cells.update(idx, Some(p)), idx + 1)
                    }
                },
            }
        }
    }
}

/// What parsing one rank description yields: 8 cells whose piece letters
/// and empty-run digits sum to exactly 8 files.
pub open spec fn spec_parse_rank(s: Seq<char>) -> Result<Seq<Option<BoardPiece>>, ParseBoardError> {
    match spec_rank_fold(s, Seq::new(8, |i: int| None), 0) {
        Err(e) => Err(e),
        Ok((cells, idx)) => {
            if idx < 8 {
                Err(ParseBoardError::MissingFilesInFEN(idx as u8))
            } else {
                Ok(cells)
            }
        },
    }
}

/// The board with 0-based rank `rank` replaced by `cells`.
pub open spec fn spec_set_rank(
    b: Seq<Option<BoardPiece>>,
    rank: int,
    cells: Seq<Option<BoardPiece>>,
) -> Seq<Option<BoardPiece>> {
    Seq::new(
        64,
        |i: int|
            if 8 * rank <= i < 8 * rank + 8 {
                cells[i - 8 * rank]
            } else {
                b[i]
            },
    )
}

/// The rank descriptions folded into a board, top rank first.
pub open spec fn spec_board_ranks(
    parts: Seq<Seq<char>>,
    b: Seq<Option<BoardPiece>>,
    rank: int,
) -> Result<Seq<Option<BoardPiece>>, ParseBoardError>
    decreases rank + 1,
{
    if rank < 0 {
        Ok(b)
    } else {
        let part_idx = 7 - rank;
        if part_idx >= parts.len() {
            Err(ParseBoardError::MissingRank(rank as u8))
        } else {
            match spec_parse_rank(parts[part_idx]) {
                Err(e) => Err(e),
                Ok(cells) => spec_board_ranks(parts, spec_set_rank(b, rank, cells), rank - 1),
            }
        }
    }
}

/// What parsing a whole board field yields: 8 `/`-separated ranks, rank 8
/// first; rank descriptions beyond the eighth are ignored.
pub open spec fn spec_parse_board(s: Seq<char>) -> Result<Seq<Option<BoardPiece>>, ParseBoardError> {
    spec_board_ranks(spec_split(s, '/'), Seq::new(64, |i: int| None), 7)
}

/// The description of a rank's remaining cells, with `run` empty squares
/// pending: runs of empties collapse to their digit, pieces to their letter.
pub open spec fn spec_rank_fen_loop(cells: Seq<Option<BoardPiece>>, run: int) -> Seq<char>
    decreases cells.len(),
{
    if cells.len() == 0 {
        if run > 0 {
            seq![spec_digit_char(run)]
        } else {
            Seq::<char>::empty()
        }
    } else {
        match cells[0] {
            None => spec_rank_fen_loop(cells.drop_first(), run + 1),
            Some(p) => (if run > 0 {
                seq![spec_digit_char(run)]
            } else {
                Seq::<char>::empty()
            }) + seq![p.spec_fen_char()] + spec_rank_fen_loop(cells.drop_first(), 0),
        }
    }
}

/// The description of one rank.
pub open spec fn spec_rank_fen(cells: Seq<Option<BoardPiece>>) -> Seq<char> {
    spec_rank_fen_loop(cells, 0)
}

/// The descriptions of ranks `rank` down to 1, `/`-separated.
pub open spec fn spec_board_fen_ranks(b: Seq<Option<BoardPiece>>, rank: int) -> Seq<char>
    decreases rank + 1,
{
    if rank < 0 {
        Seq::<char>::empty()
    } else {
        spec_rank_fen(b.subrange(8 * rank, 8 * rank + 8)) + (if rank > 0 {
            seq!['/']
        } else {
            Seq::<char>::empty()
        }) + spec_board_fen_ranks(b, rank - 1)
    }
}

/// The board field describing `b`: 8 ranks, rank 8 first.
pub open spec fn spec_board_fen(b: Seq<Option<BoardPiece>>) -> Seq<char> {
    spec_board_fen_ranks(b, 7)
}

impl Board {
    /// The value of an empty-run digit, or nothing for any other character.
    fn run_digit_val(c: char) -> (r: Option<u8>)
        ensures
            spec_is_run_digit(c) ==> r == Some(spec_digit_val(c) as u8),
            !spec_is_run_digit(c) ==> r is None,
    {
        match c {
            '1' => Some(1),
            '2' => Some(2),
            '3' => Some(3),
            '4' => Some(4),
            '5' => Some(5),
            '6' => Some(6),
            '7' => Some(7),
            '8' => Some(8),
            _ => None,
        }
    }

    /// Parses one rank description into 8 cells.
    fn parse_rank(fen: &str) -> (r: Result<RankCellBuffer, ParseBoardError>)
        ensures
            r matches Ok(rb) ==> (spec_parse_rank(fen@) matches Ok(cells) && rb@ == cells),
            r matches Err(e) ==> spec_parse_rank(fen@) == Err::<
                Seq<Option<BoardPiece>>,
                ParseBoardError,
            >(e),
    {
        let mut cells = RankCellBuffer::init_empty();
        let mut idx: u8 = 0;
        let len = fen.unicode_len();
        let mut i: usize = 0;
        proof {
            assert(fen@.skip(0) =~= fen@);
            assert(cells@ =~= Seq::new(8, |i: int| None::<BoardPiece>));
        }
        while i < len
            invariant
                i <= len,
                len == fen@.len(),
                idx <= 8,
                cells@.len() == 8,
                spec_rank_fold(fen@, Seq::new(8, |j: int| None), 0) == spec_rank_fold(
                    fen@.skip(i as int),
                    cells@,
                    idx as int,
                ),
            decreases len - i,
        {
            let c = fen.get_char(i);
            proof {
                assert(fen@.skip(i as int)[0] == c);
                assert(fen@.skip(i as int).drop_first() =~= fen@.skip(i as int + 1));
            }
            match Self::run_digit_val(c) {
                Some(n) => {
                    if idx + n > 8 {
                        return Err(ParseBoardError::TooManyFilesInFEN(idx + n));
                    }
                    idx = idx + n;
                },
                None => {
                    let piece = match BoardPiece::try_from_fen_char(c) {
                        Some(piece) => piece,
                        None => {
                            return Err(ParseBoardError::InvalidFENPieceChar(c));
                        },
                    };
                    if idx + 1 > 8 {
                        return Err(ParseBoardError::TooManyFilesInFEN(idx + 1));
                    }
                    cells.set_piece(BoardIndex::new_unchecked(idx), Some(piece));
                    idx = idx + 1;
                },
            }
            i = i + 1;
        }
        proof {
            assert(fen@.skip(len as int) =~= Seq::<char>::empty());
        }
        if idx < 8 {
            return Err(ParseBoardError::MissingFilesInFEN(idx));
        }
        Ok(cells)
    }

    /// Parses a whole board field: 8 `/`-separated ranks, rank 8 first.
    pub fn parse_from_fen(fen: &str) -> (r: Result<Self, ParseBoardError>)
        ensures
            r matches Ok(board) ==> (spec_parse_board(fen@) matches Ok(b) && board@ == b),
            r matches Err(e) ==> spec_parse_board(fen@) == Err::<
                Seq<Option<BoardPiece>>,
                ParseBoardError,
            >(e),
    {
        let mut init = Self::empty_board();
        let parts = split_str(fen, '/');
        proof {
            assert(init@ =~= Seq::new(64, |i: int| None::<BoardPiece>));
        }
        let mut rank_plus1: u8 = 8;
        while rank_plus1 > 0
            invariant
                rank_plus1 <= 8,
                parts.deep_view() == spec_split(fen@, '/'),
                init@.len() == 64,
                spec_board_ranks(parts.deep_view(), init@, rank_plus1 as int - 1)
                    == spec_parse_board(fen@),
            decreases rank_plus1,
        {
            let rank = rank_plus1 - 1;
            let part_idx = (7 - rank) as usize;
            if part_idx >= parts.len() {
                return Err(ParseBoardError::MissingRank(rank));
            }
            let parsed = match Self::parse_rank(parts[part_idx]) {
                Ok(parsed) => parsed,
                Err(e) => {
                    proof {
                        assert(parts.deep_view()[part_idx as int] == parts@[part_idx as int]@);
                    }
                    return Err(e);
                },
            };
            proof {
                assert(parts.deep_view()[part_idx as int] == parts@[part_idx as int]@);
            }
            let ghost pre = init@;
            init.repr.copy_rank_from(rank, &parsed);
            proof {
                assert(init@ =~= spec_set_rank(pre, rank as int, parsed@));
            }
            rank_plus1 = rank;
        }
        Ok(init)
    }

    /// The board field describing this board.
    pub fn to_fen(&self) -> (r: String)
        ensures
            r@ == spec_board_fen(self@),
    {
        let mut out: Vec<char> = Vec::new();
        let mut rank_plus1: u8 = 8;
        while rank_plus1 > 0
            invariant
                rank_plus1 <= 8,
                out@ + spec_board_fen_ranks(self@, rank_plus1 as int - 1) == spec_board_fen(
                    self@,
                ),
            decreases rank_plus1,
        {
            let rank = rank_plus1 - 1;
            let slice = self.repr.get_rank(rank);
            let mut empty_files: u8 = 0;
            let mut j: u8 = 0;
            let ghost tail = (if rank > 0 {
                seq!['/']
            } else {
                Seq::<char>::empty()
            }) + spec_board_fen_ranks(self@, rank as int - 1);
            proof {
                assert(slice@.skip(0) =~= slice@);
                assert(out@ + spec_rank_fen_loop(slice@, 0) + tail == spec_board_fen(self@));
            }
            while j < 8
                invariant
                    j <= 8,
                    empty_files <= j,
                    slice@.len() == 8,
                    out@ + spec_rank_fen_loop(slice@.skip(j as int), empty_files as int) + tail
                        == spec_board_fen(self@),
                decreases 8 - j,
            {
                proof {
                    assert(slice@.skip(j as int)[0] == slice@[j as int]);
                    assert(slice@.skip(j as int).drop_first() =~= slice@.skip(j as int + 1));
                }
                match slice.get_piece(BoardIndex::new_unchecked(j)) {
                    Some(p) => {
                        if empty_files != 0 {
                            out.push(digit_to_char(empty_files as u32));
                            empty_files = 0;
                        }
                        out.push(p.to_fen_char());
                    },
                    None => {
                        empty_files = empty_files + 1;
                    },
                }
                j = j + 1;
            }
            proof {
                assert(slice@.skip(8) =~= Seq::<Option<BoardPiece>>::empty());
            }
            if empty_files != 0 {
                out.push(digit_to_char(empty_files as u32));
            }
            if rank != 0 {
                out.push('/');
            }
            rank_plus1 = rank;
        }
        chars_to_string(&out)
    }
}

/// Folding rank characters distributes over concatenation.
proof fn lemma_rank_fold_concat(
    s1: Seq<char>,
    s2: Seq<char>,
    cells: Seq<Option<BoardPiece>>,
    idx: int,
)
    ensures
        spec_rank_fold(s1 + s2, cells, idx) == (match spec_rank_fold(s1, cells, idx) {
            Ok((c2, i2)) => spec_rank_fold(s2, c2, i2),
            Err(e) => Err(e),
        }),
    decreases s1.len(),
{
    if s1.len() == 0 {
        assert(s1 + s2 =~= s2);
    } else {
        assert((s1 + s2)[0] == s1[0]);
        assert((s1 + s2).drop_first() =~= s1.drop_first() + s2);
        let c = s1[0];
        if spec_is_run_digit(c) {
            let n = spec_digit_val(c);
            if idx + n <= 8 {
                lemma_rank_fold_concat(s1.drop_first(), s2, cells, idx + n);
            }
        } else {
            match BoardPiece::spec_try_from_fen_char(c) {
                None => {},
                Some(p) => {
                    if idx + 1 <= 8 {
                        lemma_rank_fold_concat(s1.drop_first(), s2, cells.update(idx, Some(p)), idx
                            + 1);
                    }
                },
            }
        }
    }
}

/// No character of a rank description is a `/` or a space.
proof fn lemma_rank_fen_chars(cells: Seq<Option<BoardPiece>>, run: int)
    requires
        0 <= run,
        run + cells.len() <= 8,
    ensures
        forall|k: int|
            0 <= k < spec_rank_fen_loop(cells, run).len() ==> #[trigger] spec_rank_fen_loop(
                cells,
                run,
            )[k] != '/' && spec_rank_fen_loop(cells, run)[k] != ' ',
    decreases cells.len(),
{
    let s = spec_rank_fen_loop(cells, run);
    if cells.len() == 0 {
        if run > 0 {
            assert(s[0] == spec_digit_char(run));
            assert(s[0] != '/' && s[0] != ' ');
        }
    } else {
        match cells[0] {
            None => {
                lemma_rank_fen_chars(cells.drop_first(), run + 1);
                let rec = spec_rank_fen_loop(cells.drop_first(), run + 1);
                assert(s == rec);
                assert forall|k: int| 0 <= k < s.len() implies s[k] != '/' && s[k] != ' ' by {
                    assert(rec[k] != '/' && rec[k] != ' ');
                }
            },
            Some(p) => {
                lemma_rank_fen_chars(cells.drop_first(), 0);
                let prefix = if run > 0 {
                    seq![spec_digit_char(run)]
                } else {
                    Seq::<char>::empty()
                };
                let letter = seq![p.spec_fen_char()];
                let tail = spec_rank_fen_loop(cells.drop_first(), 0);
                assert forall|k: int| 0 <= k < s.len() implies s[k] != '/' && s[k] != ' ' by {
                    if k < prefix.len() {
                        assert(s[k] == prefix[0]);
                    } else if k < prefix.len() + 1 {
                        assert(s[k] == p.spec_fen_char());
                    } else {
                        assert(s[k] == tail[k - prefix.len() - 1]);
                    }
                }
            },
        }
    }
}

/// Parsing the remaining description of a rank continues a parse whose
/// state agrees with the rank so far.
#[verifier::rlimit(100)]
proof fn lemma_rank_loop_round(
    cells: Seq<Option<BoardPiece>>,
    i: int,
    run: int,
    acc: Seq<Option<BoardPiece>>,
)
    requires
        cells.len() == 8,
        acc.len() == 8,
        0 <= run <= i <= 8,
        forall|j: int| i - run <= j < i ==> cells[j] is None,
        forall|j: int| 0 <= j < i - run ==> acc[j] == cells[j],
        forall|j: int| i - run <= j < 8 ==> acc[j] is None,
    ensures
        spec_rank_fold(spec_rank_fen_loop(cells.skip(i), run), acc, i - run) == Ok::<
            (Seq<Option<BoardPiece>>, int),
            ParseBoardError,
        >((cells, 8)),
    decreases 8 - i,
{
    broadcast use crate::piece::lemma_piece_fen_char_round_trip;

    let rest = cells.skip(i);
    if i == 8 {
        assert(rest =~= Seq::<Option<BoardPiece>>::empty());
        if run > 0 {
            let s = seq![spec_digit_char(run)];
            assert(spec_is_run_digit(s[0]));
            assert(spec_digit_val(s[0]) == run);
            assert(s.drop_first() =~= Seq::<char>::empty());
            assert(spec_rank_fold(s.drop_first(), acc, 8) == Ok::<
                (Seq<Option<BoardPiece>>, int),
                ParseBoardError,
            >((acc, 8)));
            assert(acc =~= cells);
        } else {
            assert(acc =~= cells);
        }
    } else {
        assert(rest[0] == cells[i]);
        assert(rest.drop_first() =~= cells.skip(i + 1));
        match cells[i] {
            None => {
                lemma_rank_loop_round(cells, i + 1, run + 1, acc);
            },
            Some(p) => {
                let prefix = if run > 0 {
                    seq![spec_digit_char(run)]
                } else {
                    Seq::<char>::empty()
                };
                let letter = seq![p.spec_fen_char()];
                let tail = spec_rank_fen_loop(cells.skip(i + 1), 0);
                assert(spec_rank_fen_loop(rest, run) == prefix + letter + tail);
                let acc2 = acc.update(i, Some(p));
                // The prefix digit advances the file index to `i`.
                if run > 0 {
                    assert(spec_is_run_digit(prefix[0]));
                    assert(spec_digit_val(prefix[0]) == run);
                    assert(prefix.drop_first() =~= Seq::<char>::empty());
                    assert(spec_rank_fold(prefix.drop_first(), acc, i) == Ok::<
                        (Seq<Option<BoardPiece>>, int),
                        ParseBoardError,
                    >((acc, i)));
                    assert(spec_rank_fold(prefix, acc, i - run) == Ok::<
                        (Seq<Option<BoardPiece>>, int),
                        ParseBoardError,
                    >((acc, i)));
                } else {
                    assert(prefix =~= Seq::<char>::empty());
                    assert(spec_rank_fold(prefix, acc, i - run) == Ok::<
                        (Seq<Option<BoardPiece>>, int),
                        ParseBoardError,
                    >((acc, i)));
                }
                // The letter writes the piece at `i`.
                assert(!spec_is_run_digit(letter[0]));
                assert(BoardPiece::spec_try_from_fen_char(letter[0]) == Some(p));
                assert(letter.drop_first() =~= Seq::<char>::empty());
                assert(spec_rank_fold(letter.drop_first(), acc2, i + 1) == Ok::<
                    (Seq<Option<BoardPiece>>, int),
                    ParseBoardError,
                >((acc2, i + 1)));
                assert(spec_rank_fold(letter, acc, i) == Ok::<
                    (Seq<Option<BoardPiece>>, int),
                    ParseBoardError,
                >((acc2, i + 1)));
                lemma_rank_loop_round(cells, i + 1, 0, acc2);
                lemma_rank_fold_concat(prefix, letter + tail, acc, i - run);
                lemma_rank_fold_concat(letter, tail, acc, i);
                assert(prefix + letter + tail =~= prefix + (letter + tail));
                assert(spec_rank_fold(spec_rank_fen_loop(rest, run), acc, i - run) == Ok::<
                    (Seq<Option<BoardPiece>>, int),
                    ParseBoardError,
                >((cells, 8)));
            },
        }
    }
}

/// Serializing one rank and parsing the text back yields the same 8 cells:
/// the rank description round-trips.
pub proof fn lemma_rank_round_trip(cells: Seq<Option<BoardPiece>>)
    requires
        cells.len() == 8,
    ensures
        spec_parse_rank(spec_rank_fen(cells)) == Ok::<Seq<Option<BoardPiece>>, ParseBoardError>(
            cells,
        ),
{
    let acc = Seq::new(8, |j: int| None::<BoardPiece>);
    assert(cells.skip(0) =~= cells);
    lemma_rank_loop_round(cells, 0, 0, acc);
}

/// Splitting the description of ranks `rank` down to 0 yields the ranks'
/// own descriptions, top first.
proof fn lemma_board_fen_split(b: Seq<Option<BoardPiece>>, rank: int)
    requires
        b.len() == 64,
        0 <= rank <= 7,
    ensures
        spec_split(spec_board_fen_ranks(b, rank), '/') =~~= Seq::new(
            (rank + 1) as nat,
            |k: int| spec_rank_fen(b.subrange(8 * (rank - k), 8 * (rank - k) + 8)),
        ),
    decreases rank,
{
    let rank_text = spec_rank_fen(b.subrange(8 * rank, 8 * rank + 8));
    lemma_rank_fen_chars(b.subrange(8 * rank, 8 * rank + 8), 0);
    if rank == 0 {
        assert(spec_board_fen_ranks(b, -1) =~= Seq::<char>::empty());
        assert(spec_board_fen_ranks(b, 0) =~= rank_text);
        crate::fen_text::lemma_split_single(rank_text, '/');
    } else {
        lemma_board_fen_split(b, rank - 1);
        let rest = spec_board_fen_ranks(b, rank - 1);
        assert(spec_board_fen_ranks(b, rank) =~= rank_text + seq!['/'] + rest);
        crate::fen_text::lemma_split_join(rank_text, rest, '/');
    }
}

/// No character of a board field is a space.
pub proof fn lemma_board_fen_no_space(b: Seq<Option<BoardPiece>>, rank: int)
    requires
        b.len() == 64,
        -1 <= rank <= 7,
    ensures
        forall|k: int|
            0 <= k < spec_board_fen_ranks(b, rank).len() ==> #[trigger] spec_board_fen_ranks(
                b,
                rank,
            )[k] != ' ',
    decreases rank + 1,
{
    if rank >= 0 {
        lemma_board_fen_no_space(b, rank - 1);
        lemma_rank_fen_chars(b.subrange(8 * rank, 8 * rank + 8), 0);
        let s = spec_board_fen_ranks(b, rank);
        let rank_text = spec_rank_fen(b.subrange(8 * rank, 8 * rank + 8));
        let sep = if rank > 0 {
            seq!['/']
        } else {
            Seq::<char>::empty()
        };
        let rest = spec_board_fen_ranks(b, rank - 1);
        assert forall|k: int| 0 <= k < s.len() implies s[k] != ' ' by {
            if k < rank_text.len() {
                assert(s[k] == rank_text[k]);
            } else if k < rank_text.len() + sep.len() {
                assert(s[k] == '/');
            } else {
                assert(s[k] == rest[k - rank_text.len() - sep.len()]);
            }
        }
    }
}

/// Parsing rank descriptions that came from `b` itself rebuilds `b`.
proof fn lemma_board_ranks_round(
    b: Seq<Option<BoardPiece>>,
    parts: Seq<Seq<char>>,
    acc: Seq<Option<BoardPiece>>,
    rank: int,
)
    requires
        b.len() == 64,
        acc.len() == 64,
        parts.len() == 8,
        forall|r: int|
            0 <= r <= 7 ==> parts[7 - r] == spec_rank_fen(#[trigger] b.subrange(8 * r, 8 * r + 8)),
        -1 <= rank <= 7,
        forall|i: int| 8 * (rank + 1) <= i < 64 ==> acc[i] == b[i],
    ensures
        spec_board_ranks(parts, acc, rank) == Ok::<Seq<Option<BoardPiece>>, ParseBoardError>(b),
    decreases rank + 1,
{
    if rank < 0 {
        assert(acc =~= b);
    } else {
        let sub = b.subrange(8 * rank, 8 * rank + 8);
        lemma_rank_round_trip(sub);
        assert(parts[7 - rank] == spec_rank_fen(sub));
        let acc2 = spec_set_rank(acc, rank, sub);
        assert(forall|i: int| 8 * rank <= i < 64 ==> acc2[i] == b[i]);
        lemma_board_ranks_round(b, parts, acc2, rank - 1);
    }
}

/// Serializing a board and parsing the text back yields the same board: the
/// board field round-trips.
pub proof fn lemma_board_round_trip(b: Seq<Option<BoardPiece>>)
    requires
        b.len() == 64,
    ensures
        spec_parse_board(spec_board_fen(b)) == Ok::<Seq<Option<BoardPiece>>, ParseBoardError>(b),
{
    lemma_board_fen_split(b, 7);
    let parts = spec_split(spec_board_fen(b), '/');
    assert forall|r: int| 0 <= r <= 7 implies parts[7 - r] == spec_rank_fen(
        #[trigger] b.subrange(8 * r, 8 * r + 8),
    ) by {
        assert(parts[7 - r] == spec_rank_fen(b.subrange(8 * (7 - (7 - r)), 8 * (7 - (7 - r)) + 8)));
    }
    lemma_board_ranks_round(b, parts, Seq::new(64, |i: int| None::<BoardPiece>), 7);
}

/// The byte drawn for a square's occupant: 0 for an empty square, the
/// ASCII code of the piece's letter otherwise.
pub open spec fn spec_visual_byte(o: Option<BoardPiece>) -> u8 {
    match o {
        None => 0,
        Some(p) => match p {
            BoardPiece::WhitePawn => 80,
            BoardPiece::WhiteRook => 82,
            BoardPiece::WhiteKnight => 78,
            BoardPiece::WhiteBishop => 66,
            BoardPiece::WhiteQueen => 81,
            BoardPiece::WhiteKing => 75,
            BoardPiece::BlackPawn => 112,
            BoardPiece::BlackRook => 114,
            BoardPiece::BlackKnight => 110,
            BoardPiece::BlackBishop => 98,
            BoardPiece::BlackQueen => 113,
            BoardPiece::BlackKing => 107,
        },
    }
}

/// The character drawn for a visual cell's byte: a space for an empty
/// square, the piece's letter otherwise.
pub open spec fn spec_visual_char(b: u8) -> char {
    if b == 80 {
        'P'
    } else if b == 82 {
        'R'
    } else if b == 78 {
        'N'
    } else if b == 66 {
        'B'
    } else if b == 81 {
        'Q'
    } else if b == 75 {
        'K'
    } else if b == 112 {
        'p'
    } else if b == 114 {
        'r'
    } else if b == 110 {
        'n'
    } else if b == 98 {
        'b'
    } else if b == 113 {
        'q'
    } else if b == 107 {
        'k'
    } else {
        ' '
    }
}

/// One row of the visual grid: the rank number, the 8 cells between bars,
/// and the rank number again.
pub open spec fn spec_visual_row(v: Seq<u8>, rank: int) -> Seq<char> {
    seq![spec_digit_char(rank + 1), ' ', ' ', '|'] + Seq::new(
        8,
        |f: int| spec_visual_char(v[8 * rank + f]),
    ) + seq!['|', ' ', ' ', spec_digit_char(rank + 1), '\n']
}

/// The rows of the visual grid from `rank` down to rank 0.
pub open spec fn spec_visual_rows(v: Seq<u8>, rank: int) -> Seq<char>
    decreases rank + 1,
{
    if rank < 0 {
        Seq::<char>::empty()
    } else {
        spec_visual_row(v, rank) + spec_visual_rows(v, rank - 1)
    }
}

/// The whole visual grid: column letters and a frame around the 8 rows.
pub open spec fn spec_visual(v: Seq<u8>) -> Seq<char> {
    "    ABCDEFGH\n   +--------+\n"@ + spec_visual_rows(v, 7) + "   +--------+\n    ABCDEFGH\n"@
}

impl Board {
    /// The byte drawn for `o` in a visual grid.
    fn visual_byte(o: Option<BoardPiece>) -> (r: u8)
        ensures
            r == spec_visual_byte(o),
    {
        match o {
            None => 0,
            Some(p) => match p {
                BoardPiece::WhitePawn => 80,
                BoardPiece::WhiteRook => 82,
                BoardPiece::WhiteKnight => 78,
                BoardPiece::WhiteBishop => 66,
                BoardPiece::WhiteQueen => 81,
                BoardPiece::WhiteKing => 75,
                BoardPiece::BlackPawn => 112,
                BoardPiece::BlackRook => 114,
                BoardPiece::BlackKnight => 110,
                BoardPiece::BlackBishop => 98,
                BoardPiece::BlackQueen => 113,
                BoardPiece::BlackKing => 107,
            },
        }
    }

    /// A drawable copy of the board: one byte per square.
    pub fn to_visual(&self) -> (r: BoardVisual)
        ensures
            r.0@.len() == 64,
            forall|i: int| 0 <= i < 64 ==> r.0@[i] == spec_visual_byte(self@[i]),
    {
        let mut buf: [u8; 64] = [0;64];
        let mut i: u8 = 0;
        while i < 64
            invariant
                i <= 64,
                buf@.len() == 64,
                forall|j: int| 0 <= j < i ==> buf@[j] == spec_visual_byte(self@[j]),
            decreases 64 - i,
        {
            let b = Self::visual_byte(self.get_piece_at(BoardIndex::new_unchecked(i)));
            buf[i as usize] = b;
            i = i + 1;
        }
        BoardVisual(buf)
    }
}

/// A drawable copy of a board: one byte per square, 0 for empty.
pub struct BoardVisual(pub [u8; 64]);

impl BoardVisual {
    /// The character drawn for the byte of square `i`.
    fn cell_char(b: u8) -> (c: char)
        ensures
            c == spec_visual_char(b),
    {
        match b {
            80 => 'P',
            82 => 'R',
            78 => 'N',
            66 => 'B',
            81 => 'Q',
            75 => 'K',
            112 => 'p',
            114 => 'r',
            110 => 'n',
            98 => 'b',
            113 => 'q',
            107 => 'k',
            _ => ' ',
        }
    }

    /// The human-readable grid: rank 8 at the top, column letters and a
    /// frame around the cells.
    pub fn render(&self) -> (r: String)
        ensures
            r@ == spec_visual(self.0@),
    {
        let header = "    ABCDEFGH\n   +--------+\n";
        let footer = "   +--------+\n    ABCDEFGH\n";
        let mut out: Vec<char> = Vec::new();
        push_str_chars(header, &mut out);
        let mut rank_plus1: u8 = 8;
        while rank_plus1 > 0
            invariant
                rank_plus1 <= 8,
                self.0@.len() == 64,
                out@ + spec_visual_rows(self.0@, rank_plus1 as int - 1) + footer@ == spec_visual(
                    self.0@,
                ),
            decreases rank_plus1,
        {
            let rank = rank_plus1 - 1;
            out.push(digit_to_char(rank as u32 + 1));
            out.push(' ');
            out.push(' ');
            out.push('|');
            let mut f: u8 = 0;
            while f < 8
                invariant
                    f <= 8,
                    rank < 8,
                    self.0@.len() == 64,
                    out@ + Seq::new(
                        (8 - f) as nat,
                        |k: int| spec_visual_char(self.0@[8 * rank as int + f as int + k]),
                    ) + seq!['|', ' ', ' ', spec_digit_char(rank as int + 1), '\n']
                        + spec_visual_rows(self.0@, rank as int - 1) + footer@ == spec_visual(
                        self.0@,
                    ),
                decreases 8 - f,
            {
                let idx = (rank as usize) * 8 + f as usize;
                let ghost pre = out@;
                out.push(Self::cell_char(self.0[idx]));
                proof {
                    assert(out@ =~= pre.push(spec_visual_char(self.0@[8 * rank as int + f as int])));
                    assert(Seq::new(
                        (8 - f) as nat,
                        |k: int| spec_visual_char(self.0@[8 * rank as int + f as int + k]),
                    ) =~= seq![spec_visual_char(self.0@[8 * rank as int + f as int])] + Seq::new(
                        (8 - (f + 1)) as nat,
                        |k: int| spec_visual_char(self.0@[8 * rank as int + f as int + 1 + k]),
                    ));
                }
                f = f + 1;
            }
            out.push('|');
            out.push(' ');
            out.push(' ');
            out.push(digit_to_char(rank as u32 + 1));
            out.push('\n');
            proof {
                assert(Seq::new(
                    0nat,
                    |k: int| spec_visual_char(self.0@[8 * rank as int + 8 + k]),
                ) =~= Seq::<char>::empty());
                assert(spec_visual_row(self.0@, rank as int) =~= seq![
                    spec_digit_char(rank as int + 1),
                    ' ',
                    ' ',
                    '|',
                ] + Seq::new(8, |k: int| spec_visual_char(self.0@[8 * rank as int + k])) + seq![
                    '|',
                    ' ',
                    ' ',
                    spec_digit_char(rank as int + 1),
                    '\n',
                ]);
            }
            rank_plus1 = rank;
        }
        push_str_chars(footer, &mut out);
        proof {
            assert(spec_visual_rows(self.0@, -1) =~= Seq::<char>::empty());
            assert(out@ =~= spec_visual(self.0@));
        }
        chars_to_string(&out)
    }
}

/// Why a board field failed to parse.
#[derive(Debug, Copy, Clone, PartialEq, Eq, Hash, Structural)]
pub enum ParseBoardError {
    /// The 0-based rank that the board field has no description for.
    MissingRank(u8),
    /// A rank whose files summed to fewer than 8; carries the sum reached.
    MissingFilesInFEN(u8),
    /// A rank whose files summed to more than 8; carries the sum that the
    /// offending run or piece would have reached.
    TooManyFilesInFEN(u8),
    /// A character that is neither a piece letter nor an empty-run digit.
    InvalidFENPieceChar(char),
}

} // verus!
