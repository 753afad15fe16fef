//! Piece model: color, kind, the packed nibble tag of a piece, the
//! piece-letter notation, and per-piece pseudo-legal move generation.

use vstd::prelude::*;

use crate::board::Board;
use crate::board_position::{BoardIndex, BoardIndexDelta};
use crate::castle_rights::CastleRights;
use crate::en_passant_target::EnPassantTarget;
use crate::move_rules::{
    castle_move_ok, dir_mul, en_passant_move_ok, leap_move_ok, lemma_king_decomp,
    lemma_knight_decomp, lemma_ray_witness, lemma_sq_at_coords, on_board, pawn_simple_move,
    piece_move_ok, ray_move_ok, ray_move_ok_within, ray_square, sq_at, sq_col, sq_row,
};
use crate::piece_move::Move;
use vstd::seq_lib::lemma_seq_contains_after_push;

verus! {

#[derive(Copy, Clone, Debug, Hash, Eq, PartialEq, Structural)]
pub enum BoardPieceKind {
    Pawn,
    Rook,
    Knight,
    Bishop,
    Queen,
    King,
}

impl BoardPieceKind {
    /// The numeric tag of this kind, between 1 and 6.
    pub open spec fn spec_value(self) -> int {
        match self {
            BoardPieceKind::Pawn => 1,
            BoardPieceKind::Rook => 2,
            BoardPieceKind::Knight => 3,
            BoardPieceKind::Bishop => 4,
            BoardPieceKind::Queen => 5,
            BoardPieceKind::King => 6,
        }
    }

    pub fn of_color(self, color: PieceColor) -> (r: BoardPiece)
        ensures
            r == BoardPiece::spec_new(self, color),
    {
        match (self, color) {
            (Self::Pawn, PieceColor::White) => BoardPiece::WhitePawn,
            (Self::Rook, PieceColor::White) => BoardPiece::WhiteRook,
            (Self::Knight, PieceColor::White) => BoardPiece::WhiteKnight,
            (Self::Bishop, PieceColor::White) => BoardPiece::WhiteBishop,
            (Self::Queen, PieceColor::White) => BoardPiece::WhiteQueen,
            (Self::King, PieceColor::White) => BoardPiece::WhiteKing,
            (Self::Pawn, PieceColor::Black) => BoardPiece::BlackPawn,
            (Self::Rook, PieceColor::Black) => BoardPiece::BlackRook,
            (Self::Knight, PieceColor::Black) => BoardPiece::BlackKnight,
            (Self::Bishop, PieceColor::Black) => BoardPiece::BlackBishop,
            (Self::Queen, PieceColor::Black) => BoardPiece::BlackQueen,
            (Self::King, PieceColor::Black) => BoardPiece::BlackKing,
        }
    }
}

#[derive(Copy, Clone, Debug, Hash, Eq, PartialEq, Structural)]
pub enum PieceColor {
    White,
    Black,
}

impl PieceColor {
    pub open spec fn spec_other(self) -> PieceColor {
        match self {
            PieceColor::White => PieceColor::Black,
            PieceColor::Black => PieceColor::White,
        }
    }

    pub fn other(self) -> (r: Self)
        ensures
            r == self.spec_other(),
    {
        match self {
            Self::Black => Self::White,
            Self::White => Self::Black,
        }
    }

    pub fn king_of_color(self) -> (r: BoardPiece)
        ensures
            r == BoardPiece::spec_new(BoardPieceKind::King, self),
    {
        match self {
            PieceColor::White => BoardPiece::WhiteKing,
            PieceColor::Black => BoardPiece::BlackKing,
        }
    }
}

/// A colored piece. Its numeric tag is `kind + 8 * color`, so white pieces
/// are tagged 1 through 6 and black pieces 9 through 14.
#[derive(Copy, Clone, Debug, Hash, Eq, PartialEq, Structural)]
pub enum BoardPiece {
    WhitePawn,
    WhiteRook,
    WhiteKnight,
    WhiteBishop,
    WhiteQueen,
    WhiteKing,
    BlackPawn,
    BlackRook,
    BlackKnight,
    BlackBishop,
    BlackQueen,
    BlackKing,
}

impl BoardPiece {
    pub open spec fn spec_kind(self) -> BoardPieceKind {
        match self {
            BoardPiece::WhitePawn | BoardPiece::BlackPawn => BoardPieceKind::Pawn,
            BoardPiece::WhiteRook | BoardPiece::BlackRook => BoardPieceKind::Rook,
            BoardPiece::WhiteKnight | BoardPiece::BlackKnight => BoardPieceKind::Knight,
            BoardPiece::WhiteBishop | BoardPiece::BlackBishop => BoardPieceKind::Bishop,
            BoardPiece::WhiteQueen | BoardPiece::BlackQueen => BoardPieceKind::Queen,
            BoardPiece::WhiteKing | BoardPiece::BlackKing => BoardPieceKind::King,
        }
    }

    pub open spec fn spec_color(self) -> PieceColor {
        match self {
            BoardPiece::WhitePawn
            | BoardPiece::WhiteRook
            | BoardPiece::WhiteKnight
            | BoardPiece::WhiteBishop
            | BoardPiece::WhiteQueen
            | BoardPiece::WhiteKing => PieceColor::White,
            _ => PieceColor::Black,
        }
    }

    pub open spec fn spec_new(kind: BoardPieceKind, color: PieceColor) -> BoardPiece {
        match (kind, color) {
            (BoardPieceKind::Pawn, PieceColor::White) => BoardPiece::WhitePawn,
            (BoardPieceKind::Rook, PieceColor::White) => BoardPiece::WhiteRook,
            (BoardPieceKind::Knight, PieceColor::White) => BoardPiece::WhiteKnight,
            (BoardPieceKind::Bishop, PieceColor::White) => BoardPiece::WhiteBishop,
            (BoardPieceKind::Queen, PieceColor::White) => BoardPiece::WhiteQueen,
            (BoardPieceKind::King, PieceColor::White) => BoardPiece::WhiteKing,
            (BoardPieceKind::Pawn, PieceColor::Black) => BoardPiece::BlackPawn,
            (BoardPieceKind::Rook, PieceColor::Black) => BoardPiece::BlackRook,
            (BoardPieceKind::Knight, PieceColor::Black) => BoardPiece::BlackKnight,
            (BoardPieceKind::Bishop, PieceColor::Black) => BoardPiece::BlackBishop,
            (BoardPieceKind::Queen, PieceColor::Black) => BoardPiece::BlackQueen,
            (BoardPieceKind::King, PieceColor::Black) => BoardPiece::BlackKing,
        }
    }

    /// The packed 4-bit tag of this piece: `kind + 8 * color`.
    pub open spec fn spec_repr(self) -> int {
        self.spec_kind().spec_value() + if self.spec_color() is Black {
            8int
        } else {
            0int
        }
    }

    /// The total decoding of a 4-bit pattern: 0 and the two patterns 7, 8
    /// and 15 that no piece uses decode to nothing.
    pub open spec fn spec_from_repr(r: int) -> Option<BoardPiece> {
        if r == 1 {
            Some(BoardPiece::WhitePawn)
        } else if r == 2 {
            Some(BoardPiece::WhiteRook)
        } else if r == 3 {
            Some(BoardPiece::WhiteKnight)
        } else if r == 4 {
            Some(BoardPiece::WhiteBishop)
        } else if r == 5 {
            Some(BoardPiece::WhiteQueen)
        } else if r == 6 {
            Some(BoardPiece::WhiteKing)
        } else if r == 9 {
            Some(BoardPiece::BlackPawn)
        } else if r == 10 {
            Some(BoardPiece::BlackRook)
        } else if r == 11 {
            Some(BoardPiece::BlackKnight)
        } else if r == 12 {
            Some(BoardPiece::BlackBishop)
        } else if r == 13 {
            Some(BoardPiece::BlackQueen)
        } else if r == 14 {
            Some(BoardPiece::BlackKing)
        } else {
            None
        }
    }

    pub open spec fn spec_fen_char(self) -> char {
        match self {
            BoardPiece::WhitePawn => 'P',
            BoardPiece::WhiteRook => 'R',
            BoardPiece::WhiteKnight => 'N',
            BoardPiece::WhiteBishop => 'B',
            BoardPiece::WhiteQueen => 'Q',
            BoardPiece::WhiteKing => 'K',
            BoardPiece::BlackPawn => 'p',
            BoardPiece::BlackRook => 'r',
            BoardPiece::BlackKnight => 'n',
            BoardPiece::BlackBishop => 'b',
            BoardPiece::BlackQueen => 'q',
            BoardPiece::BlackKing => 'k',
        }
    }

    pub open spec fn spec_try_from_fen_char(c: char) -> Option<BoardPiece> {
        if c == 'P' {
            Some(BoardPiece::WhitePawn)
        } else if c == 'R' {
            Some(BoardPiece::WhiteRook)
        } else if c == 'N' {
            Some(BoardPiece::WhiteKnight)
        } else if c == 'B' {
            Some(BoardPiece::WhiteBishop)
        } else if c == 'Q' {
            Some(BoardPiece::WhiteQueen)
        } else if c == 'K' {
            Some(BoardPiece::WhiteKing)
        } else if c == 'p' {
            Some(BoardPiece::BlackPawn)
        } else if c == 'r' {
            Some(BoardPiece::BlackRook)
        } else if c == 'n' {
            Some(BoardPiece::BlackKnight)
        } else if c == 'b' {
            Some(BoardPiece::BlackBishop)
        } else if c == 'q' {
            Some(BoardPiece::BlackQueen)
        } else if c == 'k' {
            Some(BoardPiece::BlackKing)
        } else {
            None
        }
    }

    /// The decoded piece of a nonzero packed tag, if the tag is in the
    /// mapping's domain.
    pub(crate) fn from_repr(r: u8) -> (p: Option<Self>)
        ensures
            p == Self::spec_from_repr(r as int),
    {
        match r {
            1 => Some(BoardPiece::WhitePawn),
            2 => Some(BoardPiece::WhiteRook),
            3 => Some(BoardPiece::WhiteKnight),
            4 => Some(BoardPiece::WhiteBishop),
            5 => Some(BoardPiece::WhiteQueen),
            6 => Some(BoardPiece::WhiteKing),
            9 => Some(BoardPiece::BlackPawn),
            10 => Some(BoardPiece::BlackRook),
            11 => Some(BoardPiece::BlackKnight),
            12 => Some(BoardPiece::BlackBishop),
            13 => Some(BoardPiece::BlackQueen),
            14 => Some(BoardPiece::BlackKing),
            _ => None,
        }
    }

    /// The packed 4-bit tag of this piece.
    pub(crate) fn repr(self) -> (r: u8)
        ensures
            r as int == self.spec_repr(),
            1 <= r <= 14,
            r != 7 && r != 8,
    {
        match self {
            BoardPiece::WhitePawn => 1,
            BoardPiece::WhiteRook => 2,
            BoardPiece::WhiteKnight => 3,
            BoardPiece::WhiteBishop => 4,
            BoardPiece::WhiteQueen => 5,
            BoardPiece::WhiteKing => 6,
            BoardPiece::BlackPawn => 9,
            BoardPiece::BlackRook => 10,
            BoardPiece::BlackKnight => 11,
            BoardPiece::BlackBishop => 12,
            BoardPiece::BlackQueen => 13,
            BoardPiece::BlackKing => 14,
        }
    }

    pub fn new(kind: BoardPieceKind, color: PieceColor) -> (r: Self)
        ensures
            r == Self::spec_new(kind, color),
    {
        kind.of_color(color)
    }

    pub fn to_fen_char(self) -> (c: char)
        ensures
            c == self.spec_fen_char(),
    {
        match self {
            BoardPiece::WhitePawn => 'P',
            BoardPiece::WhiteRook => 'R',
            BoardPiece::WhiteKnight => 'N',
            BoardPiece::WhiteBishop => 'B',
            BoardPiece::WhiteQueen => 'Q',
            BoardPiece::WhiteKing => 'K',
            BoardPiece::BlackPawn => 'p',
            BoardPiece::BlackRook => 'r',
            BoardPiece::BlackKnight => 'n',
            BoardPiece::BlackBishop => 'b',
            BoardPiece::BlackQueen => 'q',
            BoardPiece::BlackKing => 'k',
        }
    }

    pub fn try_from_fen_char(c: char) -> (r: Option<Self>)
        ensures
            r == Self::spec_try_from_fen_char(c),
    {
        match c {
            'P' => Some(BoardPiece::WhitePawn),
            'R' => Some(BoardPiece::WhiteRook),
            'N' => Some(BoardPiece::WhiteKnight),
            'B' => Some(BoardPiece::WhiteBishop),
            'Q' => Some(BoardPiece::WhiteQueen),
            'K' => Some(BoardPiece::WhiteKing),
            'p' => Some(BoardPiece::BlackPawn),
            'r' => Some(BoardPiece::BlackRook),
            'n' => Some(BoardPiece::BlackKnight),
            'b' => Some(BoardPiece::BlackBishop),
            'q' => Some(BoardPiece::BlackQueen),
            'k' => Some(BoardPiece::BlackKing),
            _ => None,
        }
    }

    pub fn from_fen_char(c: char) -> (r: Self)
        requires
            Self::spec_try_from_fen_char(c) is Some,
        ensures
            Some(r) == Self::spec_try_from_fen_char(c),
    {
        Self::try_from_fen_char(c).unwrap()
    }

    pub fn kind(self) -> (r: BoardPieceKind)
        ensures
            r == self.spec_kind(),
    {
        self.split().0
    }

    pub fn color(self) -> (r: PieceColor)
        ensures
            r == self.spec_color(),
    {
        self.split().1
    }

    /// Every pseudo-legal move of this piece as if it stood on `position`:
    /// consistent with its movement geometry and the board's occupancy,
    /// without regard to the mover's own king.
    pub fn moves_on_board(
        &self,
        position: BoardIndex,
        b: &Board,
        en_passant_target: Option<EnPassantTarget>,
        castle_rights: CastleRights,
    ) -> (r: Vec<Move>)
        requires
            position.wf(),
        ensures
            forall|m: Move|
                r@.contains(m) <==> piece_move_ok(
                    b@,
                    *self,
                    position@,
                    en_passant_target,
                    castle_rights,
                    m,
                ),
    {
        broadcast use lemma_sq_at_coords;

        let mut moves: Vec<Move> = Vec::new();
        let self_color = self.color();
        match self.kind() {
            BoardPieceKind::Pawn => {
                pawn_moves(b, position, self_color, en_passant_target, &mut moves);
            },
            BoardPieceKind::Rook => {
                slide_dir(b, position, self_color, -1, 0, &mut moves);
                slide_dir(b, position, self_color, 1, 0, &mut moves);
                slide_dir(b, position, self_color, 0, -1, &mut moves);
                slide_dir(b, position, self_color, 0, 1, &mut moves);
            },
            BoardPieceKind::Knight => {
                leap_one(b, position, self_color, -2, -1, &mut moves);
                leap_one(b, position, self_color, -2, 1, &mut moves);
                leap_one(b, position, self_color, -1, -2, &mut moves);
                leap_one(b, position, self_color, -1, 2, &mut moves);
                leap_one(b, position, self_color, 1, -2, &mut moves);
                leap_one(b, position, self_color, 1, 2, &mut moves);
                leap_one(b, position, self_color, 2, -1, &mut moves);
                leap_one(b, position, self_color, 2, 1, &mut moves);
            },
            BoardPieceKind::Bishop => {
                slide_dir(b, position, self_color, -1, -1, &mut moves);
                slide_dir(b, position, self_color, -1, 1, &mut moves);
                slide_dir(b, position, self_color, 1, -1, &mut moves);
                slide_dir(b, position, self_color, 1, 1, &mut moves);
            },
            BoardPieceKind::Queen => {
                slide_dir(b, position, self_color, -1, 0, &mut moves);
                slide_dir(b, position, self_color, 1, 0, &mut moves);
                slide_dir(b, position, self_color, 0, -1, &mut moves);
                slide_dir(b, position, self_color, 0, 1, &mut moves);
                slide_dir(b, position, self_color, -1, -1, &mut moves);
                slide_dir(b, position, self_color, -1, 1, &mut moves);
                slide_dir(b, position, self_color, 1, -1, &mut moves);
                slide_dir(b, position, self_color, 1, 1, &mut moves);
            },
            BoardPieceKind::King => {
                leap_one(b, position, self_color, -1, -1, &mut moves);
                leap_one(b, position, self_color, -1, 0, &mut moves);
                leap_one(b, position, self_color, -1, 1, &mut moves);
                leap_one(b, position, self_color, 0, -1, &mut moves);
                leap_one(b, position, self_color, 0, 1, &mut moves);
                leap_one(b, position, self_color, 1, -1, &mut moves);
                leap_one(b, position, self_color, 1, 0, &mut moves);
                leap_one(b, position, self_color, 1, 1, &mut moves);
                castle_moves(b, position, self_color, castle_rights, &mut moves);
            },
        }
        proof {
            assert forall|m: Move|
                moves@.contains(m) <==> piece_move_ok(
                    b@,
                    *self,
                    position@,
                    en_passant_target,
                    castle_rights,
                    m,
                ) by {
                match m {
                    Move::Simple(a, t) => {
                        if 0 <= t@ < 64 {
                            if self.spec_kind() is Knight {
                                lemma_knight_decomp(b@, self_color, position@, t@);
                            } else if self.spec_kind() is King {
                                lemma_king_decomp(b@, self_color, position@, t@);
                            }
                        }
                    },
                    Move::EnPassant { .. } => {},
                    Move::Castle { .. } => {},
                }
            }
        }
        moves
    }

    pub fn split(self) -> (r: (BoardPieceKind, PieceColor))
        ensures
            r.0 == self.spec_kind(),
            r.1 == self.spec_color(),
    {
        match self {
            BoardPiece::WhitePawn => (BoardPieceKind::Pawn, PieceColor::White),
            BoardPiece::BlackPawn => (BoardPieceKind::Pawn, PieceColor::Black),
            BoardPiece::WhiteRook => (BoardPieceKind::Rook, PieceColor::White),
            BoardPiece::BlackRook => (BoardPieceKind::Rook, PieceColor::Black),
            BoardPiece::WhiteKnight => (BoardPieceKind::Knight, PieceColor::White),
            BoardPiece::BlackKnight => (BoardPieceKind::Knight, PieceColor::Black),
            BoardPiece::WhiteBishop => (BoardPieceKind::Bishop, PieceColor::White),
            BoardPiece::BlackBishop => (BoardPieceKind::Bishop, PieceColor::Black),
            BoardPiece::WhiteQueen => (BoardPieceKind::Queen, PieceColor::White),
            BoardPiece::BlackQueen => (BoardPieceKind::Queen, PieceColor::Black),
            BoardPiece::WhiteKing => (BoardPieceKind::King, PieceColor::White),
            BoardPiece::BlackKing => (BoardPieceKind::King, PieceColor::Black),
        }
    }
}

/// A simple sliding move of `c` from `pos` along `(dr, dc)`.
spec fn slide_pred(
    b: Seq<Option<BoardPiece>>,
    c: PieceColor,
    pos: BoardIndex,
    dr: int,
    dc: int,
    m: Move,
) -> bool {
    m matches Move::Simple(a, t) && a == pos && ray_move_ok(b, c, pos@, t@, dr, dc)
}

/// A simple leaping move of `c` from `pos` by offset `(dr, dc)`.
spec fn leap_pred(
    b: Seq<Option<BoardPiece>>,
    c: PieceColor,
    pos: BoardIndex,
    dr: int,
    dc: int,
    m: Move,
) -> bool {
    m matches Move::Simple(a, t) && a == pos && leap_move_ok(b, c, pos@, t@, dr, dc)
}

/// Appends every sliding move of a piece of `self_color` standing on
/// `position`, along the single direction `(dr, dc)`.
#[verifier::loop_isolation(false)]
#[verifier::rlimit(50)]
fn slide_dir(
    b: &Board,
    position: BoardIndex,
    self_color: PieceColor,
    dr: i8,
    dc: i8,
    moves: &mut Vec<Move>,
)
    requires
        position.wf(),
        -1 <= dr <= 1,
        -1 <= dc <= 1,
        !(dr == 0 && dc == 0),
    ensures
        forall|m: Move|
            final(moves)@.contains(m) <==> old(moves)@.contains(m) || slide_pred(
                b@,
                self_color,
                position,
                dr as int,
                dc as int,
                m,
            ),
{
    broadcast use lemma_seq_contains_after_push, lemma_sq_at_coords;

    let delta = BoardIndexDelta::new(dr, dc);
    let mut cur = position;
    let mut k: u8 = 0;
    let mut stopped = false;
    while !stopped && k < 7
        invariant
            position.wf(),
            cur.wf(),
            -1 <= dr <= 1,
            -1 <= dc <= 1,
            !(dr == 0 && dc == 0),
            delta.delta_rank == dr,
            delta.delta_file == dc,
            k <= 7,
            !stopped ==> sq_row(cur@) == sq_row(position@) + dir_mul(dr as int, k as int),
            !stopped ==> sq_col(cur@) == sq_col(position@) + dir_mul(dc as int, k as int),
            !stopped ==> (forall|j: int|
                1 <= j <= k as int ==> b@[ray_square(position@, dr as int, dc as int, j)] is None),
            forall|m: Move|
                moves@.contains(m) ==> old(moves)@.contains(m) || slide_pred(
                    b@,
                    self_color,
                    position,
                    dr as int,
                    dc as int,
                    m,
                ),
            forall|m: Move| old(moves)@.contains(m) ==> moves@.contains(m),
            !stopped ==> (forall|m: Move|
                (m matches Move::Simple(a, t) && a == position && ray_move_ok_within(
                    b@,
                    self_color,
                    position@,
                    t@,
                    dr as int,
                    dc as int,
                    k as int,
                )) ==> moves@.contains(m)),
            stopped ==> (forall|m: Move|
                slide_pred(b@, self_color, position, dr as int, dc as int, m)
                    ==> moves@.contains(m)),
        decreases 7 - k as int + if stopped {
            0int
        } else {
            1int
        },
    {
        match cur.checked_add(delta) {
            None => {
                proof {
                    assert forall|m: Move|
                        slide_pred(
                            b@,
                            self_color,
                            position,
                            dr as int,
                            dc as int,
                            m,
                        ) implies moves@.contains(m) by {
                        let t = m->Simple_1;
                        let kk = lemma_ray_witness(
                            b@,
                            self_color,
                            position@,
                            t@,
                            dr as int,
                            dc as int,
                            7,
                        );
                        if kk > k as int {
                            assert(dir_mul(dr as int, kk) == dir_mul(dr as int, k as int)
                                + dir_mul(dr as int, kk - k as int));
                            assert(false);
                        } else {
                            assert(ray_move_ok_within(
                                b@,
                                self_color,
                                position@,
                                t@,
                                dr as int,
                                dc as int,
                                k as int,
                            ));
                        }
                    }
                }
                stopped = true;
            },
            Some(next) => {
                proof {
                    assert(dir_mul(dr as int, k as int + 1) == dir_mul(dr as int, k as int)
                        + dir_mul(dr as int, 1));
                    assert(dir_mul(dc as int, k as int + 1) == dir_mul(dc as int, k as int)
                        + dir_mul(dc as int, 1));
                    assert(next@ == ray_square(position@, dr as int, dc as int, k as int + 1));
                    assert(on_board(
                        sq_row(position@) + dir_mul(dr as int, k as int + 1),
                        sq_col(position@) + dir_mul(dc as int, k as int + 1),
                    ));
                }
                match b.get_piece_at(next) {
                    None => {
                        let ghost pre = moves@;
                        moves.push(Move::Simple(position, next));
                        proof {
                            assert(moves@ == pre.push(Move::Simple(position, next)));
                            assert(ray_move_ok_within(
                                b@,
                                self_color,
                                position@,
                                next@,
                                dr as int,
                                dc as int,
                                k as int + 1,
                            ));
                            assert forall|m: Move|
                                (m matches Move::Simple(a, t) && a == position
                                    && ray_move_ok_within(
                                    b@,
                                    self_color,
                                    position@,
                                    t@,
                                    dr as int,
                                    dc as int,
                                    k as int + 1,
                                )) implies moves@.contains(m) by {
                                let t = m->Simple_1;
                                let kk = lemma_ray_witness(
                                    b@,
                                    self_color,
                                    position@,
                                    t@,
                                    dr as int,
                                    dc as int,
                                    k as int + 1,
                                );
                                if kk <= k as int {
                                    assert(ray_move_ok_within(
                                        b@,
                                        self_color,
                                        position@,
                                        t@,
                                        dr as int,
                                        dc as int,
                                        k as int,
                                    ));
                                    assert(pre.contains(m));
                                } else {
                                    assert(t@ == next@);
                                    assert(t == next);
                                    assert(moves@.last() == m);
                                }
                            }
                        }
                        cur = next;
                        k = k + 1;
                    },
                    Some(p) => {
                        let ghost pre = moves@;
                        if p.color() != self_color {
                            moves.push(Move::Simple(position, next));
                        }
                        proof {
                            assert forall|m: Move|
                                slide_pred(
                                    b@,
                                    self_color,
                                    position,
                                    dr as int,
                                    dc as int,
                                    m,
                                ) implies moves@.contains(m) by {
                                let t = m->Simple_1;
                                let kk = lemma_ray_witness(
                                    b@,
                                    self_color,
                                    position@,
                                    t@,
                                    dr as int,
                                    dc as int,
                                    7,
                                );
                                if kk <= k as int {
                                    assert(ray_move_ok_within(
                                        b@,
                                        self_color,
                                        position@,
                                        t@,
                                        dr as int,
                                        dc as int,
                                        k as int,
                                    ));
                                    assert(pre.contains(m));
                                } else if kk == k as int + 1 {
                                    assert(t@ == next@);
                                    assert(t == next);
                                    assert(p.spec_color() != self_color);
                                    assert(moves@.last() == m);
                                } else {
                                    assert(b@[ray_square(
                                        position@,
                                        dr as int,
                                        dc as int,
                                        k as int + 1,
                                    )] is None);
                                    assert(false);
                                }
                            }
                        }
                        stopped = true;
                    },
                }
            },
        }
    }
    proof {
        if !stopped {
            assert(k == 7);
        }
    }
}

/// Appends the single leaping move of a piece of `self_color` standing on
/// `position`, by offset `(dr, dc)`, if its target is on the board and free
/// or an opposing piece.
fn leap_one(
    b: &Board,
    position: BoardIndex,
    self_color: PieceColor,
    dr: i8,
    dc: i8,
    moves: &mut Vec<Move>,
)
    requires
        position.wf(),
        -2 <= dr <= 2,
        -2 <= dc <= 2,
    ensures
        forall|m: Move|
            final(moves)@.contains(m) <==> old(moves)@.contains(m) || leap_pred(
                b@,
                self_color,
                position,
                dr as int,
                dc as int,
                m,
            ),
{
    broadcast use lemma_seq_contains_after_push, lemma_sq_at_coords;

    let delta = BoardIndexDelta::new(dr, dc);
    match position.checked_add(delta) {
        None => {},
        Some(next) => {
            match b.get_piece_at(next) {
                None => {
                    moves.push(Move::Simple(position, next));
                },
                Some(p) => {
                    if p.color() != self_color {
                        moves.push(Move::Simple(position, next));
                    }
                },
            }
            proof {
                assert forall|m: Move|
                    leap_pred(b@, self_color, position, dr as int, dc as int, m) implies (
                m->Simple_1)@ == next@ by {}
            }
        },
    }
}

/// Every move a pawn of color `c` standing on `pos` generates.
spec fn pawn_pred(
    b: Seq<Option<BoardPiece>>,
    c: PieceColor,
    pos: BoardIndex,
    ept: Option<EnPassantTarget>,
    m: Move,
) -> bool {
    match m {
        Move::Simple(a, t) => a == pos && 0 <= t@ < 64 && pawn_simple_move(b, c, pos@, t@),
        Move::EnPassant { pawn_doing_en_passant, .. } => pawn_doing_en_passant == pos
            && en_passant_move_ok(b, c, ept, m),
        Move::Castle { .. } => false,
    }
}

/// Appends every pseudo-legal move of a pawn of `self_color` standing on
/// `position`: the single and double advances, the diagonal captures, and
/// an en-passant capture onto the current target square.
#[verifier::rlimit(50)]
fn pawn_moves(
    b: &Board,
    position: BoardIndex,
    self_color: PieceColor,
    ept: Option<EnPassantTarget>,
    moves: &mut Vec<Move>,
)
    requires
        position.wf(),
    ensures
        forall|m: Move|
            final(moves)@.contains(m) <==> old(moves)@.contains(m) || pawn_pred(
                b@,
                self_color,
                position,
                ept,
                m,
            ),
{
    broadcast use lemma_seq_contains_after_push, lemma_sq_at_coords;

    let d: i8 = match self_color {
        PieceColor::White => 1,
        PieceColor::Black => -1,
    };
    // One square forward, onto an empty square only.
    match position.checked_add(BoardIndexDelta::delta_rank(d)) {
        Some(t1) => {
            if b.get_piece_at(t1).is_none() {
                moves.push(Move::Simple(position, t1));
                proof {
                    assert(pawn_pred(b@, self_color, position, ept, Move::Simple(position, t1)));
                }
                // A further two squares, only from the starting rank and only
                // across an empty square.
                if (d == 1 && position.rank() == 2) || (d == -1 && position.rank() == 7) {
                    match position.checked_add(BoardIndexDelta::delta_rank(2 * d)) {
                        Some(t2) => {
                            if b.get_piece_at(t2).is_none() {
                                moves.push(Move::Simple(position, t2));
                                proof {
                                    assert(pawn_pred(
                                        b@,
                                        self_color,
                                        position,
                                        ept,
                                        Move::Simple(position, t2),
                                    ));
                                }
                            }
                        },
                        None => {},
                    }
                }
            }
        },
        None => {},
    }
    // Diagonal captures.
    match position.checked_add(BoardIndexDelta::new(d, -1)) {
        Some(t) => {
            match b.get_piece_at(t) {
                Some(p) => {
                    if p.color() != self_color {
                        moves.push(Move::Simple(position, t));
                        proof {
                            assert(pawn_pred(b@, self_color, position, ept, Move::Simple(
                                position,
                                t,
                            )));
                        }
                    }
                },
                None => {},
            }
        },
        None => {},
    }
    match position.checked_add(BoardIndexDelta::new(d, 1)) {
        Some(t) => {
            match b.get_piece_at(t) {
                Some(p) => {
                    if p.color() != self_color {
                        moves.push(Move::Simple(position, t));
                        proof {
                            assert(pawn_pred(b@, self_color, position, ept, Move::Simple(
                                position,
                                t,
                            )));
                        }
                    }
                },
                None => {},
            }
        },
        None => {},
    }
    // En passant: the target square must be one of the forward diagonals,
    // and the pawn being captured must actually stand on the target's file.
    match ept {
        Some(e) => {
            match position.checked_add(BoardIndexDelta::new(d, 1)) {
                Some(t) => {
                    if e.0.get_pos() == t.get_pos() {
                        let cap = position.unchecked_add(BoardIndexDelta::delta_file(1));
                        if b.get_piece_at(cap).is_some() {
                            let mv = Move::EnPassant {
                                pawn_doing_en_passant: position,
                                pawn_being_captured: cap,
                                en_passant_target: e,
                            };
                            moves.push(mv);
                            proof {
                                assert(e.0 == t);
                                assert(pawn_pred(b@, self_color, position, ept, mv));
                            }
                        }
                    }
                },
                None => {},
            }
            match position.checked_add(BoardIndexDelta::new(d, -1)) {
                Some(t) => {
                    if e.0.get_pos() == t.get_pos() {
                        let cap = position.unchecked_add(BoardIndexDelta::delta_file(-1));
                        if b.get_piece_at(cap).is_some() {
                            let mv = Move::EnPassant {
                                pawn_doing_en_passant: position,
                                pawn_being_captured: cap,
                                en_passant_target: e,
                            };
                            moves.push(mv);
                            proof {
                                assert(e.0 == t);
                                assert(pawn_pred(b@, self_color, position, ept, mv));
                            }
                        }
                    }
                },
                None => {},
            }
        },
        None => {},
    }
    proof {
        assert forall|m: Move|
            pawn_pred(b@, self_color, position, ept, m) implies moves@.contains(m) by {
            match m {
                Move::Simple(a, t) => {
                    assert(t@ == sq_at(sq_row(t@), sq_col(t@)));
                },
                Move::EnPassant { pawn_doing_en_passant, pawn_being_captured, en_passant_target
                } => {
                    assert(en_passant_target.0@ == sq_at(
                        sq_row(en_passant_target.0@),
                        sq_col(en_passant_target.0@),
                    ));
                    assert(pawn_being_captured@ == sq_at(
                        sq_row(position@),
                        sq_col(en_passant_target.0@),
                    ));
                },
                Move::Castle { .. } => {},
            }
        }
    }
}

/// Appends the castle moves a king of `self_color` standing on `position`
/// generates: the right must be held, the rook must stand on its corner,
/// and the squares between them must be empty.
fn castle_moves(
    b: &Board,
    position: BoardIndex,
    self_color: PieceColor,
    castle_rights: CastleRights,
    moves: &mut Vec<Move>,
)
    requires
        position.wf(),
    ensures
        forall|m: Move|
            final(moves)@.contains(m) <==> old(moves)@.contains(m) || castle_move_ok(
                b@,
                self_color,
                castle_rights,
                position@,
                m,
            ),
{
    broadcast use lemma_seq_contains_after_push;

    let home: u8 = match self_color {
        PieceColor::White => 4,
        PieceColor::Black => 60,
    };
    if position.get_pos() != home {
        return ;
    }
    let rook = BoardPiece::new(BoardPieceKind::Rook, self_color);
    let has_king_side = match self_color {
        PieceColor::White => castle_rights.white_king_side,
        PieceColor::Black => castle_rights.black_king_side,
    };
    if has_king_side {
        let s1 = BoardIndex::new_unchecked(home + 1);
        let s2 = BoardIndex::new_unchecked(home + 2);
        let s3 = BoardIndex::new_unchecked(home + 3);
        if b.get_piece_at(s1).is_none() && b.get_piece_at(s2).is_none() {
            match b.get_piece_at(s3) {
                Some(p) => {
                    if p == rook {
                        moves.push(
                            Move::Castle {
                                rook_from: s3,
                                rook_to: s1,
                                king_from: position,
                                king_to: s2,
                            },
                        );
                    }
                },
                None => {},
            }
        }
    }
    let has_queen_side = match self_color {
        PieceColor::White => castle_rights.white_queen_side,
        PieceColor::Black => castle_rights.black_queen_side,
    };
    if has_queen_side {
        let s1 = BoardIndex::new_unchecked(home - 1);
        let s2 = BoardIndex::new_unchecked(home - 2);
        let s3 = BoardIndex::new_unchecked(home - 3);
        let s4 = BoardIndex::new_unchecked(home - 4);
        if b.get_piece_at(s1).is_none() && b.get_piece_at(s2).is_none() && b.get_piece_at(
            s3,
        ).is_none() {
            match b.get_piece_at(s4) {
                Some(p) => {
                    if p == rook {
                        moves.push(
                            Move::Castle {
                                rook_from: s4,
                                rook_to: s1,
                                king_from: position,
                                king_to: s2,
                            },
                        );
                    }
                },
                None => {},
            }
        }
    }
}

/// Decoding a piece's packed tag gives back the piece: the tag mapping is
/// injective over the twelve pieces.
pub broadcast proof fn lemma_piece_repr_round_trip(p: BoardPiece)
    ensures
        BoardPiece::spec_from_repr(#[trigger] p.spec_repr()) == Some(p),
{
}

/// Serializing a piece to its letter and parsing it back gives the piece:
/// the letter mapping is a bijection between the twelve tags and the twelve
/// standard letters.
pub broadcast proof fn lemma_piece_fen_char_round_trip(p: BoardPiece)
    ensures
        BoardPiece::spec_try_from_fen_char(#[trigger] p.spec_fen_char()) == Some(p),
{
}

} // verus!
