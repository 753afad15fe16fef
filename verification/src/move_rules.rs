//! The mathematical model of piece movement, board transition and legality:
//! every contract of the move generator, the legality filter and the game
//! state is stated over these predicates.

use vstd::prelude::*;

use crate::castle_rights::CastleRights;
use crate::en_passant_target::EnPassantTarget;
use crate::piece::{BoardPiece, BoardPieceKind, PieceColor};
use crate::piece_move::{Move, MoveInfo};

verus! {

/// The 0-based row of a linear square number.
pub open spec fn sq_row(i: int) -> int {
    i / 8
}

/// The 0-based column of a linear square number.
pub open spec fn sq_col(i: int) -> int {
    i % 8
}

/// The linear square number of a 0-based (row, column) pair.
pub open spec fn sq_at(row: int, col: int) -> int {
    8 * row + col
}

/// The square is empty or holds a piece of the opposing color, so a piece of
/// color `c` may land there.
pub open spec fn target_square_ok(b: Seq<Option<BoardPiece>>, i: int, c: PieceColor) -> bool {
    b[i] is None || (b[i] matches Some(p) && p.spec_color() != c)
}

/// Both coordinates name a square of the board.
pub open spec fn on_board(row: int, col: int) -> bool {
    0 <= row < 8 && 0 <= col < 8
}

/// `k` steps in the unit component `d` of a direction.
pub open spec fn dir_mul(d: int, k: int) -> int {
    if d == 1 {
        k
    } else if d == -1 {
        -k
    } else {
        0
    }
}

/// The linear square number `k` steps from `f` along direction `(dr, dc)`.
pub open spec fn ray_square(f: int, dr: int, dc: int, k: int) -> int {
    sq_at(sq_row(f) + dir_mul(dr, k), sq_col(f) + dir_mul(dc, k))
}

/// The coordinates of a square of the board are recovered from its linear
/// number.
pub broadcast proof fn lemma_sq_at_coords(row: int, col: int)
    ensures
        on_board(row, col) ==> {
            &&& sq_row(#[trigger] sq_at(row, col)) == row
            &&& sq_col(sq_at(row, col)) == col
            &&& 0 <= sq_at(row, col) < 64
        },
{
}

/// A sliding piece of color `c` on `f` may move to `t` along direction
/// `(dr, dc)` in at most `kmax` steps: `t` is on the ray, every square
/// passed over is empty, and the target is free or an opposing piece.
pub open spec fn ray_move_ok_within(
    b: Seq<Option<BoardPiece>>,
    c: PieceColor,
    f: int,
    t: int,
    dr: int,
    dc: int,
    kmax: int,
) -> bool {
    exists|k: int|
        {
            &&& 1 <= k <= kmax
            &&& on_board(sq_row(f) + dir_mul(dr, k), sq_col(f) + dir_mul(dc, k))
            &&& #[trigger] ray_square(f, dr, dc, k) == t
            &&& (forall|j: int| 1 <= j < k ==> b[ray_square(f, dr, dc, j)] is None)
            &&& target_square_ok(b, t, c)
        }
}

/// Extracts the step count that witnesses a sliding move.
pub proof fn lemma_ray_witness(
    b: Seq<Option<BoardPiece>>,
    c: PieceColor,
    f: int,
    t: int,
    dr: int,
    dc: int,
    kmax: int,
) -> (k: int)
    requires
        ray_move_ok_within(b, c, f, t, dr, dc, kmax),
    ensures
        1 <= k <= kmax,
        on_board(sq_row(f) + dir_mul(dr, k), sq_col(f) + dir_mul(dc, k)),
        ray_square(f, dr, dc, k) == t,
        forall|j: int| 1 <= j < k ==> b[ray_square(f, dr, dc, j)] is None,
        target_square_ok(b, t, c),
{
    choose|k: int|
        {
            &&& 1 <= k <= kmax
            &&& on_board(sq_row(f) + dir_mul(dr, k), sq_col(f) + dir_mul(dc, k))
            &&& #[trigger] ray_square(f, dr, dc, k) == t
            &&& (forall|j: int| 1 <= j < k ==> b[ray_square(f, dr, dc, j)] is None)
            &&& target_square_ok(b, t, c)
        }
}

/// A full-length sliding move: up to the 7 steps a board allows.
pub open spec fn ray_move_ok(
    b: Seq<Option<BoardPiece>>,
    c: PieceColor,
    f: int,
    t: int,
    dr: int,
    dc: int,
) -> bool {
    ray_move_ok_within(b, c, f, t, dr, dc, 7)
}

/// Rook movement: a sliding move along one of the four rank and file
/// directions.
pub open spec fn rook_move_ok(b: Seq<Option<BoardPiece>>, c: PieceColor, f: int, t: int) -> bool {
    ||| ray_move_ok(b, c, f, t, 1, 0)
    ||| ray_move_ok(b, c, f, t, -1, 0)
    ||| ray_move_ok(b, c, f, t, 0, 1)
    ||| ray_move_ok(b, c, f, t, 0, -1)
}

/// Bishop movement: a sliding move along one of the four diagonal
/// directions.
pub open spec fn bishop_move_ok(b: Seq<Option<BoardPiece>>, c: PieceColor, f: int, t: int) -> bool {
    ||| ray_move_ok(b, c, f, t, 1, 1)
    ||| ray_move_ok(b, c, f, t, 1, -1)
    ||| ray_move_ok(b, c, f, t, -1, 1)
    ||| ray_move_ok(b, c, f, t, -1, -1)
}

/// A leaping piece of color `c` on `f` may move to `t` by the single offset
/// `(dr, dc)`: the target square is on the board and free or an opposing
/// piece.
pub open spec fn leap_move_ok(
    b: Seq<Option<BoardPiece>>,
    c: PieceColor,
    f: int,
    t: int,
    dr: int,
    dc: int,
) -> bool {
    &&& on_board(sq_row(f) + dr, sq_col(f) + dc)
    &&& t == sq_at(sq_row(f) + dr, sq_col(f) + dc)
    &&& target_square_ok(b, t, c)
}

/// Knight geometry: one step in one direction and two in the other.
pub open spec fn knight_jump(f: int, t: int) -> bool {
    let dr = sq_row(t) - sq_row(f);
    let dc = sq_col(t) - sq_col(f);
    ||| ((dr == 1 || dr == -1) && (dc == 2 || dc == -2))
    ||| ((dr == 2 || dr == -2) && (dc == 1 || dc == -1))
}

/// King geometry: one step in any direction.
pub open spec fn king_step(f: int, t: int) -> bool {
    let dr = sq_row(t) - sq_row(f);
    let dc = sq_col(t) - sq_col(f);
    &&& f != t
    &&& -1 <= dr <= 1
    &&& -1 <= dc <= 1
}

/// The rank direction a pawn of color `c` advances in.
pub open spec fn pawn_dir(c: PieceColor) -> int {
    if c is White {
        1
    } else {
        -1
    }
}

/// The 0-based starting row of the pawns of color `c`.
pub open spec fn pawn_start_row(c: PieceColor) -> int {
    if c is White {
        1
    } else {
        6
    }
}

/// A pawn of color `c` on `f` may make the plain move to `t`: a one-square
/// advance onto an empty square, a two-square advance from its starting rank
/// across an empty square, or a diagonal capture of an opposing piece.
pub open spec fn pawn_simple_move(b: Seq<Option<BoardPiece>>, c: PieceColor, f: int, t: int) -> bool {
    let d = pawn_dir(c);
    let rf = sq_row(f);
    let cf = sq_col(f);
    let rt = sq_row(t);
    let ct = sq_col(t);
    ||| (ct == cf && rt == rf + d && b[t] is None)
    ||| (ct == cf && rt == rf + 2 * d && rf == pawn_start_row(c) && b[sq_at(rf + d, cf)] is None
        && b[t] is None)
    ||| ((ct == cf + 1 || ct == cf - 1) && rt == rf + d && (b[t] matches Some(p) && p.spec_color()
        != c))
}

/// A piece `p` on square `f` may make the simple move to `t`.
pub open spec fn piece_simple_move(
    b: Seq<Option<BoardPiece>>,
    p: BoardPiece,
    f: int,
    t: int,
) -> bool {
    &&& 0 <= f < 64
    &&& 0 <= t < 64
    &&& match p.spec_kind() {
        BoardPieceKind::Pawn => pawn_simple_move(b, p.spec_color(), f, t),
        BoardPieceKind::Rook => rook_move_ok(b, p.spec_color(), f, t),
        BoardPieceKind::Knight => knight_jump(f, t) && target_square_ok(b, t, p.spec_color()),
        BoardPieceKind::Bishop => bishop_move_ok(b, p.spec_color(), f, t),
        BoardPieceKind::Queen => rook_move_ok(b, p.spec_color(), f, t) || bishop_move_ok(
            b,
            p.spec_color(),
            f,
            t,
        ),
        BoardPieceKind::King => king_step(f, t) && target_square_ok(b, t, p.spec_color()),
    }
}

/// A pawn of color `c` on `f` may capture en passant with move `m`: the
/// current target square is one of its forward diagonals, and the pawn being
/// captured stands on the target's file in the pawn's own rank.
pub open spec fn en_passant_move_ok(
    b: Seq<Option<BoardPiece>>,
    c: PieceColor,
    ept: Option<EnPassantTarget>,
    m: Move,
) -> bool {
    m matches Move::EnPassant { pawn_doing_en_passant: f, pawn_being_captured: cap, en_passant_target: t }
        && {
        let d = pawn_dir(c);
        &&& ept == Some(t)
        &&& 0 <= f@ < 64
        &&& 0 <= t.0@ < 64
        &&& sq_row(t.0@) == sq_row(f@) + d
        &&& (sq_col(t.0@) == sq_col(f@) + 1 || sq_col(t.0@) == sq_col(f@) - 1)
        &&& cap@ == sq_at(sq_row(f@), sq_col(t.0@))
        &&& b[cap@] is Some
    }
}

/// The square the king of color `c` starts a game on.
pub open spec fn king_home(c: PieceColor) -> int {
    if c is White {
        4
    } else {
        60
    }
}

/// Whether `rights` allows color `c` to castle king-side.
pub open spec fn has_king_side_right(rights: CastleRights, c: PieceColor) -> bool {
    if c is White {
        rights.white_king_side
    } else {
        rights.black_king_side
    }
}

/// Whether `rights` allows color `c` to castle queen-side.
pub open spec fn has_queen_side_right(rights: CastleRights, c: PieceColor) -> bool {
    if c is White {
        rights.white_queen_side
    } else {
        rights.black_queen_side
    }
}

/// A king of color `c` on its home square `pos` may castle with move `m`:
/// the right is still held, the rook stands on its corner, and the squares
/// between them are empty. Whether the king crosses an attacked square is
/// the legality filter's concern, not this generator-level predicate's.
pub open spec fn castle_move_ok(
    b: Seq<Option<BoardPiece>>,
    c: PieceColor,
    rights: CastleRights,
    pos: int,
    m: Move,
) -> bool {
    m matches Move::Castle { rook_from, rook_to, king_from, king_to } && {
        &&& king_from@ == pos
        &&& pos == king_home(c)
        &&& {
            ||| {
                &&& king_to@ == pos + 2
                &&& rook_from@ == pos + 3
                &&& rook_to@ == pos + 1
                &&& has_king_side_right(rights, c)
                &&& b[pos + 3] == Some(BoardPiece::spec_new(BoardPieceKind::Rook, c))
                &&& b[pos + 1] is None
                &&& b[pos + 2] is None
            }
            ||| {
                &&& king_to@ == pos - 2
                &&& rook_from@ == pos - 4
                &&& rook_to@ == pos - 1
                &&& has_queen_side_right(rights, c)
                &&& b[pos - 4] == Some(BoardPiece::spec_new(BoardPieceKind::Rook, c))
                &&& b[pos - 1] is None
                &&& b[pos - 2] is None
                &&& b[pos - 3] is None
            }
        }
    }
}

/// Every move that a piece `p` standing on `pos` generates, whether or not
/// `p` actually stands there on `b`.
pub open spec fn piece_move_ok(
    b: Seq<Option<BoardPiece>>,
    p: BoardPiece,
    pos: int,
    ept: Option<EnPassantTarget>,
    rights: CastleRights,
    m: Move,
) -> bool {
    match m {
        Move::Simple(a, t) => a@ == pos && piece_simple_move(b, p, pos, t@),
        Move::EnPassant { pawn_doing_en_passant, .. } => {
            &&& pawn_doing_en_passant@ == pos
            &&& 0 <= pos < 64
            &&& p.spec_kind() is Pawn
            &&& en_passant_move_ok(b, p.spec_color(), ept, m)
        },
        Move::Castle { .. } => {
            &&& p.spec_kind() is King
            &&& castle_move_ok(b, p.spec_color(), rights, pos, m)
        },
    }
}

/// A pseudo-legal move of color `turn`: the piece on its starting square has
/// that color and generates the move.
pub open spec fn pseudo_legal(
    b: Seq<Option<BoardPiece>>,
    turn: PieceColor,
    ept: Option<EnPassantTarget>,
    rights: CastleRights,
    m: Move,
) -> bool {
    let f = m.spec_from();
    &&& 0 <= f < 64
    &&& b[f] matches Some(p) && p.spec_color() == turn && piece_move_ok(b, p, f, ept, rights, m)
}

/// A simple move applied to the board: the occupant of `f` lands on `t`
/// and `f` is cleared.
pub open spec fn spec_simple_applied(b: Seq<Option<BoardPiece>>, f: int, t: int) -> Seq<
    Option<BoardPiece>,
> {
    b.update(t, b[f]).update(f, None)
}

/// The board after applying move `m`, for boards on which `m` applies.
pub open spec fn spec_board_after(b: Seq<Option<BoardPiece>>, m: Move) -> Seq<Option<BoardPiece>> {
    match m {
        Move::Simple(f, t) => spec_simple_applied(b, f@, t@),
        Move::EnPassant { pawn_doing_en_passant, pawn_being_captured, en_passant_target } => b
            .update(pawn_doing_en_passant@, None).update(pawn_being_captured@, None).update(
            en_passant_target.0@,
            b[pawn_doing_en_passant@],
        ),
        Move::Castle { rook_from, rook_to, king_from, king_to } => spec_simple_applied(
            spec_simple_applied(b, king_from@, king_to@),
            rook_from@,
            rook_to@,
        ),
    }
}

/// The castling rights a simple move of piece `p` from `f` revokes: king
/// moves revoke both rights of that color, rook moves from a home corner
/// revoke that corner's side.
pub open spec fn spec_revoked_by_simple(p: BoardPiece, f: int) -> CastleRights {
    if p == BoardPiece::WhiteRook {
        if f == 0 {
            CastleRights { white_queen_side: true, ..CastleRights::spec_empty() }
        } else if f == 7 {
            CastleRights { white_king_side: true, ..CastleRights::spec_empty() }
        } else {
            CastleRights::spec_empty()
        }
    } else if p == BoardPiece::BlackRook {
        if f == 56 {
            CastleRights { black_queen_side: true, ..CastleRights::spec_empty() }
        } else if f == 63 {
            CastleRights { black_king_side: true, ..CastleRights::spec_empty() }
        } else {
            CastleRights::spec_empty()
        }
    } else if p == BoardPiece::WhiteKing {
        CastleRights { white_king_side: true, white_queen_side: true, ..CastleRights::spec_empty() }
    } else if p == BoardPiece::BlackKing {
        CastleRights { black_king_side: true, black_queen_side: true, ..CastleRights::spec_empty() }
    } else {
        CastleRights::spec_empty()
    }
}

/// The en-passant target a simple move of piece `p` from `f` to `t` creates:
/// only a two-square pawn advance creates one, on the square passed over.
pub open spec fn spec_new_ept_of_simple(p: BoardPiece, f: int, t: int) -> Option<EnPassantTarget> {
    if p == BoardPiece::WhitePawn && t - f == 16 {
        Some(EnPassantTarget(crate::board_position::BoardIndex::spec_from_int(f + 8)))
    } else if p == BoardPiece::BlackPawn && f - t == 16 {
        Some(EnPassantTarget(crate::board_position::BoardIndex::spec_from_int(f - 8)))
    } else {
        None
    }
}

/// The side-effect summary of a simple move from `f` to `t` on board `b`,
/// meaningful when `f` is occupied.
pub open spec fn spec_simple_move_info(b: Seq<Option<BoardPiece>>, f: int, t: int) -> MoveInfo {
    let p = b[f]->0;
    MoveInfo {
        moved_piece_color: p.spec_color(),
        revoked_castle_rights: spec_revoked_by_simple(p, f),
        captured: b[t],
        pawn_advanced: p.spec_kind() is Pawn,
        new_en_passant_target: spec_new_ept_of_simple(p, f, t),
    }
}

/// The side-effect summary of applying move `m` on board `b`, meaningful
/// when `m` applies.
pub open spec fn spec_move_info(b: Seq<Option<BoardPiece>>, m: Move) -> MoveInfo {
    match m {
        Move::Simple(f, t) => spec_simple_move_info(b, f@, t@),
        Move::EnPassant { pawn_doing_en_passant, pawn_being_captured, .. } => MoveInfo {
            moved_piece_color: (b[pawn_doing_en_passant@]->0).spec_color(),
            revoked_castle_rights: CastleRights::spec_empty(),
            captured: Some(b[pawn_being_captured@]->0),
            pawn_advanced: true,
            new_en_passant_target: None,
        },
        Move::Castle { rook_from, rook_to, king_from, king_to } => spec_simple_move_info(
            b,
            king_from@,
            king_to@,
        ).spec_combine(
            spec_simple_move_info(spec_simple_applied(b, king_from@, king_to@), rook_from@, rook_to@),
        ),
    }
}

/// Move `m` applies to board `b`: every square it reads a piece from is
/// occupied, and the two sub-moves of a castle move pieces of one color.
pub open spec fn spec_applicable(b: Seq<Option<BoardPiece>>, m: Move) -> bool {
    &&& m.wf()
    &&& match m {
        Move::Simple(f, _) => b[f@] is Some,
        Move::EnPassant { pawn_doing_en_passant, pawn_being_captured, .. } => b[pawn_doing_en_passant@]
            is Some && b[pawn_being_captured@] is Some,
        Move::Castle { rook_from, rook_to, king_from, king_to } => {
            let after_king = spec_simple_applied(b, king_from@, king_to@);
            &&& b[king_from@] is Some
            &&& after_king[rook_from@] is Some
            &&& (b[king_from@]->0).spec_color() == (after_king[rook_from@]->0).spec_color()
        },
    }
}

/// Some piece of color `by` has a simple pseudo-legal move onto square `s`.
pub open spec fn attacked(b: Seq<Option<BoardPiece>>, by: PieceColor, s: int) -> bool {
    exists|f: int|
        0 <= f < 64 && (#[trigger] b[f] matches Some(p) && p.spec_color() == by
            && piece_simple_move(b, p, f, s))
}

/// Some square holding a king of color `c` is attacked by the other color.
pub open spec fn king_capturable(b: Seq<Option<BoardPiece>>, c: PieceColor) -> bool {
    exists|s: int|
        0 <= s < 64 && #[trigger] b[s] == Some(
            BoardPiece::spec_new(BoardPieceKind::King, c),
        ) && attacked(b, c.spec_other(), s)
}

/// For a castle, neither the king's starting square nor the square it
/// crosses may be attacked before the move; other moves are unconstrained
/// here.
pub open spec fn castle_transit_safe(b: Seq<Option<BoardPiece>>, c: PieceColor, m: Move) -> bool {
    m matches Move::Castle { king_from, king_to, .. } ==> {
        &&& !attacked(b, c.spec_other(), king_from@)
        &&& !attacked(b, c.spec_other(), (king_from@ + king_to@) / 2)
    }
}

/// Move `m` by color `c` does not leave `c`'s own king capturable, and a
/// castle does not start from or cross an attacked square.
pub open spec fn move_safe(b: Seq<Option<BoardPiece>>, c: PieceColor, m: Move) -> bool {
    &&& !king_capturable(spec_board_after(b, m), c)
    &&& castle_transit_safe(b, c, m)
}

/// A legal move: pseudo-legal and safe for the mover's king.
pub open spec fn move_legal(
    b: Seq<Option<BoardPiece>>,
    turn: PieceColor,
    ept: Option<EnPassantTarget>,
    rights: CastleRights,
    m: Move,
) -> bool {
    &&& pseudo_legal(b, turn, ept, rights, m)
    &&& move_safe(b, turn, m)
}

/// Knight movement decomposes into the eight single leaps.
pub proof fn lemma_knight_decomp(b: Seq<Option<BoardPiece>>, c: PieceColor, f: int, t: int)
    requires
        0 <= f < 64,
        0 <= t < 64,
    ensures
        (knight_jump(f, t) && target_square_ok(b, t, c)) <==> {
            ||| leap_move_ok(b, c, f, t, -2, -1)
            ||| leap_move_ok(b, c, f, t, -2, 1)
            ||| leap_move_ok(b, c, f, t, -1, -2)
            ||| leap_move_ok(b, c, f, t, -1, 2)
            ||| leap_move_ok(b, c, f, t, 1, -2)
            ||| leap_move_ok(b, c, f, t, 1, 2)
            ||| leap_move_ok(b, c, f, t, 2, -1)
            ||| leap_move_ok(b, c, f, t, 2, 1)
        },
{
    broadcast use lemma_sq_at_coords;

    assert(t == sq_at(sq_row(t), sq_col(t)));
}

/// King movement decomposes into the eight single steps.
pub proof fn lemma_king_decomp(b: Seq<Option<BoardPiece>>, c: PieceColor, f: int, t: int)
    requires
        0 <= f < 64,
        0 <= t < 64,
    ensures
        (king_step(f, t) && target_square_ok(b, t, c)) <==> {
            ||| leap_move_ok(b, c, f, t, -1, -1)
            ||| leap_move_ok(b, c, f, t, -1, 0)
            ||| leap_move_ok(b, c, f, t, -1, 1)
            ||| leap_move_ok(b, c, f, t, 0, -1)
            ||| leap_move_ok(b, c, f, t, 0, 1)
            ||| leap_move_ok(b, c, f, t, 1, -1)
            ||| leap_move_ok(b, c, f, t, 1, 0)
            ||| leap_move_ok(b, c, f, t, 1, 1)
        },
{
    broadcast use lemma_sq_at_coords;

    assert(t == sq_at(sq_row(t), sq_col(t)));
}

/// A pseudo-legal move of color `turn` moves a piece of that color.
pub proof fn lemma_pseudo_legal_mover_color(
    b: Seq<Option<BoardPiece>>,
    turn: PieceColor,
    ept: Option<EnPassantTarget>,
    rights: CastleRights,
    m: Move,
)
    requires
        pseudo_legal(b, turn, ept, rights, m),
    ensures
        spec_move_info(b, m).moved_piece_color == turn,
{
}

/// A pseudo-legal move always applies to the board it was generated on.
pub proof fn lemma_pseudo_legal_applicable(
    b: Seq<Option<BoardPiece>>,
    turn: PieceColor,
    ept: Option<EnPassantTarget>,
    rights: CastleRights,
    m: Move,
)
    requires
        b.len() == 64,
        pseudo_legal(b, turn, ept, rights, m),
    ensures
        spec_applicable(b, m),
{
    match m {
        Move::Simple(f, t) => {},
        Move::EnPassant { pawn_doing_en_passant, pawn_being_captured, en_passant_target } => {},
        Move::Castle { rook_from, rook_to, king_from, king_to } => {
            let p = b[m.spec_from()]->0;
            let c = p.spec_color();
            let pos = king_from@;
            assert(castle_move_ok(b, c, rights, pos, m));
        },
    }
}

} // verus!
