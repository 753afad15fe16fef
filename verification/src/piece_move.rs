//! Move model: a simple move, an en-passant capture, or a castle, together
//! with the derived side effects of applying one.

use vstd::prelude::*;

use crate::board_position::{BoardIndex, BoardIndexDelta};
use crate::castle_rights::CastleRights;
use crate::en_passant_target::EnPassantTarget;
use crate::fen_text::{chars_to_string, push_str_chars};
use crate::piece::{BoardPiece, PieceColor};

verus! {

#[derive(Copy, Clone, Eq, PartialEq, Hash, Debug, Structural)]
pub enum Move {
    Simple(BoardIndex, BoardIndex),
    EnPassant {
        pawn_doing_en_passant: BoardIndex,
        pawn_being_captured: BoardIndex,
        en_passant_target: EnPassantTarget,
    },
    Castle { rook_from: BoardIndex, rook_to: BoardIndex, king_from: BoardIndex, king_to: BoardIndex },
}

impl Move {
    /// Every square named by the move is on the board.
    pub open spec fn wf(self) -> bool {
        match self {
            Move::Simple(start, end) => start.wf() && end.wf(),
            Move::EnPassant { pawn_doing_en_passant, pawn_being_captured, en_passant_target } => {
                &&& pawn_doing_en_passant.wf()
                &&& pawn_being_captured.wf()
                &&& en_passant_target.0.wf()
            },
            Move::Castle { rook_from, rook_to, king_from, king_to } => {
                &&& rook_from.wf()
                &&& rook_to.wf()
                &&& king_from.wf()
                &&& king_to.wf()
            },
        }
    }

    /// The square the moving piece starts from: for a castle, the king's.
    pub open spec fn spec_from(self) -> int {
        match self {
            Move::Simple(start, _) => start@,
            Move::EnPassant { pawn_doing_en_passant, .. } => pawn_doing_en_passant@,
            Move::Castle { king_from, .. } => king_from@,
        }
    }

    /// The short text naming a move: the moving piece's starting square and
    /// destination. For a castle the king's two squares name the move; for
    /// an en-passant capture, the capturing pawn's square and the target.
    pub open spec fn spec_describe(self) -> Seq<char> {
        let arrow = seq![' ', '-', '>', ' '];
        match self {
            Move::Simple(start, end) => start.spec_describe() + arrow + end.spec_describe(),
            Move::EnPassant { pawn_doing_en_passant, en_passant_target, .. } => pawn_doing_en_passant.spec_describe()
                + arrow + en_passant_target.0.spec_describe(),
            Move::Castle { king_from, king_to, .. } => king_from.spec_describe() + arrow
                + king_to.spec_describe(),
        }
    }

    /// Writes the move's short text, such as `"E2 -> E4"`.
    pub fn describe(&self) -> (r: String)
        requires
            self.wf(),
        ensures
            r@ == self.spec_describe(),
    {
        let (from, to) = match *self {
            Move::Simple(start, end) => (start, end),
            Move::EnPassant { pawn_doing_en_passant, en_passant_target, .. } => (
                pawn_doing_en_passant,
                en_passant_target.0,
            ),
            Move::Castle { king_from, king_to, .. } => (king_from, king_to),
        };
        let mut out: Vec<char> = Vec::new();
        push_str_chars(from.describe().as_str(), &mut out);
        out.push(' ');
        out.push('-');
        out.push('>');
        out.push(' ');
        push_str_chars(to.describe().as_str(), &mut out);
        proof {
            assert(out@ =~= self.spec_describe());
        }
        chars_to_string(&out)
    }

    /// The simple move from `pos` along `delta`, if it stays on the board.
    pub fn from_delta(pos: BoardIndex, delta: BoardIndexDelta) -> (r: Option<Self>)
        ensures
            pos.spec_add_in_bounds(delta) ==> (r matches Some(m) && m matches Move::Simple(a, b)
                && a == pos && b@ == pos.spec_add_value(delta) && b.wf()),
            !pos.spec_add_in_bounds(delta) ==> r is None,
    {
        match pos.checked_add(delta) {
            Some(end) => Some(Self::Simple(pos, end)),
            None => None,
        }
    }
}

/// Derived side effects of having applied a move.
#[derive(Copy, Clone, Debug, Eq, PartialEq, Hash, Structural)]
pub struct MoveInfo {
    pub moved_piece_color: PieceColor,
    pub revoked_castle_rights: CastleRights,
    pub captured: Option<BoardPiece>,
    pub pawn_advanced: bool,
    pub new_en_passant_target: Option<EnPassantTarget>,
}

impl MoveInfo {
    /// What combining the two sub-move summaries of a castle yields.
    pub open spec fn spec_combine(self, mi2: MoveInfo) -> MoveInfo {
        MoveInfo {
            moved_piece_color: self.moved_piece_color,
            captured: if self.captured is Some {
                self.captured
            } else {
                mi2.captured
            },
            revoked_castle_rights: self.revoked_castle_rights.spec_union(
                mi2.revoked_castle_rights,
            ),
            pawn_advanced: self.pawn_advanced || mi2.pawn_advanced,
            new_en_passant_target: if self.new_en_passant_target is Some {
                self.new_en_passant_target
            } else {
                mi2.new_en_passant_target
            },
        }
    }

    /// Combines the summaries of the two sub-moves of a castle: captures and
    /// en-passant targets keep the first that is present, revoked rights
    /// take the union, and pawn advances or together.
    pub fn combine_composite(self, mi2: MoveInfo) -> (r: MoveInfo)
        requires
            self.moved_piece_color == mi2.moved_piece_color,
        ensures
            r == self.spec_combine(mi2),
    {
        MoveInfo {
            moved_piece_color: self.moved_piece_color,
            captured: match self.captured {
                Some(c) => Some(c),
                None => mi2.captured,
            },
            revoked_castle_rights: self.revoked_castle_rights.union(mi2.revoked_castle_rights),
            pawn_advanced: self.pawn_advanced || mi2.pawn_advanced,
            new_en_passant_target: match self.new_en_passant_target {
                Some(t) => Some(t),
                None => mi2.new_en_passant_target,
            },
        }
    }
}

} // verus!
