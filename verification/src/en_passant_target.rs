//! The optional en-passant target square of a position.

use vstd::prelude::*;

use crate::board_position::{BoardColumn, BoardIndex, BoardPosition};
use crate::fen_text::spec_digit_char;

verus! {

/// The square a pawn could capture onto, valid only for the one move
/// immediately following a two-square pawn advance.
#[derive(Copy, Clone, PartialEq, Eq, Hash, Debug, Structural)]
pub struct EnPassantTarget(pub BoardIndex);

impl EnPassantTarget {
    /// What parsing an en-passant field yields: `-` or any text that is not
    /// a square name means no target.
    pub open spec fn spec_from_fen(s: Seq<char>) -> Option<EnPassantTarget> {
        if s =~= seq!['-'] {
            None
        } else {
            match BoardPosition::spec_parse(s) {
                Err(_) => None,
                Ok(p) => Some(
                    EnPassantTarget(
                        BoardIndex::spec_from_int(
                            (p.row - 1) * 8 + p.column.spec_value() - 1,
                        ),
                    ),
                ),
            }
        }
    }

    pub fn from_fen(s: &str) -> (r: Option<EnPassantTarget>)
        ensures
            r == Self::spec_from_fen(s@),
            r matches Some(t) ==> t.0.wf(),
    {
        let len = s.unicode_len();
        if len == 1 && s.get_char(0) == '-' {
            proof {
                assert(s@ =~= seq!['-']);
            }
            return None;
        }
        proof {
            assert(!(s@ =~= seq!['-']));
        }
        match BoardPosition::from_str(s) {
            Err(_) => None,
            Ok(p) => Some(EnPassantTarget(p.to_index())),
        }
    }
}

/// The en-passant field describing a target: the square's name, or `-` when
/// absent.
pub open spec fn spec_ep_fen(ept: Option<int>) -> Seq<char> {
    match ept {
        None => seq!['-'],
        Some(t) => seq![
            BoardColumn::spec_char(BoardColumn::spec_from_value(t % 8 + 1)),
            spec_digit_char(t / 8 + 1),
        ],
    }
}

/// Serializing an en-passant target and parsing the text back yields the
/// same target: the en-passant field round-trips.
pub proof fn lemma_ep_round_trip(ept: Option<int>)
    requires
        ept matches Some(t) ==> 0 <= t < 64,
    ensures
        (match EnPassantTarget::spec_from_fen(spec_ep_fen(ept)) {
            None => None::<int>,
            Some(t) => Some(t.0@),
        }) == ept,
{
    match ept {
        None => {
            assert(spec_ep_fen(ept) =~= seq!['-']);
        },
        Some(t) => {
            let s = spec_ep_fen(ept);
            assert(s.len() == 2);
            assert(!(s =~= seq!['-']));
            let col_char = BoardColumn::spec_char(BoardColumn::spec_from_value(t % 8 + 1));
            assert(BoardColumn::spec_try_from_char(col_char) == Some(
                BoardColumn::spec_from_value(t % 8 + 1),
            ));
            assert('1' <= s[1] && s[1] <= '8');
            assert((s[1] as u8) as int == t / 8 + 1 + 48);
            assert(BoardColumn::spec_from_value(t % 8 + 1).spec_value() == t % 8 + 1);
        },
    }
}

} // verus!
