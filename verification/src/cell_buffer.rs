//! Packed board storage: two occupants per byte, each in a 4-bit slot, so a
//! whole board fits in 32 bytes and is trivially copyable.

use vstd::prelude::*;

use crate::board_position::BoardIndex;
use crate::piece::BoardPiece;

verus! {

/// The packed tag of an optional occupant: 0 for an empty slot, the piece's
/// nonzero tag otherwise.
pub open spec fn spec_opt_repr(p: Option<BoardPiece>) -> int {
    match p {
        None => 0,
        Some(q) => q.spec_repr(),
    }
}

/// Decoding the packed tag of any occupant gives back the occupant.
pub broadcast proof fn lemma_opt_repr_round_trip(p: Option<BoardPiece>)
    ensures
        BoardPiece::spec_from_repr(#[trigger] spec_opt_repr(p)) == p,
{
    broadcast use crate::piece::lemma_piece_repr_round_trip;

}

/// Two board squares packed in a single memory cell (byte): the high 4 bits
/// hold the first square's occupant, the low 4 bits the second's. An all-zero
/// slot means the square is empty; a nonzero slot is a piece tag.
#[derive(Copy, Clone, Eq, PartialEq, Hash, Default, Debug)]
pub struct BoardCellRepr {
    pub r: u8,
}

impl BoardCellRepr {
    /// The occupant stored in the high 4-bit slot.
    pub open spec fn spec_piece0(self) -> Option<BoardPiece> {
        BoardPiece::spec_from_repr(self.r as int / 16)
    }

    /// The occupant stored in the low 4-bit slot.
    pub open spec fn spec_piece1(self) -> Option<BoardPiece> {
        BoardPiece::spec_from_repr(self.r as int % 16)
    }

    pub fn get_piece0(self) -> (p: Option<BoardPiece>)
        ensures
            p == self.spec_piece0(),
    {
        BoardPiece::from_repr(self.r / 16)
    }

    pub fn get_piece1(self) -> (p: Option<BoardPiece>)
        ensures
            p == self.spec_piece1(),
    {
        BoardPiece::from_repr(self.r % 16)
    }

    /// The packed tag of `p`, as a byte.
    fn encode_opt(p: Option<BoardPiece>) -> (r: u8)
        ensures
            r as int == spec_opt_repr(p),
            r < 16,
    {
        match p {
            None => 0,
            Some(q) => q.repr(),
        }
    }

    pub fn set_piece0(&mut self, p0: Option<BoardPiece>)
        ensures
            final(self).spec_piece0() == p0,
            final(self).spec_piece1() == old(self).spec_piece1(),
    {
        let e = Self::encode_opt(p0);
        let lo = self.r % 16;
        self.r = e * 16 + lo;
        proof {
            broadcast use lemma_opt_repr_round_trip;

            assert((e * 16 + lo) as int / 16 == e as int && (e * 16 + lo) as int % 16 == lo as int)
                by (nonlinear_arith)
                requires
                    lo < 16,
                    e < 16,
            ;
        }
    }

    pub fn set_piece1(&mut self, p1: Option<BoardPiece>)
        ensures
            final(self).spec_piece1() == p1,
            final(self).spec_piece0() == old(self).spec_piece0(),
    {
        let e = Self::encode_opt(p1);
        let hi = self.r / 16;
        self.r = hi * 16 + e;
        proof {
            broadcast use lemma_opt_repr_round_trip;

            assert((hi * 16 + e) as int / 16 == hi as int && (hi * 16 + e) as int % 16 == e as int)
                by (nonlinear_arith)
                requires
                    e < 16,
                    hi < 16,
            ;
            assert(hi as int == old(self).r as int / 16);
        }
    }

    pub fn from_pieces(p0: Option<BoardPiece>, p1: Option<BoardPiece>) -> (r: Self)
        ensures
            r.spec_piece0() == p0,
            r.spec_piece1() == p1,
    {
        let e0 = Self::encode_opt(p0);
        let e1 = Self::encode_opt(p1);
        let r = Self { r: e0 * 16 + e1 };
        proof {
            broadcast use lemma_opt_repr_round_trip;

            assert((e0 * 16 + e1) as int / 16 == e0 as int && (e0 * 16 + e1) as int % 16
                == e1 as int) by (nonlinear_arith)
                requires
                    e0 < 16,
                    e1 < 16,
            ;
        }
        r
    }
}

/// A run of `2 * N` board squares stored in `N` packed cells. Its view is the
/// sequence of the `2 * N` occupants, in square order.
#[derive(Copy, Clone, Eq, PartialEq, Hash, Debug)]
pub struct BoardCellBuffer<const N: usize> {
    pub repr: [BoardCellRepr; N],
}

impl<const N: usize> View for BoardCellBuffer<N> {
    type V = Seq<Option<BoardPiece>>;

    open spec fn view(&self) -> Seq<Option<BoardPiece>> {
        Seq::new(
            (2 * N) as nat,
            |i: int|
                if i % 2 == 0 {
                    self.repr@[i / 2].spec_piece0()
                } else {
                    self.repr@[i / 2].spec_piece1()
                },
        )
    }
}

impl<const N: usize> BoardCellBuffer<N> {
    pub fn init_empty() -> (r: Self)
        ensures
            r@.len() == 2 * N,
            forall|i: int| 0 <= i < 2 * N ==> r@[i] is None,
    {
        Self { repr: [BoardCellRepr { r: 0 }; N] }
    }

    pub fn set_piece(&mut self, index: BoardIndex, p: Option<BoardPiece>)
        requires
            index@ < 2 * (N as int),
        ensures
            final(self)@ == old(self)@.update(index@, p),
    {
        let pos = index.get_pos();
        let cell = (pos / 2) as usize;
        let pos_in_cell = pos % 2;
        let mut c = self.repr[cell];
        if pos_in_cell == 0 {
            c.set_piece0(p);
        } else {
            c.set_piece1(p);
        }
        self.repr[cell] = c;
        proof {
            assert(final(self)@ =~= old(self)@.update(index@, p));
        }
    }

    pub fn get_piece(&self, index: BoardIndex) -> (r: Option<BoardPiece>)
        requires
            index@ < 2 * (N as int),
        ensures
            r == self@[index@],
    {
        let pos = index.get_pos();
        let cell = (pos / 2) as usize;
        let pos_in_cell = pos % 2;
        if pos_in_cell == 0 {
            self.repr[cell].get_piece0()
        } else {
            self.repr[cell].get_piece1()
        }
    }

    /// Copies the `2 * N2` squares starting at cell `start` into a smaller
    /// buffer.
    pub fn copy<const N2: usize>(&self, start: u8) -> (r: BoardCellBuffer<N2>)
        requires
            start as int + N2 as int <= N as int,
        ensures
            r@ == self@.subrange(2 * start as int, 2 * (start as int + N2 as int)),
    {
        let mut new_buffer = BoardCellBuffer::<N2> { repr: [BoardCellRepr { r: 0 }; N2] };
        let mut i: usize = 0;
        while i < N2
            invariant
                i <= N2,
                start as int + N2 as int <= N as int,
                forall|j: int| 0 <= j < i ==> new_buffer.repr@[j] == self.repr@[start as int + j],
            decreases N2 - i,
        {
            new_buffer.repr[i] = self.repr[start as usize + i];
            i = i + 1;
        }
        proof {
            assert(new_buffer@ =~= self@.subrange(2 * start as int, 2 * (start as int + N2 as int)));
        }
        new_buffer
    }

    /// Every square of the run, as `(index, occupant)` pairs in square order.
    pub fn iter_pieces(&self) -> (r: Vec<(BoardIndex, Option<BoardPiece>)>)
        requires
            2 * (N as int) <= 64,
        ensures
            r@.len() == 2 * N,
            forall|i: int|
                0 <= i < 2 * N ==> #[trigger] r@[i] == (BoardIndex::spec_from_int(i), self@[i]),
    {
        let mut r: Vec<(BoardIndex, Option<BoardPiece>)> = Vec::new();
        let mut i: usize = 0;
        while i < 2 * N
            invariant
                i <= 2 * N,
                2 * (N as int) <= 64,
                r@.len() == i,
                forall|j: int|
                    0 <= j < i ==> #[trigger] r@[j] == (BoardIndex::spec_from_int(j), self@[j]),
            decreases 2 * N - i,
        {
            let index = BoardIndex::new_unchecked(i as u8);
            let p = self.get_piece(index);
            r.push((index, p));
            i = i + 1;
        }
        r
    }
}

/// Packed storage for all 64 squares of a board.
#[derive(Copy, Clone, Eq, PartialEq, Hash, Debug)]
pub struct WholeBoardCellBuffer(pub BoardCellBuffer<32>);

impl View for WholeBoardCellBuffer {
    type V = Seq<Option<BoardPiece>>;

    open spec fn view(&self) -> Seq<Option<BoardPiece>> {
        self.0@
    }
}

impl WholeBoardCellBuffer {
    pub fn init_empty() -> (r: Self)
        ensures
            r@.len() == 64,
            forall|i: int| 0 <= i < 64 ==> r@[i] is None,
    {
        Self(BoardCellBuffer::init_empty())
    }

    pub fn set_piece(&mut self, index: BoardIndex, p: Option<BoardPiece>)
        requires
            index.wf(),
        ensures
            final(self)@ == old(self)@.update(index@, p),
    {
        self.0.set_piece(index, p)
    }

    pub fn get_piece(&self, index: BoardIndex) -> (r: Option<BoardPiece>)
        requires
            index.wf(),
        ensures
            r == self@[index@],
    {
        self.0.get_piece(index)
    }

    /// A copy of the 8 squares of 0-based rank `rank`.
    pub fn get_rank(&self, rank: u8) -> (r: RankCellBuffer)
        requires
            rank < 8,
        ensures
            r@ == self@.subrange(8 * rank as int, 8 * rank as int + 8),
    {
        RankCellBuffer(self.0.copy(rank * 4))
    }

    /// Every square of the board, as `(index, occupant)` pairs in square
    /// order.
    pub fn iter_pieces(&self) -> (r: Vec<(BoardIndex, Option<BoardPiece>)>)
        ensures
            r@.len() == 64,
            forall|i: int|
                0 <= i < 64 ==> #[trigger] r@[i] == (BoardIndex::spec_from_int(i), self@[i]),
    {
        self.0.iter_pieces()
    }

    /// Replaces the 8 squares of 0-based rank `rank` with the given rank's
    /// squares.
    pub fn copy_rank_from(&mut self, rank: u8, rank_buffer: &RankCellBuffer)
        requires
            rank < 8,
        ensures
            final(self)@.len() == 64,
            forall|i: int|
                0 <= i < 64 ==> final(self)@[i] == if 8 * rank as int <= i < 8 * rank as int + 8 {
                    rank_buffer@[i - 8 * rank as int]
                } else {
                    old(self)@[i]
                },
    {
        let mut file: u8 = 0;
        while file < 8
            invariant
                file <= 8,
                rank < 8,
                self@.len() == 64,
                forall|i: int|
                    0 <= i < 64 ==> self@[i] == if 8 * rank as int <= i < 8 * rank as int
                        + file as int {
                        rank_buffer@[i - 8 * rank as int]
                    } else {
                        old(self)@[i]
                    },
            decreases 8 - file,
        {
            let p = rank_buffer.get_piece(BoardIndex::new_unchecked(file));
            self.set_piece(BoardIndex::new_unchecked(rank * 8 + file), p);
            file = file + 1;
        }
    }
}

/// Packed storage for the 8 squares of one rank.
#[derive(Copy, Clone, Eq, PartialEq, Hash, Debug)]
pub struct RankCellBuffer(pub BoardCellBuffer<4>);

impl View for RankCellBuffer {
    type V = Seq<Option<BoardPiece>>;

    open spec fn view(&self) -> Seq<Option<BoardPiece>> {
        self.0@
    }
}

impl RankCellBuffer {
    pub fn init_empty() -> (r: Self)
        ensures
            r@.len() == 8,
            forall|i: int| 0 <= i < 8 ==> r@[i] is None,
    {
        Self(BoardCellBuffer::init_empty())
    }

    pub fn set_piece(&mut self, index: BoardIndex, p: Option<BoardPiece>)
        requires
            index@ < 8,
        ensures
            final(self)@ == old(self)@.update(index@, p),
    {
        self.0.set_piece(index, p)
    }

    pub fn get_piece(&self, index: BoardIndex) -> (r: Option<BoardPiece>)
        requires
            index@ < 8,
        ensures
            r == self@[index@],
    {
        self.0.get_piece(index)
    }

    /// Every square of the rank, as `(index, occupant)` pairs in square
    /// order.
    pub fn iter_pieces(&self) -> (r: Vec<(BoardIndex, Option<BoardPiece>)>)
        ensures
            r@.len() == 8,
            forall|i: int|
                0 <= i < 8 ==> #[trigger] r@[i] == (BoardIndex::spec_from_int(i), self@[i]),
    {
        self.0.iter_pieces()
    }
}

} // verus!
