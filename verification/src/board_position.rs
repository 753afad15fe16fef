//! Coordinate model: linear board indices, (row, column) positions, and
//! bounds-checked directional offsets.

use vstd::prelude::*;

use crate::fen_text::{chars_to_string, digit_to_char, spec_digit_char};

verus! {

/// One of the eight columns (files) of the board, `A` through `H`.
#[derive(Copy, Clone, Debug, Eq, PartialEq, Hash, Structural)]
pub enum BoardColumn {
    A,
    B,
    C,
    D,
    E,
    F,
    G,
    H,
}

impl BoardColumn {
    /// The 1-based number of this column: `A` is 1, `H` is 8.
    pub open spec fn spec_value(self) -> int {
        match self {
            BoardColumn::A => 1,
            BoardColumn::B => 2,
            BoardColumn::C => 3,
            BoardColumn::D => 4,
            BoardColumn::E => 5,
            BoardColumn::F => 6,
            BoardColumn::G => 7,
            BoardColumn::H => 8,
        }
    }

    pub open spec fn spec_char(self) -> char {
        match self {
            BoardColumn::A => 'A',
            BoardColumn::B => 'B',
            BoardColumn::C => 'C',
            BoardColumn::D => 'D',
            BoardColumn::E => 'E',
            BoardColumn::F => 'F',
            BoardColumn::G => 'G',
            BoardColumn::H => 'H',
        }
    }

    pub open spec fn spec_try_from_char(c: char) -> Option<BoardColumn> {
        if c == 'A' || c == 'a' {
            Some(BoardColumn::A)
        } else if c == 'B' || c == 'b' {
            Some(BoardColumn::B)
        } else if c == 'C' || c == 'c' {
            Some(BoardColumn::C)
        } else if c == 'D' || c == 'd' {
            Some(BoardColumn::D)
        } else if c == 'E' || c == 'e' {
            Some(BoardColumn::E)
        } else if c == 'F' || c == 'f' {
            Some(BoardColumn::F)
        } else if c == 'G' || c == 'g' {
            Some(BoardColumn::G)
        } else if c == 'H' || c == 'h' {
            Some(BoardColumn::H)
        } else {
            None
        }
    }

    /// The column whose 1-based number is `v`, meaningful for `v` in `[1, 8]`.
    pub open spec fn spec_from_value(v: int) -> BoardColumn {
        if v == 1 {
            BoardColumn::A
        } else if v == 2 {
            BoardColumn::B
        } else if v == 3 {
            BoardColumn::C
        } else if v == 4 {
            BoardColumn::D
        } else if v == 5 {
            BoardColumn::E
        } else if v == 6 {
            BoardColumn::F
        } else if v == 7 {
            BoardColumn::G
        } else {
            BoardColumn::H
        }
    }

    /// The upper-case letter naming this column.
    pub fn char(self) -> (c: char)
        ensures
            c == self.spec_char(),
    {
        match self {
            Self::A => 'A',
            Self::B => 'B',
            Self::C => 'C',
            Self::D => 'D',
            Self::E => 'E',
            Self::F => 'F',
            Self::G => 'G',
            Self::H => 'H',
        }
    }

    pub fn try_from_char(c: char) -> (r: Option<Self>)
        ensures
            r == Self::spec_try_from_char(c),
    {
        match c {
            'A' | 'a' => Some(Self::A),
            'B' | 'b' => Some(Self::B),
            'C' | 'c' => Some(Self::C),
            'D' | 'd' => Some(Self::D),
            'E' | 'e' => Some(Self::E),
            'F' | 'f' => Some(Self::F),
            'G' | 'g' => Some(Self::G),
            'H' | 'h' => Some(Self::H),
            _ => None,
        }
    }

    pub fn from_char(c: char) -> (r: Self)
        requires
            Self::spec_try_from_char(c) is Some,
        ensures
            Some(r) == Self::spec_try_from_char(c),
    {
        Self::try_from_char(c).unwrap()
    }

    /// The 1-based number of this column, as an integer.
    pub fn index(self) -> (r: u8)
        ensures
            r as int == self.spec_value(),
            1 <= r <= 8,
    {
        match self {
            Self::A => 1,
            Self::B => 2,
            Self::C => 3,
            Self::D => 4,
            Self::E => 5,
            Self::F => 6,
            Self::G => 7,
            Self::H => 8,
        }
    }

    /// `index`: between 1 and 8; the caller has already checked the bound.
    pub fn from_index_unchecked(index: u8) -> (r: Self)
        requires
            1 <= index <= 8,
        ensures
            r == Self::spec_from_value(index as int),
            r.spec_value() == index as int,
    {
        match index {
            1 => Self::A,
            2 => Self::B,
            3 => Self::C,
            4 => Self::D,
            5 => Self::E,
            6 => Self::F,
            7 => Self::G,
            _ => Self::H,
        }
    }

    pub fn from_index(index: u8) -> (r: Option<Self>)
        ensures
            1 <= index <= 8 ==> (r matches Some(c) && c.spec_value() == index as int),
            !(1 <= index <= 8) ==> r is None,
    {
        if index < 1 || index > 8 {
            return None;
        }
        Some(Self::from_index_unchecked(index))
    }
}

/// Encodes a board position in a single byte: a number in `[0, 64)`,
/// linearized as `row * 8 + column` (both 0-based).
#[derive(Copy, Clone, PartialEq, Eq, Hash, Structural, Debug)]
pub struct BoardIndex {
    pub pos: u8,
}

impl View for BoardIndex {
    type V = int;

    open spec fn view(&self) -> int {
        self.pos as int
    }
}

impl BoardIndex {
    /// An index is on the board when its linear value is below 64.
    pub open spec fn wf(self) -> bool {
        self.pos < 64
    }

    /// The index naming linear square `pos`, meaningful for `pos` in `[0, 64)`.
    pub open spec fn spec_from_int(pos: int) -> BoardIndex {
        BoardIndex { pos: pos as u8 }
    }

    /// The 1-based rank (row) of this index.
    pub fn rank(self) -> (r: u8)
        ensures
            r as int == self@ / 8 + 1,
    {
        self.pos / 8 + 1
    }

    /// The 1-based file (column) of this index.
    pub fn file(self) -> (r: u8)
        ensures
            r as int == self@ % 8 + 1,
    {
        self.pos % 8 + 1
    }

    pub fn get_pos(self) -> (r: u8)
        ensures
            r as int == self@,
    {
        self.pos
    }

    /// `pos`: between 0 and 63; the caller has already checked the bound.
    pub fn new_unchecked(pos: u8) -> (r: Self)
        requires
            pos < 64,
        ensures
            r@ == pos as int,
            r.wf(),
    {
        Self { pos }
    }

    pub fn new(pos: u8) -> (r: Option<Self>)
        ensures
            pos < 64 ==> (r matches Some(i) && i@ == pos as int && i.wf()),
            pos >= 64 ==> r is None,
    {
        if pos >= 64 {
            return None;
        }
        Some(Self { pos })
    }

    /// The two-character name of the square this index denotes.
    pub open spec fn spec_describe(self) -> Seq<char> {
        seq![
            BoardColumn::spec_from_value(self@ % 8 + 1).spec_char(),
            spec_digit_char(self@ / 8 + 1),
        ]
    }

    /// Writes the square's two-character name, such as `"E4"`.
    pub fn describe(&self) -> (r: String)
        requires
            self.wf(),
        ensures
            r@ == self.spec_describe(),
    {
        let p = BoardPosition::from_index(*self);
        let r = p.describe();
        proof {
            assert(p.spec_describe() =~= self.spec_describe());
        }
        r
    }

    /// Whether adding `rhs` to this index stays on the board.
    pub open spec fn spec_add_in_bounds(self, rhs: BoardIndexDelta) -> bool {
        let new_row = self@ / 8 + rhs.delta_rank as int;
        let new_col = self@ % 8 + rhs.delta_file as int;
        &&& 0 <= new_row < 8
        &&& 0 <= new_col < 8
    }

    /// The linear value after adding `rhs`, meaningful only when in bounds.
    pub open spec fn spec_add_value(self, rhs: BoardIndexDelta) -> int {
        (self@ / 8 + rhs.delta_rank as int) * 8 + self@ % 8 + rhs.delta_file as int
    }

    /// The caller has already checked that the offset stays on the board.
    pub fn unchecked_add(self, rhs: BoardIndexDelta) -> (r: BoardIndex)
        requires
            self.spec_add_in_bounds(rhs),
        ensures
            r@ == self.spec_add_value(rhs),
            r.wf(),
    {
        self.checked_add(rhs).unwrap()
    }

    /// Offsets this index by `rhs`, failing (rather than wrapping) whenever
    /// the new rank or file would leave the board.
    pub fn checked_add(self, rhs: BoardIndexDelta) -> (r: Option<BoardIndex>)
        ensures
            self.spec_add_in_bounds(rhs) ==> (r matches Some(i) && i@ == self.spec_add_value(rhs)
                && i.wf()),
            !self.spec_add_in_bounds(rhs) ==> r is None,
    {
        let row0: i16 = (self.pos / 8) as i16;
        let col0: i16 = (self.pos % 8) as i16;
        let row1: i16 = row0 + rhs.delta_rank as i16;
        let col1: i16 = col0 + rhs.delta_file as i16;
        if 0 <= row1 && row1 < 8 && 0 <= col1 && col1 < 8 {
            Some(BoardIndex { pos: (row1 * 8 + col1) as u8 })
        } else {
            None
        }
    }
}

/// A signed (rank, file) offset between board squares.
#[derive(Copy, Clone, Debug, PartialEq, Eq, Hash, Structural)]
pub struct BoardIndexDelta {
    pub delta_rank: i8,
    pub delta_file: i8,
}

impl BoardIndexDelta {
    pub fn new(delta_rank: i8, delta_file: i8) -> (r: Self)
        ensures
            r.delta_rank == delta_rank,
            r.delta_file == delta_file,
    {
        Self { delta_rank, delta_file }
    }

    pub fn delta_file(delta_file: i8) -> (r: Self)
        ensures
            r.delta_rank == 0,
            r.delta_file == delta_file,
    {
        Self::new(0, delta_file)
    }

    pub fn delta_rank(delta_rank: i8) -> (r: Self)
        ensures
            r.delta_rank == delta_rank,
            r.delta_file == 0,
    {
        Self::new(delta_rank, 0)
    }
}

/// A (row, column) square name, with the row between 1 and 8.
#[derive(Copy, Clone, Debug, PartialEq, Eq, Hash, Structural)]
pub struct BoardPosition {
    pub row: u8,
    pub column: BoardColumn,
}

impl BoardPosition {
    /// A position is well formed when its row is between 1 and 8.
    pub open spec fn wf(self) -> bool {
        1 <= self.row <= 8
    }

    /// `row`: between 1 and 8; the caller has already checked the bound.
    pub fn new_unchecked(row: u8, column: BoardColumn) -> (r: Self)
        requires
            1 <= row <= 8,
        ensures
            r.row == row,
            r.column == column,
            r.wf(),
    {
        Self { row, column }
    }

    pub fn try_new(row: u8, column: BoardColumn) -> (r: Option<Self>)
        ensures
            1 <= row <= 8 ==> (r matches Some(p) && p.row == row && p.column == column),
            !(1 <= row <= 8) ==> r is None,
    {
        if row < 1 || row > 8 {
            return None;
        }
        Some(Self { row, column })
    }

    pub fn new(row: u8, column: BoardColumn) -> (r: Self)
        requires
            1 <= row <= 8,
        ensures
            r.row == row,
            r.column == column,
            r.wf(),
    {
        Self::try_new(row, column).unwrap()
    }

    pub fn from_index(index: BoardIndex) -> (r: Self)
        requires
            index.wf(),
        ensures
            r.row as int == index@ / 8 + 1,
            r.column.spec_value() == index@ % 8 + 1,
            r.wf(),
    {
        let row = index.rank();
        let column = index.file();
        Self { row, column: BoardColumn::from_index_unchecked(column) }
    }

    pub fn to_index(self) -> (r: BoardIndex)
        requires
            self.wf(),
        ensures
            r@ == (self.row - 1) * 8 + self.column.spec_value() - 1,
            r.wf(),
    {
        let idx = (self.row - 1) * 8 + (self.column.index() - 1);
        BoardIndex::new_unchecked(idx)
    }

    /// The two-character name of this square: column letter, then row.
    pub open spec fn spec_describe(self) -> Seq<char> {
        seq![self.column.spec_char(), spec_digit_char(self.row as int)]
    }

    /// Writes the square's two-character name, such as `"E4"`.
    pub fn describe(&self) -> (r: String)
        requires
            self.wf(),
        ensures
            r@ == self.spec_describe(),
    {
        let mut out: Vec<char> = Vec::new();
        out.push(self.column.char());
        out.push(digit_to_char(self.row as u32));
        proof {
            assert(out@ =~= self.spec_describe());
        }
        chars_to_string(&out)
    }

    /// What parsing a two-character square name yields.
    pub open spec fn spec_parse(s: Seq<char>) -> Result<BoardPosition, InvalidBoardPosition> {
        if s.len() != 2 {
            Err(InvalidBoardPosition::NotLength2)
        } else if BoardColumn::spec_try_from_char(s[0]) is None {
            Err(InvalidBoardPosition::FirstNotValidColumn)
        } else if !('1' <= s[1] && s[1] <= '8') {
            Err(InvalidBoardPosition::SecondNotValidRow)
        } else {
            Ok(
                BoardPosition {
                    row: (s[1] as u8 - 48) as u8,
                    column: BoardColumn::spec_try_from_char(s[0])->0,
                },
            )
        }
    }

    /// Parses a two-character square name such as `"E4"`.
    pub fn from_str(s: &str) -> (r: Result<Self, InvalidBoardPosition>)
        ensures
            r == Self::spec_parse(s@),
            r matches Ok(p) ==> p.wf(),
    {
        let len = s.unicode_len();
        if len != 2 {
            return Err(InvalidBoardPosition::NotLength2);
        }
        let c1 = s.get_char(0);
        let c2 = s.get_char(1);
        let col = match BoardColumn::try_from_char(c1) {
            Some(col) => col,
            None => {
                return Err(InvalidBoardPosition::FirstNotValidColumn);
            },
        };
        if !('1' <= c2 && c2 <= '8') {
            return Err(InvalidBoardPosition::SecondNotValidRow);
        }
        let row = c2 as u8 - 48;
        Ok(BoardPosition { row, column: col })
    }
}

/// The linearization `index = (row - 1) * 8 + (column - 1)` is a bijection:
/// every index in `[0, 64)` maps to the (row, column) pair of its rank and
/// file and back to itself, and every valid (row, column) pair maps to an
/// index in `[0, 64)` and back to itself.
pub proof fn lemma_index_position_bijection(index: BoardIndex, p: BoardPosition)
    ensures
        index.wf() ==> ((index@ / 8 + 1) - 1) * 8 + (index@ % 8 + 1) - 1 == index@,
        p.wf() ==> ({
            let idx = (p.row - 1) * 8 + p.column.spec_value() - 1;
            &&& 0 <= idx < 64
            &&& idx / 8 + 1 == p.row
            &&& idx % 8 + 1 == p.column.spec_value()
        }),
{
}

#[derive(Copy, Clone, PartialEq, Eq, Debug, Hash, Structural)]
pub enum InvalidBoardPosition {
    NotLength2,
    FirstNotValidColumn,
    SecondNotValidRow,
}

impl core::str::FromStr for BoardPosition {
    type Err = InvalidBoardPosition;

    fn from_str(s: &str) -> Result<Self, Self::Err> {
        BoardPosition::from_str(s)
    }
}

} // verus!
