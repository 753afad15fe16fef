use knix::board_position::{BoardColumn, BoardIndex, BoardPosition};

#[test]
fn can_parse_all_board_positions() {
    for col in [
        BoardColumn::A,
        BoardColumn::B,
        BoardColumn::C,
        BoardColumn::D,
        BoardColumn::E,
        BoardColumn::F,
        BoardColumn::G,
        BoardColumn::H,
    ] {
        for row in 1..8 {
            let str = format!("{}{}", col.char(), row);
            assert_eq!(Ok(BoardPosition::new_unchecked(row, col)), str.parse());
        }
    }
}

#[test]
fn index_position_bijection() {
    for pos in 0..64u8 {
        let index = BoardIndex::new(pos).unwrap();
        let p = BoardPosition::from_index(index);
        assert_eq!(p.to_index().get_pos(), pos);
    }
    for col in [
        BoardColumn::A,
        BoardColumn::B,
        BoardColumn::C,
        BoardColumn::D,
        BoardColumn::E,
        BoardColumn::F,
        BoardColumn::G,
        BoardColumn::H,
    ] {
        for row in 1..=8u8 {
            let p = BoardPosition::new(row, col);
            let back = BoardPosition::from_index(p.to_index());
            assert_eq!(back, p);
        }
    }
}
