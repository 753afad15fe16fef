use knix::board_position::BoardIndex;
use knix::cell_buffer::{BoardCellRepr, WholeBoardCellBuffer};
use knix::piece::BoardPiece;

fn count_pieces(b: &WholeBoardCellBuffer) -> usize {
    b.iter_pieces().iter().filter(|(_, it)| it.is_some()).count()
}

#[test]
fn get_pieces() {
    let x = BoardCellRepr::from_pieces(None, None);
    assert_eq!(x.get_piece0(), None);
    assert_eq!(x.get_piece1(), None);

    let x = BoardCellRepr::from_pieces(None, Some(BoardPiece::WhitePawn));
    assert_eq!(x.get_piece0(), None);
    assert_eq!(x.get_piece1(), Some(BoardPiece::WhitePawn));

    let x = BoardCellRepr::from_pieces(Some(BoardPiece::BlackBishop), Some(BoardPiece::BlackPawn));
    assert_eq!(x.get_piece0(), Some(BoardPiece::BlackBishop));
    assert_eq!(x.get_piece1(), Some(BoardPiece::BlackPawn));

    let x = BoardCellRepr::from_pieces(Some(BoardPiece::BlackBishop), None);
    assert_eq!(x.get_piece0(), Some(BoardPiece::BlackBishop));
    assert_eq!(x.get_piece1(), None);
}

#[test]
fn with_set_piece() {
    let mut x = BoardCellRepr::from_pieces(None, None);
    assert_eq!(x.get_piece0(), None);
    assert_eq!(x.get_piece1(), None);

    x.set_piece0(Some(BoardPiece::WhiteKing));
    assert_eq!(x.get_piece0(), Some(BoardPiece::WhiteKing));
    assert_eq!(x.get_piece1(), None);

    x.set_piece1(Some(BoardPiece::BlackPawn));
    assert_eq!(x.get_piece0(), Some(BoardPiece::WhiteKing));
    assert_eq!(x.get_piece1(), Some(BoardPiece::BlackPawn));

    x.set_piece0(None);
    assert_eq!(x.get_piece0(), None);
    assert_eq!(x.get_piece1(), Some(BoardPiece::BlackPawn));

    x.set_piece1(None);
    assert_eq!(x.get_piece0(), None);
    assert_eq!(x.get_piece1(), None);
}

#[test]
fn get_and_set_pieces_in_whole_board_buffer() {
    let mut buffer = WholeBoardCellBuffer::init_empty();
    assert_eq!(0, count_pieces(&buffer));
    let bi0 = BoardIndex::new(0).unwrap();
    let bi1 = BoardIndex::new(1).unwrap();
    let bi2 = BoardIndex::new(2).unwrap();
    buffer.set_piece(bi0, Some(BoardPiece::BlackPawn));
    assert_eq!(1, count_pieces(&buffer));
    assert_eq!(Some(BoardPiece::BlackPawn), buffer.get_piece(bi0));
    assert_eq!(None, buffer.get_piece(bi1));
    assert_eq!(None, buffer.get_piece(bi2));
    buffer.set_piece(bi1, Some(BoardPiece::BlackQueen));
    assert_eq!(2, count_pieces(&buffer));
    assert_eq!(Some(BoardPiece::BlackPawn), buffer.get_piece(bi0));
    assert_eq!(Some(BoardPiece::BlackQueen), buffer.get_piece(bi1));
    assert_eq!(None, buffer.get_piece(bi2));
    buffer.set_piece(bi2, Some(BoardPiece::WhiteKing));
    assert_eq!(3, count_pieces(&buffer));
    assert_eq!(Some(BoardPiece::BlackPawn), buffer.get_piece(bi0));
    assert_eq!(Some(BoardPiece::BlackQueen), buffer.get_piece(bi1));
    assert_eq!(Some(BoardPiece::WhiteKing), buffer.get_piece(bi2));
    buffer.set_piece(bi2, Some(BoardPiece::BlackKing));
    assert_eq!(3, count_pieces(&buffer));
    assert_eq!(Some(BoardPiece::BlackPawn), buffer.get_piece(bi0));
    assert_eq!(Some(BoardPiece::BlackQueen), buffer.get_piece(bi1));
    assert_eq!(Some(BoardPiece::BlackKing), buffer.get_piece(bi2));
    buffer.set_piece(bi1, None);
    assert_eq!(2, count_pieces(&buffer));
    assert_eq!(Some(BoardPiece::BlackPawn), buffer.get_piece(bi0));
    assert_eq!(None, buffer.get_piece(bi1));
    assert_eq!(Some(BoardPiece::BlackKing), buffer.get_piece(bi2));
    buffer.set_piece(bi0, None);
    assert_eq!(1, count_pieces(&buffer));
    assert_eq!(None, buffer.get_piece(bi0));
    assert_eq!(None, buffer.get_piece(bi1));
    assert_eq!(Some(BoardPiece::BlackKing), buffer.get_piece(bi2));
    buffer.set_piece(bi2, None);
    assert_eq!(0, count_pieces(&buffer));
    assert_eq!(None, buffer.get_piece(bi0));
    assert_eq!(None, buffer.get_piece(bi1));
    assert_eq!(None, buffer.get_piece(bi2));
}
