pub mod board;
pub mod board_position;
pub mod castle_rights;
pub mod cell_buffer;
pub mod clocks;
pub mod en_passant_target;
pub mod fen_text;
pub mod game_state;
pub mod move_rules;
pub mod piece;
pub mod piece_move;
