use chess_features::board::{encode_board, BoardState, EncodedBoard};

fn empty_cells() -> Vec<i8> {
    vec![0i8; 64]
}

#[test]
fn encoding_is_seventy_two_wide() {
    let state = BoardState {
        cells: empty_cells(),
        white_to_move: true,
        castle_white_king: true,
        castle_white_queen: true,
        castle_black_king: true,
        castle_black_queen: true,
        ep_square: None,
        halfmove_clock: 0,
    };
    let enc: EncodedBoard = encode_board(&state);
    assert_eq!(enc.cells.len(), 72);
}

#[test]
fn encoding_layout_is_exact() {
    let mut cells = empty_cells();
    cells[0] = 4; // white rook on the first square
    cells[12] = 1; // white pawn
    cells[59] = -5; // black queen
    let state = BoardState {
        cells: cells.clone(),
        white_to_move: false,
        castle_white_king: true,
        castle_white_queen: false,
        castle_black_king: false,
        castle_black_queen: true,
        ep_square: Some(20),
        halfmove_clock: 7,
    };
    let enc = encode_board(&state);
    assert_eq!(&enc.cells[0..64], &cells[..]);
    assert_eq!(enc.cells[64], -1);
    assert_eq!(enc.cells[65], 1);
    assert_eq!(enc.cells[66], 0);
    assert_eq!(enc.cells[67], 0);
    assert_eq!(enc.cells[68], 1);
    assert_eq!(enc.cells[69], 20);
    assert_eq!(enc.cells[70], 7);
    assert_eq!(enc.cells[71], 0);
}

#[test]
fn absent_en_passant_encodes_as_zero() {
    let state = BoardState {
        cells: empty_cells(),
        white_to_move: true,
        castle_white_king: false,
        castle_white_queen: false,
        castle_black_king: false,
        castle_black_queen: false,
        ep_square: None,
        halfmove_clock: 1,
    };
    let enc = encode_board(&state);
    assert_eq!(enc.cells[64], 1);
    assert_eq!(enc.cells[69], 0);
}

#[test]
fn half_move_clock_keeps_low_bits() {
    let mk = |clock: u32| BoardState {
        cells: empty_cells(),
        white_to_move: true,
        castle_white_king: false,
        castle_white_queen: false,
        castle_black_king: false,
        castle_black_queen: false,
        ep_square: None,
        halfmove_clock: clock,
    };
    assert_eq!(encode_board(&mk(127)).cells[70], 127);
    assert_eq!(encode_board(&mk(128)).cells[70], -128);
    assert_eq!(encode_board(&mk(300)).cells[70], 44);
    assert_eq!(encode_board(&mk(200)).cells[70], -56);
}
