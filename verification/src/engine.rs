//! The trusted boundary to the chess rules engine.
//!
//! The engine's position type is opaque to the verifier. Uninterpreted names
//! stand for what a position observably holds (the piece on each square, the
//! side to move, castling rights, en-passant target, half-move clock, and
//! whether a move token resolves); small trusted wrappers tie the engine's
//! calls to those names, and the verified observers below turn a position
//! into the library's own plain-value model.

use crate::board::{encode_board, encode_spec, clock_code, BoardState, EncodedBoard};
use vstd::prelude::*;

verus! {

#[verifier::external_type_specification]
#[verifier::external_body]
pub struct ExChess(shakmaty::Chess);

/// The piece on square `sq`: its role numbered one (pawn) through six (king),
/// and whether it is white.
pub uninterp spec fn piece_at_spec(p: shakmaty::Chess, sq: int) -> Option<(u8, bool)>;

/// Whether white is to move in `p`.
pub uninterp spec fn turn_white_spec(p: shakmaty::Chess) -> bool;

/// Whether the given side (white, king-side) still has the given castling
/// right in `p`.
pub uninterp spec fn castle_spec(p: shakmaty::Chess, white: bool, kingside: bool) -> bool;

/// The square index of a legal en-passant capture target in `p`, if any.
pub uninterp spec fn ep_spec(p: shakmaty::Chess) -> Option<u8>;

/// The half-move clock of `p`.
pub uninterp spec fn halfmove_spec(p: shakmaty::Chess) -> u32;

/// Whether `token` resolves to a legal move in `p`.
pub uninterp spec fn san_resolves(p: shakmaty::Chess, token: Seq<u8>) -> bool;

/// The piece on square `sq` of the standard starting position: the white
/// back rank on squares 0..8, the pawn rows, and the black back rank on
/// squares 56..64, with roles numbered one (pawn) through six (king).
pub open spec fn start_piece(sq: int) -> Option<(u8, bool)> {
    if sq == 0 || sq == 7 {
        Some((4u8, true))
    } else if sq == 1 || sq == 6 {
        Some((2u8, true))
    } else if sq == 2 || sq == 5 {
        Some((3u8, true))
    } else if sq == 3 {
        Some((5u8, true))
    } else if sq == 4 {
        Some((6u8, true))
    } else if 8 <= sq < 16 {
        Some((1u8, true))
    } else if 48 <= sq < 56 {
        Some((1u8, false))
    } else if sq == 56 || sq == 63 {
        Some((4u8, false))
    } else if sq == 57 || sq == 62 {
        Some((2u8, false))
    } else if sq == 58 || sq == 61 {
        Some((3u8, false))
    } else if sq == 59 {
        Some((5u8, false))
    } else if sq == 60 {
        Some((6u8, false))
    } else {
        None
    }
}

/// The observable facts of the standard starting position: standard piece
/// placement, white to move, all four castling rights, no en-passant
/// target, a zero half-move clock.
pub open spec fn standard_start(p: shakmaty::Chess) -> bool {
    &&& forall|sq: int| 0 <= sq < 64 ==> #[trigger] piece_at_spec(p, sq) == start_piece(sq)
    &&& turn_white_spec(p)
    &&& castle_spec(p, true, true)
    &&& castle_spec(p, true, false)
    &&& castle_spec(p, false, true)
    &&& castle_spec(p, false, false)
    &&& ep_spec(p) is None
    &&& halfmove_spec(p) == 0
}

/// Relies on shakmaty's `Chess::default` (`Chess::new`): the standard
/// starting position, with the standard placement, white to move, full
/// castling rights, no en-passant square and a zero half-move clock.
#[verifier::external_body]
pub(crate) fn starting_position() -> (r: shakmaty::Chess)
    ensures
        standard_start(r),
{
    shakmaty::Chess::default()
}

/// Relies on shakmaty's `San::from_ascii`, `San::to_move` and
/// `Position::play_unchecked`: the token is parsed as standard algebraic
/// notation, resolved against the position, and applied when it names a legal
/// move; on any failure the position is left untouched.
#[verifier::external_body]
pub(crate) fn play_san_token(pos: &mut shakmaty::Chess, token: &[u8]) -> (ok: bool)
    ensures
        ok == san_resolves(*old(pos), token@),
        !ok ==> *final(pos) == *old(pos),
{
    match shakmaty::san::San::from_ascii(token) {
        Ok(san) => match san.to_move(pos) {
            Ok(m) => {
                shakmaty::Position::play_unchecked(pos, &m);
                true
            },
            Err(_) => false,
        },
        Err(_) => false,
    }
}

/// Relies on shakmaty's `Board::piece_at` via `Position::board`: the piece on
/// one square; shakmaty numbers roles one (pawn) through six (king).
#[verifier::external_body]
pub(crate) fn piece_role_color(pos: &shakmaty::Chess, sq: u8) -> (r: Option<(u8, bool)>)
    requires
        sq < 64,
    ensures
        r == piece_at_spec(*pos, sq as int),
        match r {
            Some(p) => 1 <= p.0 <= 6,
            None => true,
        },
{
    shakmaty::Position::board(pos).piece_at(shakmaty::Square::new(sq as u32)).map(
        |p: shakmaty::Piece| (p.role as u8, p.color.is_white()),
    )
}

/// Relies on shakmaty's `Position::turn`.
#[verifier::external_body]
pub(crate) fn turn_is_white(pos: &shakmaty::Chess) -> (r: bool)
    ensures
        r == turn_white_spec(*pos),
{
    shakmaty::Position::turn(pos).is_white()
}

/// Relies on shakmaty's `Castles::has` via `Position::castles`.
#[verifier::external_body]
pub(crate) fn has_castling_right(pos: &shakmaty::Chess, white: bool, kingside: bool) -> (r: bool)
    ensures
        r == castle_spec(*pos, white, kingside),
{
    let color = if white {
        shakmaty::Color::White
    } else {
        shakmaty::Color::Black
    };
    let side = if kingside {
        shakmaty::CastlingSide::KingSide
    } else {
        shakmaty::CastlingSide::QueenSide
    };
    shakmaty::Position::castles(pos).has(color, side)
}

/// Relies on shakmaty's `Position::ep_square` in legal mode: the en-passant
/// target of a position is a square, numbered below 64.
#[verifier::external_body]
pub(crate) fn ep_square_index(pos: &shakmaty::Chess) -> (r: Option<u8>)
    ensures
        r == ep_spec(*pos),
        match r {
            Some(s) => s < 64,
            None => true,
        },
{
    shakmaty::Position::ep_square(pos, shakmaty::EnPassantMode::Legal).map(
        |s: shakmaty::Square| s as u8,
    )
}

/// Relies on shakmaty's `Position::halfmoves`.
#[verifier::external_body]
pub(crate) fn halfmove_count(pos: &shakmaty::Chess) -> (r: u32)
    ensures
        r == halfmove_spec(*pos),
{
    shakmaty::Position::halfmoves(pos)
}

/// The signed cell code of one observed square: the role number, negated for
/// black, zero for an empty square.
pub open spec fn cell_code(p: Option<(u8, bool)>) -> int {
    match p {
        None => 0,
        Some(pc) => if pc.1 {
            pc.0 as int
        } else {
            -(pc.0 as int)
        },
    }
}

/// The board-state model that observing position `p` yields.
pub open spec fn observed_state(p: shakmaty::Chess, b: BoardState) -> bool {
    &&& b.cells@.len() == 64
    &&& forall|i: int|
        0 <= i < 64 ==> (#[trigger] b.cells@[i]) as int == cell_code(piece_at_spec(p, i))
    &&& b.white_to_move == turn_white_spec(p)
    &&& b.castle_white_king == castle_spec(p, true, true)
    &&& b.castle_white_queen == castle_spec(p, true, false)
    &&& b.castle_black_king == castle_spec(p, false, true)
    &&& b.castle_black_queen == castle_spec(p, false, false)
    &&& b.ep_square == ep_spec(p)
    &&& b.halfmove_clock == halfmove_spec(p)
}

/// Reads the engine's position into the library's plain-value board model.
pub fn observe_position(pos: &shakmaty::Chess) -> (b: BoardState)
    ensures
        b.wf(),
        observed_state(*pos, b),
{
    let mut cells: Vec<i8> = Vec::new();
    let mut sq: u8 = 0;
    while sq < 64
        invariant
            sq <= 64,
            cells@.len() == sq,
            forall|i: int|
                0 <= i < sq ==> (#[trigger] cells@[i]) as int == cell_code(
                    piece_at_spec(*pos, i),
                ),
            forall|i: int| 0 <= i < sq ==> -6 <= #[trigger] cells@[i] <= 6,
        decreases 64 - sq,
    {
        match piece_role_color(pos, sq) {
            None => cells.push(0i8),
            Some((role, white)) => {
                let code: i8 = role as i8;
                if white {
                    cells.push(code);
                } else {
                    cells.push(-code);
                }
            },
        }
        sq += 1;
    }
    BoardState {
        cells,
        white_to_move: turn_is_white(pos),
        castle_white_king: has_castling_right(pos, true, true),
        castle_white_queen: has_castling_right(pos, true, false),
        castle_black_king: has_castling_right(pos, false, true),
        castle_black_queen: has_castling_right(pos, false, false),
        ep_square: ep_square_index(pos),
        halfmove_clock: halfmove_count(pos),
    }
}

/// The 72-element code sequence that encoding position `p` must produce.
pub open spec fn position_code(p: shakmaty::Chess) -> Seq<int> {
    Seq::new(64, |i: int| cell_code(piece_at_spec(p, i))).push(
        if turn_white_spec(p) {
            1
        } else {
            -1
        },
    ).push(if castle_spec(p, true, true) {
        1
    } else {
        0
    }).push(if castle_spec(p, true, false) {
        1
    } else {
        0
    }).push(if castle_spec(p, false, true) {
        1
    } else {
        0
    }).push(if castle_spec(p, false, false) {
        1
    } else {
        0
    }).push(match ep_spec(p) {
        Some(s) => s as int,
        None => 0,
    }).push(clock_code(halfmove_spec(p)) as int).push(0)
}

/// The integer view of a signed-byte sequence.
pub open spec fn as_ints(s: Seq<i8>) -> Seq<int> {
    s.map_values(|x: i8| x as int)
}

/// Snapshots the engine's position as one fixed-width encoded board.
pub fn encode_position(pos: &shakmaty::Chess) -> (r: EncodedBoard)
    ensures
        r.wf(),
        as_ints(r.cells@) == position_code(*pos),
{
    let st = observe_position(pos);
    let enc = encode_board(&st);
    proof {
        assert(enc.cells@ == encode_spec(st));
        assert(as_ints(enc.cells@) =~= position_code(*pos));
    }
    enc
}

} // verus!
