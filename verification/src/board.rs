//! The plain-value model of a rules-engine position and its fixed-width
//! numeric encoding.

use vstd::prelude::*;

verus! {

/// A position reduced to the plain values the encoder reads: piece placement
/// as signed codes, side to move, castling rights, en-passant target and
/// half-move clock.
pub struct BoardState {
    /// 64 cells in square order: 0 empty, 1..6 white pawn..king, negated for
    /// black.
    pub cells: Vec<i8>,
    /// True when white is to move.
    pub white_to_move: bool,
    pub castle_white_king: bool,
    pub castle_white_queen: bool,
    pub castle_black_king: bool,
    pub castle_black_queen: bool,
    /// The en-passant target square index, when a legal en-passant capture
    /// exists.
    pub ep_square: Option<u8>,
    /// Moves since the last pawn move or capture.
    pub halfmove_clock: u32,
}

impl BoardState {
    /// Sixty-four cells with piece codes in range, and an en-passant target
    /// on the board.
    pub open spec fn wf(self) -> bool {
        &&& self.cells@.len() == 64
        &&& forall|i: int| 0 <= i < 64 ==> -6 <= #[trigger] self.cells@[i] <= 6
        &&& match self.ep_square {
            Some(s) => s < 64,
            None => true,
        }
    }
}

/// One immutable fixed-width numeric snapshot of a position.
pub struct EncodedBoard {
    pub cells: Vec<i8>,
}

impl EncodedBoard {
    pub open spec fn wf(self) -> bool {
        encoded_wf(self.cells@)
    }
}

fn copy_cells(v: &Vec<i8>) -> (r: Vec<i8>)
    ensures
        r@ == v@,
{
    let mut out: Vec<i8> = Vec::new();
    let mut i: usize = 0;
    while i < v.len()
        invariant
            i <= v@.len(),
            out@ == v@.subrange(0, i as int),
        decreases v@.len() - i,
    {
        out.push(v[i]);
        proof {
            assert(out@ =~= v@.subrange(0, i + 1));
        }
        i += 1;
    }
    proof {
        assert(out@ =~= v@);
    }
    out
}

impl Clone for EncodedBoard {
    /// A clone carries the same cells.
    fn clone(&self) -> (r: Self)
        ensures
            r.cells@ == self.cells@,
    {
        EncodedBoard { cells: copy_cells(&self.cells) }
    }
}

/// The half-move clock is stored in the encoding's single signed byte; only
/// its low eight bits are kept.
pub open spec fn clock_code(c: u32) -> i8 {
    if c % 256 < 128 {
        (c % 256) as i8
    } else {
        ((c % 256) - 256) as i8
    }
}

/// The 72-element layout: 64 piece cells, side to move, four castling flags,
/// the en-passant target (0 when none), the half-move clock, and a reserved
/// trailing zero for the full-move count.
pub open spec fn encode_spec(b: BoardState) -> Seq<i8> {
    b.cells@.push(if b.white_to_move {
        1i8
    } else {
        -1i8
    }).push(if b.castle_white_king {
        1i8
    } else {
        0i8
    }).push(if b.castle_white_queen {
        1i8
    } else {
        0i8
    }).push(if b.castle_black_king {
        1i8
    } else {
        0i8
    }).push(if b.castle_black_queen {
        1i8
    } else {
        0i8
    }).push(match b.ep_square {
        Some(s) => s as i8,
        None => 0i8,
    }).push(clock_code(b.halfmove_clock)).push(0i8)
}

/// Well-formedness of an encoded snapshot: exactly 72 elements, cell codes
/// within plus or minus six, side to move plus or minus one, castling flags
/// zero or one, the en-passant field on the board, and a zero reserved tail.
pub open spec fn encoded_wf(s: Seq<i8>) -> bool {
    &&& s.len() == 72
    &&& forall|i: int| 0 <= i < 64 ==> -6 <= #[trigger] s[i] <= 6
    &&& (s[64] == 1 || s[64] == -1)
    &&& (s[65] == 0 || s[65] == 1)
    &&& (s[66] == 0 || s[66] == 1)
    &&& (s[67] == 0 || s[67] == 1)
    &&& (s[68] == 0 || s[68] == 1)
    &&& 0 <= s[69] < 64
    &&& s[71] == 0
}

/// Every encoding of a well-formed board state is itself well formed.
pub proof fn lemma_encode_well_formed(b: BoardState)
    requires
        b.wf(),
    ensures
        encoded_wf(encode_spec(b)),
        encode_spec(b).len() == 72,
{
    let s = encode_spec(b);
    assert(forall|i: int| 0 <= i < 64 ==> s[i] == b.cells@[i]);
}

/// Flattens a well-formed board state into its 72-element snapshot.
pub fn encode_board(b: &BoardState) -> (r: EncodedBoard)
    requires
        b.wf(),
    ensures
        r.cells@ == encode_spec(*b),
        r.wf(),
{
    let mut out: Vec<i8> = Vec::new();
    let mut i: usize = 0;
    while i < b.cells.len()
        invariant
            b.cells@.len() == 64,
            i <= 64,
            out@ == b.cells@.subrange(0, i as int),
        decreases 64 - i,
    {
        out.push(b.cells[i]);
        proof {
            assert(out@ =~= b.cells@.subrange(0, i + 1));
        }
        i += 1;
    }
    proof {
        assert(out@ =~= b.cells@);
    }
    out.push(if b.white_to_move {
        1i8
    } else {
        -1i8
    });
    out.push(if b.castle_white_king {
        1i8
    } else {
        0i8
    });
    out.push(if b.castle_white_queen {
        1i8
    } else {
        0i8
    });
    out.push(if b.castle_black_king {
        1i8
    } else {
        0i8
    });
    out.push(if b.castle_black_queen {
        1i8
    } else {
        0i8
    });
    match b.ep_square {
        Some(s) => out.push(s as i8),
        None => out.push(0i8),
    }
    let clock_low: u32 = b.halfmove_clock % 256;
    if clock_low < 128 {
        out.push(clock_low as i8);
    } else {
        out.push((clock_low as i32 - 256) as i8);
    }
    out.push(0i8);
    proof {
        assert(out@ =~= encode_spec(*b));
        lemma_encode_well_formed(*b);
    }
    EncodedBoard { cells: out }
}

} // verus!
