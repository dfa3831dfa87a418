//! The per-game visitor: a state machine driven by one pass over a game's
//! headers, move tokens, quality markers and comments, accumulating one
//! record per game.

use crate::annotations::{extract_win_chances, extraction_spec};
use crate::board::EncodedBoard;
use crate::engine::{
    as_ints, encode_position, play_san_token, position_code, san_resolves, standard_start,
    starting_position,
};
use crate::text::{contains_bytes, contains_bytes_spec, lower_bytes, parse_i32, parse_i32_spec, to_lower};
use vstd::prelude::*;

verus! {

/// The bytes of the header key naming the event.
pub open spec fn event_key() -> Seq<u8> {
    seq![101u8, 118u8, 101u8, 110u8, 116u8]
}

/// The bytes of the header key carrying white's rating.
pub open spec fn white_rating_key() -> Seq<u8> {
    seq![119u8, 104u8, 105u8, 116u8, 101u8, 101u8, 108u8, 111u8]
}

/// The bytes of the header key carrying black's rating.
pub open spec fn black_rating_key() -> Seq<u8> {
    seq![98u8, 108u8, 97u8, 99u8, 107u8, 101u8, 108u8, 111u8]
}

/// The first fast-time-control marker looked for in the event header.
pub open spec fn blitz_marker() -> Seq<u8> {
    seq![98u8, 108u8, 105u8, 116u8, 122u8]
}

/// The second fast-time-control marker looked for in the event header.
pub open spec fn bullet_marker() -> Seq<u8> {
    seq![98u8, 117u8, 108u8, 108u8, 101u8, 116u8]
}

/// The integer view of a probability column.
pub open spec fn micro_ints(v: Seq<u32>) -> Seq<int> {
    v.map_values(|x: u32| x as int)
}

/// One accepted game's accumulated output, immutable once produced.
pub struct GameRecord {
    /// White's rating, zero when the header was absent.
    pub white_rating: i32,
    /// Black's rating, zero when the header was absent.
    pub black_rating: i32,
    /// Move-quality codes, in order of appearance.
    pub quality_codes: Vec<u8>,
    /// For each quality code, the one-based index of the move it annotates,
    /// as the index reached when the marker was read, less one.
    pub quality_indices: Vec<i32>,
    /// Win probabilities in micro-units, in extraction order.
    pub win_chances: Vec<u32>,
    /// One encoded board per successfully applied move, in play order.
    pub boards: Vec<EncodedBoard>,
}

impl GameRecord {
    pub open spec fn wf(self) -> bool {
        &&& self.quality_codes@.len() == self.quality_indices@.len()
        &&& forall|i: int|
            0 <= i < self.win_chances@.len() ==> #[trigger] self.win_chances@[i] <= 1_000_000
        &&& forall|i: int| 0 <= i < self.boards@.len() ==> (#[trigger] self.boards@[i]).wf()
    }
}

/// The state carried across one game: header findings, the running rules
/// engine position, and the accumulators that become the game's record.
pub struct GameVisitor {
    pub white_rating: i32,
    pub black_rating: i32,
    /// Set when a rating header failed to parse; such a game yields no
    /// record.
    pub rating_error: bool,
    /// Set when the event header names a fast time control; such a game is
    /// abandoned at the end of its headers.
    pub skip: bool,
    /// One-based count of move tokens seen, resolved or not.
    pub move_index: i32,
    pub quality_codes: Vec<u8>,
    pub quality_indices: Vec<i32>,
    pub win_chances: Vec<u32>,
    pub boards: Vec<EncodedBoard>,
    /// The rules-engine position after the moves applied so far.
    pub position: shakmaty::Chess,
}

impl GameVisitor {
    pub open spec fn wf(self) -> bool {
        &&& 0 <= self.move_index
        &&& self.boards@.len() <= self.move_index
        &&& self.quality_codes@.len() == self.quality_indices@.len()
        &&& forall|i: int|
            0 <= i < self.win_chances@.len() ==> #[trigger] self.win_chances@[i] <= 1_000_000
        &&& forall|i: int| 0 <= i < self.boards@.len() ==> (#[trigger] self.boards@[i]).wf()
    }

    /// All accumulators empty, all flags down, the move index at zero.
    pub open spec fn cleared(self) -> bool {
        &&& self.white_rating == 0
        &&& self.black_rating == 0
        &&& !self.rating_error
        &&& !self.skip
        &&& self.move_index == 0
        &&& self.quality_codes@.len() == 0
        &&& self.quality_indices@.len() == 0
        &&& self.win_chances@.len() == 0
        &&& self.boards@.len() == 0
    }

    pub fn new() -> (v: GameVisitor)
        ensures
            v.wf(),
            v.cleared(),
            standard_start(v.position),
    {
        GameVisitor {
            white_rating: 0,
            black_rating: 0,
            rating_error: false,
            skip: false,
            move_index: 0,
            quality_codes: Vec::new(),
            quality_indices: Vec::new(),
            win_chances: Vec::new(),
            boards: Vec::new(),
            position: starting_position(),
        }
    }

    /// Starts a new game: the standard starting position, cleared
    /// accumulators, flags down.
    pub fn begin_game(&mut self)
        ensures
            final(self).wf(),
            final(self).cleared(),
            standard_start(final(self).position),
    {
        self.white_rating = 0;
        self.black_rating = 0;
        self.rating_error = false;
        self.skip = false;
        self.move_index = 0;
        self.quality_codes = Vec::new();
        self.quality_indices = Vec::new();
        self.win_chances = Vec::new();
        self.boards = Vec::new();
        self.position = starting_position();
    }

    /// What one header does to the state: an event header naming a fast
    /// time control raises the skip flag; a rating header sets the rating,
    /// or raises the rating-error flag when its value does not parse; any
    /// other header changes nothing. Keys and values are matched after
    /// ASCII lower-casing.
    pub open spec fn header_outcome(pre: GameVisitor, key: Seq<u8>, value: Seq<u8>) -> GameVisitor {
        let k = lower_bytes(key);
        let v = lower_bytes(value);
        if k == event_key() {
            GameVisitor {
                skip: pre.skip || contains_bytes_spec(v, blitz_marker()) || contains_bytes_spec(
                    v,
                    bullet_marker(),
                ),
                ..pre
            }
        } else if k == white_rating_key() {
            match parse_i32_spec(v) {
                Some(val) => GameVisitor { white_rating: val as i32, ..pre },
                None => GameVisitor { rating_error: true, ..pre },
            }
        } else if k == black_rating_key() {
            match parse_i32_spec(v) {
                Some(val) => GameVisitor { black_rating: val as i32, ..pre },
                None => GameVisitor { rating_error: true, ..pre },
            }
        } else {
            pre
        }
    }

    /// Ingests one header key/value pair.
    pub fn header(&mut self, key: &[u8], value: &[u8])
        requires
            old(self).wf(),
        ensures
            final(self).wf(),
            *final(self) == Self::header_outcome(*old(self), key@, value@),
    {
        let key_l: Vec<u8> = to_lower(key);
        let value_l: Vec<u8> = to_lower(value);
        if is_event_key(&key_l) {
            let fast = contains_bytes(value_l.as_slice(), blitz_needle().as_slice())
                || contains_bytes(value_l.as_slice(), bullet_needle().as_slice());
            if fast {
                self.skip = true;
            }
        } else if is_white_rating_key(&key_l) {
            match parse_i32(&value_l) {
                Some(val) => self.white_rating = val,
                None => self.rating_error = true,
            }
        } else if is_black_rating_key(&key_l) {
            match parse_i32(&value_l) {
                Some(val) => self.black_rating = val,
                None => self.rating_error = true,
            }
        }
    }

    /// Consumes one move token: the move index advances whether or not the
    /// token resolves against the position, and a well-formed board
    /// snapshot is appended exactly when it does.
    pub fn san(&mut self, token: &[u8])
        requires
            old(self).wf(),
            old(self).move_index < i32::MAX,
        ensures
            final(self).wf(),
            final(self).move_index == old(self).move_index + 1,
            san_resolves(old(self).position, token@) ==> {
                &&& final(self).boards@.len() == old(self).boards@.len() + 1
                &&& final(self).boards@.subrange(0, old(self).boards@.len() as int) == old(
                    self,
                ).boards@
                &&& final(self).boards@.last().wf()
                &&& as_ints(final(self).boards@.last().cells@) == position_code(
                    final(self).position,
                )
            },
            !san_resolves(old(self).position, token@) ==> final(self).boards == old(self).boards
                && final(self).position == old(self).position,
            final(self).win_chances == old(self).win_chances,
            final(self).quality_codes == old(self).quality_codes,
            final(self).quality_indices == old(self).quality_indices,
            final(self).white_rating == old(self).white_rating,
            final(self).black_rating == old(self).black_rating,
            final(self).skip == old(self).skip,
            final(self).rating_error == old(self).rating_error,
    {
        self.move_index = self.move_index + 1;
        let ok: bool = play_san_token(&mut self.position, token);
        if ok {
            let enc = encode_position(&self.position);
            self.boards.push(enc);
            proof {
                assert(self.boards@.subrange(0, old(self).boards@.len() as int) =~= old(
                    self,
                ).boards@);
            }
        }
    }

    /// Records one move-quality code against the move most recently
    /// processed: the marker is read after its move token, so it refers to
    /// the current move index less one.
    pub fn nag(&mut self, code: u8)
        requires
            old(self).wf(),
        ensures
            final(self).wf(),
            final(self).quality_codes@ == old(self).quality_codes@.push(code),
            final(self).quality_indices@ == old(self).quality_indices@.push(
                (old(self).move_index - 1) as i32,
            ),
            final(self).win_chances == old(self).win_chances,
            final(self).boards == old(self).boards,
            final(self).position == old(self).position,
            final(self).move_index == old(self).move_index,
            final(self).white_rating == old(self).white_rating,
            final(self).black_rating == old(self).black_rating,
            final(self).skip == old(self).skip,
            final(self).rating_error == old(self).rating_error,
    {
        let idx: i32 = self.move_index - 1;
        self.quality_codes.push(code);
        self.quality_indices.push(idx);
    }

    /// Extracts annotations from one comment and appends the resulting win
    /// probabilities in order; a comment whose extraction fails contributes
    /// nothing.
    pub fn comment(&mut self, raw: &[u8])
        requires
            old(self).wf(),
        ensures
            final(self).wf(),
            (match extraction_spec(raw@) {
                Ok(vals) => micro_ints(final(self).win_chances@) == micro_ints(
                    old(self).win_chances@,
                ) + vals,
                Err(_) => final(self).win_chances == old(self).win_chances,
            }),
            final(self).quality_codes == old(self).quality_codes,
            final(self).quality_indices == old(self).quality_indices,
            final(self).boards == old(self).boards,
            final(self).position == old(self).position,
            final(self).move_index == old(self).move_index,
            final(self).white_rating == old(self).white_rating,
            final(self).black_rating == old(self).black_rating,
            final(self).skip == old(self).skip,
            final(self).rating_error == old(self).rating_error,
    {
        match extract_win_chances(raw) {
            Ok(mut vals) => {
                let ghost vals0 = vals@;
                self.win_chances.append(&mut vals);
                proof {
                    assert(micro_ints(self.win_chances@) =~= micro_ints(old(self).win_chances@)
                        + micro_ints(vals0));
                    assert(extraction_spec(raw@) == Ok::<Seq<int>, ()>(micro_ints(vals0)));
                }
            },
            Err(_) => {
            },
        }
    }

    /// Whether the game body should be skipped, decided once the headers
    /// end: true exactly when the event header named a fast time control.
    pub fn end_headers(&self) -> (skip: bool)
        ensures
            skip == self.skip,
    {
        self.skip
    }

    /// Variation branches are never descended into: only the main line of
    /// play is followed.
    pub fn begin_variation(&self) -> (skip: bool)
        ensures
            skip,
    {
        true
    }

    /// Closes the game: a record snapshots the accumulators at call time,
    /// unless the game was marked for skipping or a rating failed to parse.
    /// The visitor itself is untouched; the reset belongs to the next
    /// `begin_game`.
    pub fn end_game(&self) -> (r: Option<GameRecord>)
        requires
            self.wf(),
        ensures
            r is Some <==> !self.skip && !self.rating_error,
            r matches Some(rec) ==> ({
                &&& rec.wf()
                &&& rec.white_rating == self.white_rating
                &&& rec.black_rating == self.black_rating
                &&& rec.quality_codes@ == self.quality_codes@
                &&& rec.quality_indices@ == self.quality_indices@
                &&& rec.win_chances@ == self.win_chances@
                &&& rec.boards@.len() == self.boards@.len()
                &&& forall|i: int|
                    0 <= i < self.boards@.len() ==> rec.boards@[i].cells@
                        == self.boards@[i].cells@
            }),
    {
        if self.skip || self.rating_error {
            return None;
        }
        Some(
            GameRecord {
                white_rating: self.white_rating,
                black_rating: self.black_rating,
                quality_codes: copy_plain(&self.quality_codes),
                quality_indices: copy_plain(&self.quality_indices),
                win_chances: copy_plain(&self.win_chances),
                boards: copy_boards(&self.boards),
            },
        )
    }
}

fn copy_plain<T: Copy>(v: &Vec<T>) -> (r: Vec<T>)
    ensures
        r@ == v@,
{
    let mut out: Vec<T> = Vec::new();
    let mut i: usize = 0;
    while i < v.len()
        invariant
            i <= v@.len(),
            out@ == v@.subrange(0, i as int),
        decreases v@.len() - i,
    {
        out.push(v[i]);
        proof {
            assert(out@ =~= v@.subrange(0, i + 1));
        }
        i += 1;
    }
    proof {
        assert(out@ =~= v@);
    }
    out
}

fn copy_boards(v: &Vec<EncodedBoard>) -> (r: Vec<EncodedBoard>)
    ensures
        r@.len() == v@.len(),
        forall|i: int| 0 <= i < v@.len() ==> (#[trigger] r@[i]).cells@ == v@[i].cells@,
{
    let mut out: Vec<EncodedBoard> = Vec::new();
    let mut i: usize = 0;
    while i < v.len()
        invariant
            i <= v@.len(),
            out@.len() == i,
            forall|j: int| 0 <= j < i ==> (#[trigger] out@[j]).cells@ == v@[j].cells@,
        decreases v@.len() - i,
    {
        out.push(v[i].clone());
        i += 1;
    }
    out
}

/// An event header naming a fast time control marks the game for skipping,
/// whatever the rest of the state holds; a skipped game then yields no
/// record at its end.
pub proof fn lemma_fast_time_control_marks_skip(pre: GameVisitor, key: Seq<u8>, value: Seq<u8>)
    requires
        lower_bytes(key) == event_key(),
        contains_bytes_spec(lower_bytes(value), blitz_marker()) || contains_bytes_spec(
            lower_bytes(value),
            bullet_marker(),
        ),
    ensures
        GameVisitor::header_outcome(pre, key, value).skip,
{
}

/// No header lowers the skip flag once it is raised.
pub proof fn lemma_header_preserves_skip(pre: GameVisitor, key: Seq<u8>, value: Seq<u8>)
    requires
        pre.skip,
    ensures
        GameVisitor::header_outcome(pre, key, value).skip,
{
}

/// A game's board sequence never outnumbers its attempted move tokens: each
/// token advances the index once, and appends at most one board.
pub proof fn lemma_boards_within_moves(v: GameVisitor)
    requires
        v.wf(),
    ensures
        v.boards@.len() <= v.move_index,
{
}

fn is_event_key(k: &Vec<u8>) -> (r: bool)
    ensures
        r == (k@ == event_key()),
{
    let r: bool = k.len() == 5 && k[0] == 101 && k[1] == 118 && k[2] == 101 && k[3] == 110 && k[4]
        == 116;
    proof {
        if r {
            assert(k@ =~= event_key());
        } else {
            if k@ == event_key() {
                assert(k@.len() == 5 && k@[0] == 101 && k@[1] == 118 && k@[2] == 101 && k@[3]
                    == 110 && k@[4] == 116);
            }
        }
    }
    r
}

fn is_white_rating_key(k: &Vec<u8>) -> (r: bool)
    ensures
        r == (k@ == white_rating_key()),
{
    let r: bool = k.len() == 8 && k[0] == 119 && k[1] == 104 && k[2] == 105 && k[3] == 116 && k[4]
        == 101 && k[5] == 101 && k[6] == 108 && k[7] == 111;
    proof {
        if r {
            assert(k@ =~= white_rating_key());
        } else {
            if k@ == white_rating_key() {
                assert(k@.len() == 8 && k@[0] == 119 && k@[1] == 104 && k@[2] == 105 && k@[3]
                    == 116 && k@[4] == 101 && k@[5] == 101 && k@[6] == 108 && k@[7] == 111);
            }
        }
    }
    r
}

fn is_black_rating_key(k: &Vec<u8>) -> (r: bool)
    ensures
        r == (k@ == black_rating_key()),
{
    let r: bool = k.len() == 8 && k[0] == 98 && k[1] == 108 && k[2] == 97 && k[3] == 99 && k[4]
        == 107 && k[5] == 101 && k[6] == 108 && k[7] == 111;
    proof {
        if r {
            assert(k@ =~= black_rating_key());
        } else {
            if k@ == black_rating_key() {
                assert(k@.len() == 8 && k@[0] == 98 && k@[1] == 108 && k@[2] == 97 && k@[3] == 99
                    && k@[4] == 107 && k@[5] == 101 && k@[6] == 108 && k@[7] == 111);
            }
        }
    }
    r
}

fn blitz_needle() -> (r: Vec<u8>)
    ensures
        r@ == blitz_marker(),
{
    let mut v: Vec<u8> = Vec::new();
    v.push(98);
    v.push(108);
    v.push(105);
    v.push(116);
    v.push(122);
    proof {
        assert(v@ =~= blitz_marker());
    }
    v
}

fn bullet_needle() -> (r: Vec<u8>)
    ensures
        r@ == bullet_marker(),
{
    let mut v: Vec<u8> = Vec::new();
    v.push(98);
    v.push(117);
    v.push(108);
    v.push(108);
    v.push(101);
    v.push(116);
    proof {
        assert(v@ =~= bullet_marker());
    }
    v
}

} // verus!
