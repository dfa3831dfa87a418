//! Aggregation of accepted game records into one columnar dataset.

use crate::board::EncodedBoard;
use crate::visitor::GameRecord;
use vstd::prelude::*;

verus! {

/// The columnar output: six parallel column families, one entry per
/// accepted game, index-aligned by game.
pub struct Dataset {
    pub white_ratings: Vec<i32>,
    pub black_ratings: Vec<i32>,
    /// Ragged: one probability, in micro-units, per recognized annotation.
    pub win_chances: Vec<Vec<u32>>,
    /// Ragged: one encoded board per successfully applied move.
    pub board_games: Vec<Vec<EncodedBoard>>,
    /// Ragged: the move-quality codes of the game.
    pub quality_codes: Vec<Vec<u8>>,
    /// Ragged: aligned with `quality_codes`, the move index of each code.
    pub quality_indices: Vec<Vec<i32>>,
}

impl Dataset {
    /// The number of accepted games.
    pub open spec fn games(self) -> int {
        self.white_ratings@.len() as int
    }

    /// The dataset invariant: every column family has one entry per game;
    /// within a game, quality codes and indices stay aligned, probabilities
    /// stay in range, boards stay well formed, and at least one probability
    /// is present (a game without recognized annotations is never stored).
    pub open spec fn wf(self) -> bool {
        &&& self.black_ratings@.len() == self.games()
        &&& self.win_chances@.len() == self.games()
        &&& self.board_games@.len() == self.games()
        &&& self.quality_codes@.len() == self.games()
        &&& self.quality_indices@.len() == self.games()
        &&& forall|g: int|
            0 <= g < self.games() ==> (#[trigger] self.quality_codes@[g])@.len()
                == self.quality_indices@[g]@.len()
        &&& forall|g: int, k: int|
            0 <= g < self.games() && 0 <= k < self.win_chances@[g]@.len() ==> (
            #[trigger] self.win_chances@[g]@[k]) <= 1_000_000
        &&& forall|g: int, k: int|
            0 <= g < self.games() && 0 <= k < self.board_games@[g]@.len() ==> (
            #[trigger] self.board_games@[g]@[k]).wf()
        &&& forall|g: int| 0 <= g < self.games() ==> (#[trigger] self.win_chances@[g])@.len() >= 1
    }

    /// The number of accepted games held.
    pub fn game_count(&self) -> (n: usize)
        ensures
            n == self.games(),
    {
        self.white_ratings.len()
    }
}

/// Consumes a bounded stream of per-game outcomes and assembles the
/// dataset: games are counted against a caller-configured cap whether or
/// not they were accepted, and a record is projected into the columns only
/// when it carries at least one recognized annotation.
pub struct CorpusAggregator {
    /// The cap on total games seen, counting skipped and rejected ones.
    pub max_games: usize,
    /// Games seen so far.
    pub games_seen: usize,
    pub data: Dataset,
}

impl CorpusAggregator {
    pub open spec fn wf(self) -> bool {
        &&& self.data.wf()
        &&& self.games_seen <= self.max_games
    }

    /// A fresh aggregator that will see at most `max_games` games.
    pub fn new(max_games: usize) -> (a: CorpusAggregator)
        ensures
            a.wf(),
            a.max_games == max_games,
            a.games_seen == 0,
            a.data.games() == 0,
    {
        CorpusAggregator {
            max_games,
            games_seen: 0,
            data: Dataset {
                white_ratings: Vec::new(),
                black_ratings: Vec::new(),
                win_chances: Vec::new(),
                board_games: Vec::new(),
                quality_codes: Vec::new(),
                quality_indices: Vec::new(),
            },
        }
    }

    /// Whether another game may be pulled, checked between games.
    pub fn wants_more(&self) -> (r: bool)
        ensures
            r == (self.games_seen < self.max_games),
    {
        self.games_seen < self.max_games
    }

    /// Counts one game from the stream. The game's record, when one was
    /// produced and holds at least one win probability, is projected onto
    /// the six columns; otherwise the dataset is unchanged.
    pub fn record_game(&mut self, rec: Option<GameRecord>) -> (accepted: bool)
        requires
            old(self).wf(),
            old(self).games_seen < old(self).max_games,
            rec matches Some(r) ==> r.wf(),
        ensures
            final(self).wf(),
            final(self).max_games == old(self).max_games,
            final(self).games_seen == old(self).games_seen + 1,
            accepted <==> (rec matches Some(r) && r.win_chances@.len() > 0),
            accepted ==> (rec matches Some(r) && {
                &&& final(self).data.games() == old(self).data.games() + 1
                &&& final(self).data.white_ratings@ == old(self).data.white_ratings@.push(
                    r.white_rating,
                )
                &&& final(self).data.black_ratings@ == old(self).data.black_ratings@.push(
                    r.black_rating,
                )
                &&& final(self).data.win_chances@ == old(self).data.win_chances@.push(
                    r.win_chances,
                )
                &&& final(self).data.board_games@ == old(self).data.board_games@.push(r.boards)
                &&& final(self).data.quality_codes@ == old(self).data.quality_codes@.push(
                    r.quality_codes,
                )
                &&& final(self).data.quality_indices@ == old(self).data.quality_indices@.push(
                    r.quality_indices,
                )
            }),
            !accepted ==> final(self).data == old(self).data,
    {
        self.games_seen = self.games_seen + 1;
        match rec {
            Some(r) => {
                if r.win_chances.len() > 0 {
                    self.data.white_ratings.push(r.white_rating);
                    self.data.black_ratings.push(r.black_rating);
                    self.data.win_chances.push(r.win_chances);
                    self.data.board_games.push(r.boards);
                    self.data.quality_codes.push(r.quality_codes);
                    self.data.quality_indices.push(r.quality_indices);
                    true
                } else {
                    false
                }
            },
            None => false,
        }
    }

    /// Hands over the single terminal dataset.
    pub fn finish(self) -> (d: Dataset)
        requires
            self.wf(),
        ensures
            d == self.data,
            d.wf(),
    {
        self.data
    }
}

} // verus!
