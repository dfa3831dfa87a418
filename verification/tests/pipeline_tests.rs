use chess_features::dataset::CorpusAggregator;
use chess_features::visitor::GameVisitor;

/// The expected 72-element encoding of the position after 1. e4.
fn expected_after_e4() -> Vec<i8> {
    let mut v: Vec<i8> = Vec::new();
    // First rank: rook, knight, bishop, queen, king, bishop, knight, rook.
    v.extend_from_slice(&[4, 2, 3, 5, 6, 3, 2, 4]);
    // Second rank: pawns, with the e-pawn gone.
    v.extend_from_slice(&[1, 1, 1, 1, 0, 1, 1, 1]);
    // Third rank empty; fourth rank holds the pawn on e4.
    v.extend_from_slice(&[0, 0, 0, 0, 0, 0, 0, 0]);
    v.extend_from_slice(&[0, 0, 0, 0, 1, 0, 0, 0]);
    v.extend_from_slice(&[0, 0, 0, 0, 0, 0, 0, 0]);
    v.extend_from_slice(&[0, 0, 0, 0, 0, 0, 0, 0]);
    // Seventh and eighth ranks: black.
    v.extend_from_slice(&[-1, -1, -1, -1, -1, -1, -1, -1]);
    v.extend_from_slice(&[-4, -2, -3, -5, -6, -3, -2, -4]);
    // Black to move; all four castling rights; no en-passant capture is
    // legal; the pawn move reset the half-move clock; reserved zero.
    v.extend_from_slice(&[-1, 1, 1, 1, 1, 0, 0, 0]);
    v
}

fn play_game(
    visitor: &mut GameVisitor,
    headers: &[(&[u8], &[u8])],
    moves: &[&[u8]],
    comments: &[&[u8]],
) -> Option<chess_features::visitor::GameRecord> {
    visitor.begin_game();
    for (k, v) in headers {
        visitor.header(k, v);
    }
    let skip = visitor.end_headers();
    if !skip {
        for (i, m) in moves.iter().enumerate() {
            visitor.san(m);
            if let Some(c) = comments.get(i) {
                visitor.comment(c);
            }
        }
    }
    visitor.end_game()
}

#[test]
fn well_formed_game_is_fully_encoded() {
    // One game, four plies, a decimal evaluation behind every move.
    let mut visitor = GameVisitor::new();
    let rec = play_game(
        &mut visitor,
        &[
            (b"Event", b"Rated Classical game"),
            (b"WhiteElo", b"1500"),
            (b"BlackElo", b"1400"),
        ],
        &[b"e4", b"e5", b"Nf3", b"Nc6"],
        &[b"[%eval 0.3]", b"[%eval 0.2]", b"[%eval 0.25]", b"[%eval 0.3]"],
    )
    .expect("the game should produce a record");
    let mut agg = CorpusAggregator::new(10);
    assert!(agg.wants_more());
    assert!(agg.record_game(Some(rec)));
    let data = agg.finish();
    assert_eq!(data.game_count(), 1);
    assert_eq!(data.white_ratings, vec![1500]);
    assert_eq!(data.black_ratings, vec![1400]);
    assert_eq!(data.win_chances[0].len(), 4);
    assert_eq!(data.board_games[0].len(), 4);
    for b in &data.board_games[0] {
        assert_eq!(b.cells.len(), 72);
        assert!(b.cells[64] == 1 || b.cells[64] == -1);
        for i in 0..64 {
            assert!(-6 <= b.cells[i] && b.cells[i] <= 6);
        }
        for i in 65..69 {
            assert!(b.cells[i] == 0 || b.cells[i] == 1);
        }
        assert_eq!(b.cells[71], 0);
    }
    // The first snapshot is the position after 1. e4, exactly.
    assert_eq!(data.board_games[0][0].cells, expected_after_e4());
}

#[test]
fn bullet_games_contribute_nothing() {
    let mut visitor = GameVisitor::new();
    let rec = play_game(
        &mut visitor,
        &[
            (b"Event", b"Rated Bullet game"),
            (b"WhiteElo", b"1500"),
            (b"BlackElo", b"1400"),
        ],
        &[b"e4", b"e5", b"Nf3", b"Nc6"],
        &[b"[%eval 0.3]", b"[%eval 0.2]", b"[%eval 0.25]", b"[%eval 0.3]"],
    );
    assert!(rec.is_none());
    let mut agg = CorpusAggregator::new(10);
    assert!(!agg.record_game(rec));
    let data = agg.finish();
    assert_eq!(data.game_count(), 0);
}

#[test]
fn blitz_marker_is_case_insensitive() {
    let mut visitor = GameVisitor::new();
    visitor.begin_game();
    visitor.header(b"EVENT", b"Rated BLITZ game");
    assert!(visitor.end_headers());
    assert!(visitor.end_game().is_none());
}

#[test]
fn unresolvable_move_is_skipped_silently() {
    // Five tokens, one of which cannot be resolved: four boards.
    let mut visitor = GameVisitor::new();
    let rec = play_game(
        &mut visitor,
        &[(b"Event", b"Rated Classical game")],
        &[b"e4", b"e5", b"Qxe5", b"Nf3", b"Nc6"],
        &[b"[%eval 0.3]"],
    )
    .expect("the game should produce a record");
    assert_eq!(rec.boards.len(), 4);
    assert_eq!(rec.win_chances.len(), 1);
}

#[test]
fn comment_with_both_patterns_appends_two() {
    let mut visitor = GameVisitor::new();
    let rec = play_game(
        &mut visitor,
        &[(b"Event", b"Rated Classical game")],
        &[b"e4"],
        &[b"[%eval 2.0] [%eval #5]"],
    )
    .expect("the game should produce a record");
    assert_eq!(rec.win_chances.len(), 2);
    assert_eq!(rec.win_chances[1], 1_000_000);
    assert!(rec.win_chances[0] > 500_000 && rec.win_chances[0] < 1_000_000);
}

#[test]
fn games_without_annotations_are_excluded() {
    let mut visitor = GameVisitor::new();
    let rec = play_game(
        &mut visitor,
        &[(b"Event", b"Rated Classical game")],
        &[b"e4", b"e5"],
        &[],
    )
    .expect("the game itself still produces a record");
    assert_eq!(rec.boards.len(), 2);
    assert_eq!(rec.win_chances.len(), 0);
    let mut agg = CorpusAggregator::new(10);
    assert!(!agg.record_game(Some(rec)));
    assert_eq!(agg.finish().game_count(), 0);
}

#[test]
fn unparsable_rating_drops_the_game() {
    let mut visitor = GameVisitor::new();
    let rec = play_game(
        &mut visitor,
        &[(b"Event", b"Rated Classical game"), (b"WhiteElo", b"15a0")],
        &[b"e4"],
        &[b"[%eval 0.3]"],
    );
    assert!(rec.is_none());
}

#[test]
fn missing_ratings_default_to_zero() {
    let mut visitor = GameVisitor::new();
    let rec = play_game(
        &mut visitor,
        &[(b"Event", b"Rated Classical game")],
        &[b"e4"],
        &[b"[%eval 0.3]"],
    )
    .expect("the game should produce a record");
    assert_eq!(rec.white_rating, 0);
    assert_eq!(rec.black_rating, 0);
}

#[test]
fn quality_marks_point_at_the_previous_move() {
    let mut visitor = GameVisitor::new();
    visitor.begin_game();
    visitor.header(b"Event", b"Rated Classical game");
    assert!(!visitor.end_headers());
    visitor.san(b"e4");
    visitor.nag(1);
    visitor.san(b"e5");
    visitor.san(b"Nf3");
    visitor.nag(3);
    visitor.comment(b"[%eval 0.1]");
    let rec = visitor.end_game().expect("record");
    assert_eq!(rec.quality_codes, vec![1, 3]);
    assert_eq!(rec.quality_indices, vec![0, 2]);
}

#[test]
fn variations_are_never_descended() {
    let visitor = GameVisitor::new();
    assert!(visitor.begin_variation());
}

#[test]
fn the_cap_counts_rejected_games_too() {
    let mut agg = CorpusAggregator::new(2);
    assert!(agg.wants_more());
    assert!(!agg.record_game(None));
    assert!(agg.wants_more());
    assert!(!agg.record_game(None));
    assert!(!agg.wants_more());
    assert_eq!(agg.finish().game_count(), 0);
}

#[test]
fn dataset_columns_stay_aligned() {
    let mut visitor = GameVisitor::new();
    let mut agg = CorpusAggregator::new(100);
    for _ in 0..3 {
        let rec = play_game(
            &mut visitor,
            &[(b"Event", b"Rated Classical game"), (b"WhiteElo", b"2000"), (b"BlackElo", b"1990")],
            &[b"d4", b"d5"],
            &[b"[%eval 0.0]", b"[%eval -0.1]"],
        );
        agg.record_game(rec);
    }
    // A skipped game and an annotation-free game in between.
    let skipped = play_game(
        &mut visitor,
        &[(b"Event", b"Rated Bullet game")],
        &[b"e4"],
        &[b"[%eval 0.3]"],
    );
    agg.record_game(skipped);
    let silent = play_game(
        &mut visitor,
        &[(b"Event", b"Rated Classical game")],
        &[b"e4"],
        &[],
    );
    agg.record_game(silent);
    let data = agg.finish();
    assert_eq!(data.game_count(), 3);
    assert_eq!(data.white_ratings.len(), 3);
    assert_eq!(data.black_ratings.len(), 3);
    assert_eq!(data.win_chances.len(), 3);
    assert_eq!(data.board_games.len(), 3);
    assert_eq!(data.quality_codes.len(), 3);
    assert_eq!(data.quality_indices.len(), 3);
    for g in 0..3 {
        assert_eq!(data.win_chances[g].len(), 2);
        assert_eq!(data.board_games[g].len(), 2);
        assert_eq!(data.win_chances[g][0], 500_000);
    }
}
