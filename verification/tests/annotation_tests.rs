use chess_features::annotations::extract_win_chances;
use chess_features::winprob::sigmoid_micros;

#[test]
fn plain_comment_yields_nothing() {
    let r = extract_win_chances(b"A fine positional move.").unwrap();
    assert_eq!(r.len(), 0);
}

#[test]
fn decimal_evaluation_is_squashed() {
    let r = extract_win_chances(b"[%eval 0.36]").unwrap();
    assert_eq!(r.len(), 1);
    assert_eq!(r[0], sigmoid_micros(360));
    assert!(r[0] > 500_000 && r[0] < 1_000_000);
}

#[test]
fn even_evaluation_is_half() {
    let r = extract_win_chances(b"[%eval 0]").unwrap();
    assert_eq!(r, vec![500_000]);
    let r = extract_win_chances(b"[%eval 0.0]").unwrap();
    assert_eq!(r, vec![500_000]);
}

#[test]
fn negative_evaluation_mirrors_positive() {
    let pos = extract_win_chances(b"[%eval 1.5]").unwrap();
    let neg = extract_win_chances(b"[%eval -1.5]").unwrap();
    assert_eq!(pos.len(), 1);
    assert_eq!(neg.len(), 1);
    assert_eq!(pos[0] + neg[0], 1_000_000);
    assert!(neg[0] < 500_000);
}

#[test]
fn upper_case_tag_is_recognized() {
    let r = extract_win_chances(b"[%EVAL 0.36]").unwrap();
    assert_eq!(r, extract_win_chances(b"[%eval 0.36]").unwrap());
    assert_eq!(r.len(), 1);
}

#[test]
fn positive_mate_is_certain_win() {
    let r = extract_win_chances(b"White wins: [%eval #3]").unwrap();
    assert_eq!(r, vec![1_000_000]);
}

#[test]
fn negative_mate_is_certain_loss() {
    let r = extract_win_chances(b"[%eval #-3]").unwrap();
    assert_eq!(r, vec![0]);
}

#[test]
fn mate_in_zero_counts_as_loss() {
    let r = extract_win_chances(b"[%eval #0]").unwrap();
    assert_eq!(r, vec![0]);
}

#[test]
fn evaluation_and_mate_come_in_order() {
    // Both patterns in one comment: two entries, evaluation first, mate
    // second, not deduplicated.
    let r = extract_win_chances(b"[%eval 2.0] then [%eval #5]").unwrap();
    assert_eq!(r.len(), 2);
    assert_eq!(r[0], sigmoid_micros(2_000));
    assert_eq!(r[1], 1_000_000);
    // The order is by pattern, not by position in the comment.
    let swapped = extract_win_chances(b"[%eval #5] then [%eval 2.0]").unwrap();
    assert_eq!(swapped, r);
}

#[test]
fn extraction_is_idempotent() {
    let comments: Vec<&[u8]> = vec![
        b"[%eval 0.36] [%clk 0:05:00]",
        b"[%eval #-2]",
        b"nothing here",
        b"[%eval -11.25]",
    ];
    for c in comments {
        let first = extract_win_chances(c);
        let second = extract_win_chances(c);
        assert_eq!(first, second);
    }
}

#[test]
fn oversized_mate_count_is_an_error() {
    assert!(extract_win_chances(b"[%eval #99999999999]").is_err());
    assert!(extract_win_chances(b"[%eval #-99999999999]").is_err());
    // The largest representable counts still parse.
    assert_eq!(extract_win_chances(b"[%eval #2147483647]").unwrap(), vec![1_000_000]);
    assert_eq!(extract_win_chances(b"[%eval #-2147483648]").unwrap(), vec![0]);
}

#[test]
fn huge_decimal_evaluation_saturates() {
    let r = extract_win_chances(b"[%eval 99999999999.0]").unwrap();
    assert_eq!(r.len(), 1);
    assert_eq!(r[0], sigmoid_micros(20_000));
}

#[test]
fn malformed_patterns_do_not_match() {
    assert_eq!(extract_win_chances(b"[%eval 1.]").unwrap().len(), 0);
    assert_eq!(extract_win_chances(b"[%eval .5]").unwrap().len(), 0);
    assert_eq!(extract_win_chances(b"[%eval ]").unwrap().len(), 0);
    assert_eq!(extract_win_chances(b"[%eval 1.2x]").unwrap().len(), 0);
    assert_eq!(extract_win_chances(b"[%eval1.0]").unwrap().len(), 0);
    assert_eq!(extract_win_chances(b"[%eval #]").unwrap().len(), 0);
}

#[test]
fn whitespace_variants_are_accepted() {
    assert_eq!(extract_win_chances(b"[%eval\t0]").unwrap(), vec![500_000]);
    assert_eq!(extract_win_chances(b"[%eval\n0]").unwrap(), vec![500_000]);
}

#[test]
fn only_first_decimal_evaluation_counts() {
    let r = extract_win_chances(b"[%eval 2.0] [%eval -2.0]").unwrap();
    assert_eq!(r.len(), 1);
    assert_eq!(r[0], sigmoid_micros(2_000));
}

#[test]
fn fractional_digits_beyond_three_are_truncated() {
    let r = extract_win_chances(b"[%eval 0.1234567]").unwrap();
    assert_eq!(r, vec![sigmoid_micros(123)]);
    let two = extract_win_chances(b"[%eval 0.12]").unwrap();
    assert_eq!(two, vec![sigmoid_micros(120)]);
}
