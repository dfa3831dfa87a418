use chess_features::winprob::sigmoid_micros;

#[test]
fn even_evaluation_is_exactly_half() {
    assert_eq!(sigmoid_micros(0), 500_000);
}

#[test]
fn probabilities_stay_in_range() {
    let samples: Vec<i64> = vec![
        -100_000_000_000,
        -20_001,
        -20_000,
        -3_600,
        -1_000,
        -1,
        0,
        1,
        360,
        1_000,
        14_999,
        20_000,
        20_001,
        100_000_000_000,
    ];
    for &m in &samples {
        let p = sigmoid_micros(m);
        assert!(p <= 1_000_000, "sigmoid({}) = {} out of range", m, p);
    }
}

#[test]
fn squashing_is_antisymmetric() {
    for &m in &[1i64, 250, 1_000, 5_000, 19_999, 30_000] {
        assert_eq!(sigmoid_micros(m) + sigmoid_micros(-m), 1_000_000);
    }
}

#[test]
fn squashing_is_monotone_across_pawn_boundaries() {
    let mut prev = sigmoid_micros(-2_000);
    for m in -1_999i64..=2_000 {
        let p = sigmoid_micros(m);
        assert!(prev <= p, "squashing decreases at {}", m);
        prev = p;
    }
    assert!(sigmoid_micros(999) < sigmoid_micros(1_000));
    assert!(sigmoid_micros(19_999) <= sigmoid_micros(20_000));
}

#[test]
fn squashing_is_monotone_on_samples() {
    let p_neg = sigmoid_micros(-1_000);
    let p_zero = sigmoid_micros(0);
    let p_pos = sigmoid_micros(1_000);
    let p_big = sigmoid_micros(10_000);
    assert!(p_neg < p_zero);
    assert!(p_zero < p_pos);
    assert!(p_pos < p_big);
}

#[test]
fn large_magnitudes_saturate() {
    // Beyond twenty pawns the evaluation is clamped, so the probability
    // flattens out next to certainty.
    assert_eq!(sigmoid_micros(i64::MAX), sigmoid_micros(20_000));
    assert_eq!(sigmoid_micros(i64::MIN), sigmoid_micros(-20_000));
    assert!(sigmoid_micros(20_000) > 999_900);
    assert!(sigmoid_micros(-20_000) < 100);
}

#[test]
fn squashing_is_deterministic() {
    for &m in &[-777i64, 0, 42, 360, 123_456] {
        assert_eq!(sigmoid_micros(m), sigmoid_micros(m));
    }
}
