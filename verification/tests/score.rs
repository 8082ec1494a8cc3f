use afuera::score::{
    decode_high_score, encode_high_score, load_high_score, ScoreBoard, HIGH_SCORE_KEY,
};

#[test]
fn new_board_starts_at_zero() {
    let b = ScoreBoard::new(120);
    assert_eq!(b, ScoreBoard { score: 0, high_score: 120, beaten: false });
}

#[test]
fn points_below_the_best_score_leave_it_alone() {
    let mut b = ScoreBoard::new(100);
    b.add_points(40);
    assert_eq!(b, ScoreBoard { score: 40, high_score: 100, beaten: false });
    b.add_points(60);
    assert_eq!(b, ScoreBoard { score: 100, high_score: 100, beaten: false });
}

#[test]
fn passing_the_best_score_sets_the_flag() {
    let mut b = ScoreBoard::new(100);
    b.add_points(101);
    assert_eq!(b, ScoreBoard { score: 101, high_score: 101, beaten: true });
    b.add_points(9);
    assert_eq!(b, ScoreBoard { score: 110, high_score: 110, beaten: true });
}

#[test]
fn score_stops_at_the_largest_value() {
    let mut b = ScoreBoard { score: u32::MAX - 10, high_score: u32::MAX - 10, beaten: false };
    b.add_points(40);
    assert_eq!(b, ScoreBoard { score: u32::MAX, high_score: u32::MAX, beaten: true });
    b.add_points(40);
    assert_eq!(b, ScoreBoard { score: u32::MAX, high_score: u32::MAX, beaten: true });
}

#[test]
fn score_and_best_score_never_go_down_by_hits() {
    let mut b = ScoreBoard::new(50);
    let mut last = b;
    for points in [0u32, 3, 0, 47, 1, 1000, 0] {
        b.add_points(points);
        assert!(b.score >= last.score);
        assert!(b.high_score >= last.high_score);
        assert!(b.score <= b.high_score);
        last = b;
    }
    assert_eq!(b, ScoreBoard { score: 1051, high_score: 1051, beaten: true });
}

#[test]
fn reset_keeps_the_best_score() {
    let mut b = ScoreBoard { score: 77, high_score: 77, beaten: true };
    b.reset();
    assert_eq!(b, ScoreBoard { score: 0, high_score: 77, beaten: false });
}

#[test]
fn record_is_due_on_a_tie_only() {
    assert_eq!(ScoreBoard { score: 0, high_score: 0, beaten: false }.to_record(), Some(0));
    assert_eq!(ScoreBoard { score: 5, high_score: 5, beaten: true }.to_record(), Some(5));
    assert_eq!(ScoreBoard { score: 4, high_score: 5, beaten: false }.to_record(), None);
}

#[test]
fn key_is_highscore() {
    assert_eq!(HIGH_SCORE_KEY, "highscore");
}

#[test]
fn encode_writes_decimal_digits() {
    assert_eq!(encode_high_score(0), b"0".to_vec());
    assert_eq!(encode_high_score(7), b"7".to_vec());
    assert_eq!(encode_high_score(10), b"10".to_vec());
    assert_eq!(encode_high_score(40), b"40".to_vec());
    assert_eq!(encode_high_score(1051), b"1051".to_vec());
    assert_eq!(encode_high_score(u32::MAX), b"4294967295".to_vec());
}

#[test]
fn decode_reads_decimal_digits() {
    assert_eq!(decode_high_score(b"0"), Some(0));
    assert_eq!(decode_high_score(b"40"), Some(40));
    assert_eq!(decode_high_score(b"007"), Some(7));
    assert_eq!(decode_high_score(b"4294967295"), Some(u32::MAX));
}

#[test]
fn decode_refuses_what_is_not_a_score() {
    assert_eq!(decode_high_score(b""), None);
    assert_eq!(decode_high_score(b"4294967296"), None);
    assert_eq!(decode_high_score(b"99999999999999999999999999"), None);
    assert_eq!(decode_high_score(b"-1"), None);
    assert_eq!(decode_high_score(b"+1"), None);
    assert_eq!(decode_high_score(b"12a"), None);
    assert_eq!(decode_high_score(b" 12"), None);
    assert_eq!(decode_high_score(b"1.5"), None);
    assert_eq!(decode_high_score(b"42949672950x"), None);
}

#[test]
fn stored_score_round_trips() {
    for n in [0u32, 1, 9, 10, 11, 99, 100, 12345, 999_999_999, 1_000_000_000, u32::MAX - 1, u32::MAX]
    {
        let written = encode_high_score(n);
        assert_eq!(decode_high_score(&written), Some(n));
        assert_eq!(load_high_score(Some(&written)), n);
        assert_eq!(String::from_utf8(written).unwrap(), n.to_string());
    }
}

#[test]
fn missing_or_unreadable_score_loads_as_zero() {
    assert_eq!(load_high_score(None), 0);
    assert_eq!(load_high_score(Some(b"")), 0);
    assert_eq!(load_high_score(Some(b"lots")), 0);
    assert_eq!(load_high_score(Some(b"4294967296")), 0);
    assert_eq!(load_high_score(Some(b"250")), 250);
}
