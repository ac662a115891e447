use git_hash_chooser::estimate::{candidate_count, expected_work, hash_space, row_count, Progress};

#[test]
fn window_of_eleven_offsets_has_sixty_six_candidates() {
    assert_eq!(candidate_count(-5, 5), 66);
}

#[test]
fn probability_for_six_hex_digits() {
    let candidates = candidate_count(-5, 5);
    let hashes = hash_space(6).unwrap();
    assert_eq!(hashes, 16_777_216);
    let probability = candidates as f64 / hashes as f64;
    assert_eq!(probability, 66.0 / 16_777_216.0);
}

#[test]
fn single_offset_window_has_one_candidate() {
    assert_eq!(candidate_count(0, 0), 1);
    assert_eq!(candidate_count(-7, -7), 1);
}

#[test]
fn empty_window_has_no_candidate() {
    assert_eq!(candidate_count(1, 0), 0);
    assert_eq!(row_count(5, 4), 0);
}

#[test]
fn default_window_in_seconds() {
    // bound = 36000: 36001 * 36002 / 2
    assert_eq!(candidate_count(-18000, 18000), 648_054_001);
}

#[test]
fn widest_window_is_counted_without_overflow() {
    // bound = 2^64 - 1: 2^64 * (2^64 + 1) / 2
    assert_eq!(
        candidate_count(i64::MIN, i64::MAX),
        (1u128 << 63) * ((1u128 << 64) + 1)
    );
}

#[test]
fn rows_add_up_to_the_window() {
    let mut sum: u128 = 0;
    for c in -5i64..=5 {
        sum += row_count(-5, c);
    }
    assert_eq!(sum, candidate_count(-5, 5));
    assert_eq!(row_count(-5, -5), 1);
    assert_eq!(row_count(-5, 5), 11);
    assert_eq!(row_count(i64::MIN, i64::MAX), 1u128 << 64);
}

#[test]
fn hash_space_is_a_power_of_sixteen() {
    assert_eq!(hash_space(0), Some(1));
    assert_eq!(hash_space(1), Some(16));
    assert_eq!(hash_space(4), Some(65536));
    assert_eq!(hash_space(31), Some(1u128 << 124));
    assert_eq!(hash_space(32), None);
    assert_eq!(hash_space(40), None);
}

#[test]
fn expected_work_is_the_smaller_count() {
    assert_eq!(expected_work(-5, 5, 1), 16);
    assert_eq!(expected_work(-5, 5, 2), 66);
    assert_eq!(expected_work(-5, 5, 40), 66);
    assert_eq!(expected_work(0, 0, 0), 1);
}

#[test]
fn progress_adds_up_and_stops_at_the_top() {
    let mut progress = Progress::new();
    assert_eq!(progress.done, 0);
    progress.advance(3);
    progress.advance(4);
    assert_eq!(progress.done, 7);
    progress.advance(u128::MAX);
    assert_eq!(progress.done, u128::MAX);
}
