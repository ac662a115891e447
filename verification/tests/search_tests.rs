use git_hash_chooser::decimal::read_i64;
use git_hash_chooser::estimate::Progress;
use git_hash_chooser::hash::{git_commit_hash, starts_with};
use git_hash_chooser::search::{
    candidate_hits, find_any_match, find_beautiful_git_hash, find_first_match, is_valid_prefix,
    render_date, report, search, search_row, SearchError, SearchResult, Strategy,
};
use git_hash_chooser::template::commit_to_format;

const COMMIT: &[u8] = b"tree 4b825dc642cb6eb9a060e54bf8d69288fbee4904\nauthor A U Thor <author@example.com> 1000 +0100\ncommitter C O Mitter <committer@example.com> 2000 -0230\n\nInitial  commit\twith  odd   spacing\n";

const PLAIN: &[u8] = b"tree 4b825dc642cb6eb9a060e54bf8d69288fbee4904\nauthor A <a@b.c> 1000 +0000\ncommitter A <a@b.c> 1000 +0000\n\nmsg\n";

const PLAIN_WITH_ZERO_HASH: &[u8] = b"tree 4b825dc642cb6eb9a060e54bf8d69288fbee4904\nauthor A <a@b.c> 1012 +0000\ncommitter A <a@b.c> 1012 +0000\n\nmsg\n";

fn found(committer: &[u8], author: &[u8]) -> SearchResult {
    SearchResult::Found(committer.to_vec(), author.to_vec())
}

fn timestamp_of(date: &[u8]) -> i64 {
    let end = date.iter().position(|b| *b == b' ').unwrap();
    read_i64(date, 0, end).unwrap()
}

#[test]
fn prefix_must_be_lowercase_hex_and_not_empty() {
    assert!(is_valid_prefix(b"0123456789abcdef"));
    assert!(is_valid_prefix(b"a"));
    assert!(!is_valid_prefix(b""));
    assert!(!is_valid_prefix(b"AB"));
    assert!(!is_valid_prefix(b"0g"));
    assert!(!is_valid_prefix(b"12 "));
}

#[test]
fn invalid_prefix_is_refused() {
    let (template, baseline) = commit_to_format(COMMIT);
    for prefix in [&b""[..], b"AB", b"xyz", b"0g"] {
        assert_eq!(
            search(&template, &baseline, prefix, 0, 10, Strategy::Sequential),
            Err(SearchError::InvalidPrefix)
        );
        assert_eq!(
            search(&template, &baseline, prefix, 0, 10, Strategy::Parallel),
            Err(SearchError::InvalidPrefix)
        );
    }
}

#[test]
fn window_upside_down_is_refused() {
    let (template, baseline) = commit_to_format(COMMIT);
    assert_eq!(
        search(&template, &baseline, b"a", 1, 0, Strategy::Sequential),
        Err(SearchError::InvalidRange)
    );
    assert_eq!(
        search(&template, &baseline, b"a", 1, 0, Strategy::Parallel),
        Err(SearchError::InvalidRange)
    );
    assert_eq!(
        find_beautiful_git_hash(COMMIT, b"a", 5, -5, Strategy::Sequential),
        Err(SearchError::InvalidRange)
    );
}

#[test]
fn invalid_prefix_comes_before_invalid_range() {
    let (template, baseline) = commit_to_format(COMMIT);
    assert_eq!(
        search(&template, &baseline, b"Z", 1, 0, Strategy::Sequential),
        Err(SearchError::InvalidPrefix)
    );
    assert_eq!(
        find_beautiful_git_hash(COMMIT, b"", 1, 0, Strategy::Sequential),
        Err(SearchError::InvalidPrefix)
    );
}

#[test]
fn sequential_search_returns_the_first_match() {
    let (template, baseline) = commit_to_format(COMMIT);
    assert_eq!(
        search(&template, &baseline, b"ab", 0, 30, Strategy::Sequential),
        Ok(found(b"2009 -0230", b"1008 +0100"))
    );
    assert_eq!(
        search(&template, &baseline, b"f0", 0, 30, Strategy::Sequential),
        Ok(found(b"2022 -0230", b"1013 +0100"))
    );
    assert_eq!(
        search(&template, &baseline, b"ab", -60, 60, Strategy::Sequential),
        Ok(found(b"1957 -0230", b"945 +0100"))
    );
}

#[test]
fn unchanged_commit_that_matches_first_needs_nothing() {
    let (template, baseline) = commit_to_format(COMMIT);
    assert_eq!(
        search(&template, &baseline, b"a", 0, 30, Strategy::Sequential),
        Ok(SearchResult::NoOp)
    );
    assert_eq!(
        search(&template, &baseline, b"ace308", 0, 3, Strategy::Sequential),
        Ok(SearchResult::NoOp)
    );
}

#[test]
fn earlier_match_wins_over_the_unchanged_commit() {
    let (template, baseline) = commit_to_format(COMMIT);
    assert!(candidate_hits(&template, &baseline, b"a", 0, 0));
    assert_eq!(
        search(&template, &baseline, b"a", -60, 60, Strategy::Sequential),
        Ok(found(b"1946 -0230", b"943 +0100"))
    );
}

#[test]
fn window_without_match_is_exhausted() {
    let (template, baseline) = commit_to_format(COMMIT);
    assert_eq!(
        search(&template, &baseline, b"abc", 0, 30, Strategy::Sequential),
        Ok(SearchResult::Exhausted)
    );
    assert_eq!(
        search(&template, &baseline, b"abc", 0, 30, Strategy::Parallel),
        Ok(SearchResult::Exhausted)
    );
}

#[test]
fn window_of_zero_alone_tries_one_candidate() {
    let (template, baseline) = commit_to_format(COMMIT);
    for strategy in [Strategy::Sequential, Strategy::Parallel] {
        assert_eq!(
            search(&template, &baseline, b"a", 0, 0, strategy),
            Ok(SearchResult::NoOp)
        );
        assert_eq!(
            search(&template, &baseline, b"0", 0, 0, strategy),
            Ok(SearchResult::Exhausted)
        );
    }
    let mut progress = Progress::new();
    assert_eq!(
        find_first_match(&template, &baseline, b"0", 0, 0, &mut progress),
        None
    );
    assert_eq!(progress.done, 1);
}

#[test]
fn end_to_end_with_prefix_zero_and_no_window() {
    assert_eq!(
        git_commit_hash(PLAIN),
        b"f14f7ba9b96958a7a18a25d273ba4e0e6f2dc297".to_vec()
    );
    assert_eq!(
        find_beautiful_git_hash(PLAIN, b"0", 0, 0, Strategy::Sequential),
        Err(SearchError::SearchExhausted)
    );
    let (template, baseline) = commit_to_format(PLAIN);
    assert_eq!(baseline.author_timestamp, 1000);
    assert_eq!(baseline.committer_timestamp, 1000);
    assert_eq!(baseline.author_tz, b"+0000".to_vec());
    assert_eq!(
        search(&template, &baseline, b"0", 0, 0, Strategy::Sequential),
        Ok(SearchResult::Exhausted)
    );
    assert_eq!(
        search(&template, &baseline, b"f", 0, 0, Strategy::Sequential),
        Ok(SearchResult::NoOp)
    );
    assert_eq!(
        git_commit_hash(PLAIN_WITH_ZERO_HASH),
        b"01ee49de6a673e0b8612b8d7c53b8415c3bcb803".to_vec()
    );
    assert_eq!(
        find_beautiful_git_hash(PLAIN_WITH_ZERO_HASH, b"0", 0, 0, Strategy::Sequential),
        Ok(None)
    );
    assert_eq!(
        find_beautiful_git_hash(PLAIN_WITH_ZERO_HASH, b"0", 0, 0, Strategy::Parallel),
        Ok(None)
    );
}

#[test]
fn minutes_are_searched_as_seconds() {
    assert_eq!(
        find_beautiful_git_hash(COMMIT, b"0", -1, 1, Strategy::Sequential),
        Ok(Some((b"1942 -0230".to_vec(), b"940 +0100".to_vec())))
    );
    assert_eq!(
        find_beautiful_git_hash(COMMIT, b"00", -1, 1, Strategy::Sequential),
        Ok(Some((b"1970 -0230".to_vec(), b"942 +0100".to_vec())))
    );
    assert_eq!(
        find_beautiful_git_hash(COMMIT, b"ab", 0, 1, Strategy::Sequential),
        Ok(Some((b"2009 -0230".to_vec(), b"1008 +0100".to_vec())))
    );
    assert_eq!(
        find_beautiful_git_hash(COMMIT, b"abcdef", 0, 0, Strategy::Parallel),
        Err(SearchError::SearchExhausted)
    );
    assert_eq!(
        find_beautiful_git_hash(COMMIT, b"ace3", -0, 0, Strategy::Sequential),
        Ok(None)
    );
}

#[test]
fn found_dates_give_a_hash_with_the_prefix() {
    let (template, baseline) = commit_to_format(COMMIT);
    for strategy in [Strategy::Sequential, Strategy::Parallel] {
        for prefix in [&b"ab"[..], b"0", b"f0", b"00"] {
            match search(&template, &baseline, prefix, -60, 60, strategy) {
                Ok(SearchResult::Found(committer_date, author_date)) => {
                    assert!(committer_date.ends_with(b" -0230"));
                    assert!(author_date.ends_with(b" +0100"));
                    let author = timestamp_of(&author_date);
                    let committer = timestamp_of(&committer_date);
                    let commit = template.fill(author as i128, committer as i128);
                    assert!(starts_with(&git_commit_hash(&commit), prefix));
                    let a = author - 1000;
                    let c = committer - 2000;
                    assert!(-60 <= a && a <= c && c <= 60);
                    assert!(!(a == 0 && c == 0));
                }
                other => panic!("no dates found: {:?}", other),
            }
        }
    }
}

#[test]
fn sequential_search_gives_the_same_result_each_time() {
    let (template, baseline) = commit_to_format(COMMIT);
    let first = search(&template, &baseline, b"f0", -60, 60, Strategy::Sequential);
    let second = search(&template, &baseline, b"f0", -60, 60, Strategy::Sequential);
    assert_eq!(first, Ok(found(b"1966 -0230", b"953 +0100")));
    assert_eq!(first, second);
}

#[test]
fn row_is_searched_by_ascending_author_offset() {
    let (template, baseline) = commit_to_format(COMMIT);
    assert_eq!(search_row(&template, &baseline, b"ab", 0, 9), Some((8, 9)));
    assert_eq!(search_row(&template, &baseline, b"ab", 0, 8), None);
    assert_eq!(search_row(&template, &baseline, b"ab", 9, 9), None);
    assert_eq!(search_row(&template, &baseline, b"ab", 10, 9), None);
    assert_eq!(search_row(&template, &baseline, b"a", -3, 0), Some((0, 0)));
}

#[test]
fn candidate_is_hashed_with_both_offsets() {
    let (template, baseline) = commit_to_format(COMMIT);
    assert!(candidate_hits(&template, &baseline, b"ace308f2", 0, 0));
    assert!(candidate_hits(&template, &baseline, b"ab", 8, 9));
    assert!(!candidate_hits(&template, &baseline, b"ab", 9, 8));
    assert!(!candidate_hits(&template, &baseline, b"ab", 0, 0));
}

#[test]
fn progress_counts_each_finished_row_once() {
    let (template, baseline) = commit_to_format(COMMIT);
    let mut progress = Progress::new();
    assert_eq!(
        find_first_match(&template, &baseline, b"ab", 0, 30, &mut progress),
        Some((8, 9))
    );
    // rows 0..=9, the one with the match too: 1 + 2 + ... + 10
    assert_eq!(progress.done, 55);
    let mut whole = Progress::new();
    whole.advance(4);
    assert_eq!(
        find_first_match(&template, &baseline, b"abc", 0, 30, &mut whole),
        None
    );
    assert_eq!(whole.done, 4 + 496);
}

#[test]
fn parallel_search_returns_the_first_match_of_some_row() {
    let (template, baseline) = commit_to_format(COMMIT);
    let hit = find_any_match(&template, &baseline, b"ab", -60, 60);
    let (a, c) = hit.unwrap();
    assert!(-60 <= a && a <= c && c <= 60);
    assert_eq!(search_row(&template, &baseline, b"ab", -60, c), Some((a, c)));
    assert_eq!(find_any_match(&template, &baseline, b"abc", 0, 30), None);
    assert_eq!(find_any_match(&template, &baseline, b"a", 3, 2), None);
    assert_eq!(
        find_any_match(&template, &baseline, b"ab", 9, 9),
        None
    );
    assert_eq!(
        find_any_match(&template, &baseline, b"ab", 0, 9),
        Some((8, 9))
    );
}

#[test]
fn match_is_reported_as_dates() {
    let (_, baseline) = commit_to_format(COMMIT);
    assert_eq!(report(&baseline, None), SearchResult::Exhausted);
    assert_eq!(report(&baseline, Some((0, 0))), SearchResult::NoOp);
    assert_eq!(
        report(&baseline, Some((-1, 0))),
        found(b"2000 -0230", b"999 +0100")
    );
    assert_eq!(
        report(&baseline, Some((0, 1))),
        found(b"2001 -0230", b"1000 +0100")
    );
}

#[test]
fn date_is_timestamp_space_zone() {
    assert_eq!(render_date(1000, 5, &b"+0000".to_vec()), b"1005 +0000".to_vec());
    assert_eq!(render_date(3, -10, &b"-0800".to_vec()), b"-7 -0800".to_vec());
    assert_eq!(
        render_date(i64::MAX, i64::MAX, &Vec::new()),
        b"18446744073709551614 ".to_vec()
    );
}
