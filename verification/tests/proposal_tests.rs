use git_hash_chooser::proposal::{proposal_line, proposed_prefix};

#[test]
fn next_number_after_the_parent() {
    assert_eq!(
        proposed_prefix(b"0041a3f0c2d4e6f8091a2b3c4d5e6f708192a3b4\n", 4),
        b"0042a".to_vec()
    );
}

#[test]
fn carries_into_a_new_digit() {
    assert_eq!(proposed_prefix(b"0999abc", 4), b"1000a".to_vec());
    assert_eq!(proposed_prefix(b"9999abc", 4), b"10000a".to_vec());
}

#[test]
fn starts_at_one_where_the_parent_has_no_number() {
    assert_eq!(proposed_prefix(b"00a1ffff", 4), b"0001a".to_vec());
    assert_eq!(proposed_prefix(b"", 4), b"0001a".to_vec());
    assert_eq!(proposed_prefix(b"12\n", 4), b"0001a".to_vec());
    assert_eq!(proposed_prefix(b"123 \n", 4), b"0001a".to_vec());
}

#[test]
fn width_of_zero() {
    assert_eq!(proposed_prefix(b"1234", 0), b"1a".to_vec());
}

#[test]
fn largest_number_does_not_overflow() {
    assert_eq!(
        proposed_prefix(b"18446744073709551615", 20),
        b"18446744073709551616a".to_vec()
    );
}

#[test]
fn proposal_has_the_exact_form() {
    assert_eq!(
        proposal_line(b"1002 +0000", b"998 -0230"),
        b"GIT_COMMITTER_DATE='1002 +0000' git commit --amend -C HEAD --date='998 -0230'".to_vec()
    );
}
