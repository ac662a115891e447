use git_hash_chooser::hash::{build_commit_object, git_commit_hash, hex_encode, starts_with};

#[test]
fn hash_of_the_empty_commit_text() {
    assert_eq!(
        git_commit_hash(b""),
        b"dcf5b16e76cce7425d0beaef62d79a7d10fce1f5".to_vec()
    );
}

#[test]
fn hash_of_a_short_text() {
    assert_eq!(
        git_commit_hash(b"hello\n"),
        b"656d88de433ec9f9c5d4ed9b2c643844127a0fb4".to_vec()
    );
}

#[test]
fn hash_of_a_whole_commit() {
    let commit = b"tree 4b825dc642cb6eb9a060e54bf8d69288fbee4904\nauthor A <a@b.c> 1000 +0000\ncommitter A <a@b.c> 1000 +0000\n\nmsg\n";
    assert_eq!(
        git_commit_hash(commit),
        b"f14f7ba9b96958a7a18a25d273ba4e0e6f2dc297".to_vec()
    );
}

#[test]
fn hash_is_forty_lowercase_hex_digits() {
    let hash = git_commit_hash(b"anything at all");
    assert_eq!(hash.len(), 40);
    assert!(hash
        .iter()
        .all(|b| b.is_ascii_digit() || (b'a'..=b'f').contains(b)));
}

#[test]
fn object_has_header_length_and_zero_byte() {
    assert_eq!(build_commit_object(b"hello\n"), b"commit 6\0hello\n".to_vec());
    assert_eq!(build_commit_object(b""), b"commit 0\0".to_vec());
    assert_eq!(
        build_commit_object(b"0123456789"),
        b"commit 10\x000123456789".to_vec()
    );
}

#[test]
fn hex_of_bytes() {
    assert_eq!(hex_encode(&[]), b"".to_vec());
    assert_eq!(hex_encode(&[0x00, 0x0f, 0xa0, 0xff]), b"000fa0ff".to_vec());
    assert_eq!(hex_encode(&[0x12, 0xab, 0x9c]), b"12ab9c".to_vec());
}

#[test]
fn prefix_test() {
    assert!(starts_with(b"abcdef", b""));
    assert!(starts_with(b"abcdef", b"abc"));
    assert!(starts_with(b"abcdef", b"abcdef"));
    assert!(!starts_with(b"abcdef", b"abd"));
    assert!(!starts_with(b"abcdef", b"bcd"));
    assert!(!starts_with(b"abc", b"abcd"));
    assert!(!starts_with(b"", b"a"));
}
