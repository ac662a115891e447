use git_hash_chooser::decimal::{push_decimal, push_digits, read_digits, read_i64, read_u64};

fn text_of(v: i128) -> Vec<u8> {
    let mut out = Vec::new();
    push_decimal(v, &mut out);
    out
}

#[test]
fn writes_zero() {
    assert_eq!(text_of(0), b"0".to_vec());
}

#[test]
fn writes_positive_and_negative_numbers() {
    assert_eq!(text_of(1000), b"1000".to_vec());
    assert_eq!(text_of(-1234), b"-1234".to_vec());
    assert_eq!(text_of(9), b"9".to_vec());
    assert_eq!(text_of(10), b"10".to_vec());
}

#[test]
fn writes_the_extremes() {
    assert_eq!(
        text_of(i128::MIN),
        b"-170141183460469231731687303715884105728".to_vec()
    );
    assert_eq!(
        text_of(i128::MAX),
        b"170141183460469231731687303715884105727".to_vec()
    );
    assert_eq!(
        text_of(i64::MAX as i128 + i64::MAX as i128),
        b"18446744073709551614".to_vec()
    );
}

#[test]
fn digits_are_appended_to_what_is_there() {
    let mut out = b"x=".to_vec();
    push_digits(407, &mut out);
    assert_eq!(out, b"x=407".to_vec());
}

#[test]
fn reads_plain_numbers() {
    assert_eq!(read_i64(b"1000", 0, 4), Some(1000));
    assert_eq!(read_i64(b"0", 0, 1), Some(0));
    assert_eq!(read_i64(b"007", 0, 3), Some(7));
}

#[test]
fn reads_signs() {
    assert_eq!(read_i64(b"+5", 0, 2), Some(5));
    assert_eq!(read_i64(b"-5", 0, 2), Some(-5));
    assert_eq!(read_i64(b"-0", 0, 2), Some(0));
}

#[test]
fn reads_a_part_of_the_text() {
    assert_eq!(read_i64(b"ab 1712 +0100", 3, 7), Some(1712));
    assert_eq!(read_i64(b"ab 1712 +0100", 3, 8), None);
}

#[test]
fn rejects_what_is_no_number() {
    assert_eq!(read_i64(b"", 0, 0), None);
    assert_eq!(read_i64(b"-", 0, 1), None);
    assert_eq!(read_i64(b"+", 0, 1), None);
    assert_eq!(read_i64(b"12a", 0, 3), None);
    assert_eq!(read_i64(b"+-5", 0, 3), None);
    assert_eq!(read_i64(b"1 2", 0, 3), None);
}

#[test]
fn reads_the_limits_of_i64() {
    assert_eq!(
        read_i64(b"9223372036854775807", 0, 19),
        Some(i64::MAX)
    );
    assert_eq!(read_i64(b"9223372036854775808", 0, 19), None);
    assert_eq!(
        read_i64(b"-9223372036854775808", 0, 20),
        Some(i64::MIN)
    );
    assert_eq!(read_i64(b"-9223372036854775809", 0, 20), None);
    assert_eq!(
        read_i64(b"99999999999999999999999999999999999999999999", 0, 44),
        None
    );
}

#[test]
fn reads_unsigned_numbers() {
    assert_eq!(read_u64(b"0041", 0, 4), Some(41));
    assert_eq!(read_u64(b"+41", 0, 3), Some(41));
    assert_eq!(read_u64(b"-1", 0, 2), None);
    assert_eq!(read_u64(b"-0", 0, 2), None);
    assert_eq!(read_u64(b"18446744073709551615", 0, 20), Some(u64::MAX));
    assert_eq!(read_u64(b"18446744073709551616", 0, 20), None);
    assert_eq!(read_u64(b"00a1", 0, 4), None);
}

#[test]
fn reads_digits_up_to_a_cap() {
    assert_eq!(read_digits(b"255", 0, 3, 255), Some(255));
    assert_eq!(read_digits(b"256", 0, 3, 255), None);
    assert_eq!(read_digits(b"", 0, 0, 255), None);
    assert_eq!(read_digits(b"2x", 0, 2, 255), None);
}

#[test]
fn reading_what_was_written_gives_the_number_back() {
    for v in [0i64, 1, -1, 1000, -1000, i64::MAX, i64::MIN, 1712345678] {
        let text = text_of(v as i128);
        assert_eq!(read_i64(&text, 0, text.len()), Some(v));
    }
}
