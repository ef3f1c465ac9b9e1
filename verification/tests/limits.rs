use routinator::config::limits::is_large_i64;

#[test]
fn small_numbers_are_not_large() {
    assert!(!is_large_i64(0));
    assert!(!is_large_i64(-1));
    assert!(!is_large_i64(4096));
    assert!(!is_large_i64(i64::MIN));
}

#[test]
fn large_numbers_follow_the_word_size() {
    let expected = (i64::MAX as u128) > (usize::MAX as u128);
    assert_eq!(is_large_i64(i64::MAX), expected);
}
