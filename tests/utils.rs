use passcurses::cipher::{keygen, KeyError};

#[test]
fn test_short_key_does_not_panic() {
    assert!(keygen("tooshort".as_bytes().to_vec()).is_ok());
}

#[test]
fn test_over_long_key_is_err() {
    assert!(keygen("averyveryverylongkeyfortesting".as_bytes().to_vec()).is_err());
}

#[test]
fn key_of_exactly_sixteen_bytes_is_accepted() {
    assert!(keygen(b"0123456789abcdef".to_vec()).is_ok());
    assert_eq!(
        keygen(b"0123456789abcdefg".to_vec()).err(),
        Some(KeyError::TooLong)
    );
}
