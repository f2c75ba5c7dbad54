use remote_uci::secret::{constant_time_eq, Secret};
use remote_uci::session::{authenticate, SessionError};

#[test]
fn equal_secrets_pass() {
    let s = Secret::new(b"0123456789abcdef".to_vec());
    assert!(s.verify(b"0123456789abcdef"));
    assert!(authenticate(&s, b"0123456789abcdef").is_ok());
}

#[test]
fn mismatch_fails_wherever_it_occurs() {
    let s = Secret::new(b"0123456789abcdef".to_vec());
    // first byte differs
    assert!(!s.verify(b"X123456789abcdef"));
    // middle byte differs
    assert!(!s.verify(b"01234567X9abcdef"));
    // last byte differs
    assert!(!s.verify(b"0123456789abcdeX"));
    assert_eq!(authenticate(&s, b"0123456789abcdeX"), Err(SessionError::Authentication));
}

#[test]
fn length_mismatch_fails() {
    let s = Secret::new(b"abc".to_vec());
    assert!(!s.verify(b"ab"));
    assert!(!s.verify(b"abcd"));
    assert!(!s.verify(b""));
}

#[test]
fn empty_secrets_compare_equal() {
    assert!(constant_time_eq(b"", b""));
    assert!(!constant_time_eq(b"", b"a"));
}
