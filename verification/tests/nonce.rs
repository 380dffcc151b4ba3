use twapi::nonce::{fresh_nonce, pick_alphanumeric, NONCE_LENGTH};

#[test]
fn a_nonce_has_32_letters_and_digits() {
    for _ in 0..50 {
        let nonce = fresh_nonce();
        assert_eq!(nonce.len(), 32);
        assert_eq!(nonce.chars().count(), NONCE_LENGTH);
        assert!(nonce.chars().all(|c| c.is_ascii_alphanumeric()));
    }
}

#[test]
fn nonces_differ() {
    assert_ne!(fresh_nonce(), fresh_nonce());
}

#[test]
fn numbers_select_letters_then_digits() {
    assert_eq!(pick_alphanumeric(0), 'A');
    assert_eq!(pick_alphanumeric(25), 'Z');
    assert_eq!(pick_alphanumeric(26), 'a');
    assert_eq!(pick_alphanumeric(51), 'z');
    assert_eq!(pick_alphanumeric(52), '0');
    assert_eq!(pick_alphanumeric(61), '9');
    assert_eq!(pick_alphanumeric(62), 'A');
    assert_eq!(pick_alphanumeric(u32::MAX), pick_alphanumeric(u32::MAX % 62));
    let all: String = (0..62).map(pick_alphanumeric).collect();
    assert_eq!(all, "ABCDEFGHIJKLMNOPQRSTUVWXYZabcdefghijklmnopqrstuvwxyz0123456789");
}
