use twapi::account_activity::{
    calc_hmac, check_ip, check_signature, make_crc_token_response, make_response_token,
    signature_matches,
};

#[test]
fn hmac_sha256_in_base64() {
    assert_eq!(calc_hmac("secret", "body"), "3EaYNVf+oSe0OvchRn65s/3iM4/j4U9RlSqoR4wT01U=");
    assert_eq!(
        calc_hmac("key", "The quick brown fox jumps over the lazy dog"),
        "97yD9DBThCSxMpjmqm+xQ+9NWaFJRhdZl0edvC0aPNg="
    );
    assert_eq!(calc_hmac("", ""), "thNnmggU2ex3L5XXeMNfxf8Wl8STcVZTxscSFEKSxa0=");
    assert_eq!(
        calc_hmac("Jefe", "what do ya want for nothing?"),
        "W9zBRr9gdU5qBCQmCJV1x1oAPwidJzmDnexYuWTsOEM="
    );
}

#[test]
fn hmac_depends_on_key_and_input() {
    assert_ne!(calc_hmac("secret", "body"), calc_hmac("secret", "bodz"));
    assert_ne!(calc_hmac("secret", "body"), calc_hmac("secreu", "body"));
    assert_ne!(calc_hmac("secret", "body"), "body");
}

#[test]
fn hmac_of_a_key_longer_than_a_block() {
    let key = "k".repeat(100);
    let code = calc_hmac(&key, "body");
    assert_eq!(code.len(), 44);
    assert_eq!(code, calc_hmac(&key, "body"));
}

#[test]
fn signature_of_a_webhook_body() {
    let signature = "sha256=3EaYNVf+oSe0OvchRn65s/3iM4/j4U9RlSqoR4wT01U=";
    assert!(check_signature(signature, "secret", "body"));
    assert!(!check_signature(signature, "secret", "other body"));
    assert!(!check_signature(signature, "other secret", "body"));
    assert!(!check_signature("3EaYNVf+oSe0OvchRn65s/3iM4/j4U9RlSqoR4wT01U=", "secret", "body"));
    assert!(!check_signature("sha256=", "secret", "body"));
    assert!(!check_signature("", "secret", "body"));
}

#[test]
fn response_to_a_crc_token() {
    assert_eq!(
        make_crc_token_response("consumer-secret", "challenge-12345"),
        "{\"response_token\":\"sha256=jc/Sy9o0hkWmI4rxybjSopSWbwwnH3zBGhDPvkNGgGY=\"}"
    );
}

#[test]
fn addresses_of_the_first_block() {
    assert!(check_ip([199, 59, 148, 0]));
    assert!(check_ip([199, 59, 148, 1]));
    assert!(check_ip([199, 59, 149, 77]));
    assert!(check_ip([199, 59, 151, 255]));
    assert!(!check_ip([199, 59, 147, 255]));
    assert!(!check_ip([199, 59, 152, 0]));
}

#[test]
fn addresses_of_the_second_block() {
    assert!(check_ip([199, 16, 156, 0]));
    assert!(check_ip([199, 16, 157, 10]));
    assert!(check_ip([199, 16, 159, 255]));
    assert!(!check_ip([199, 16, 155, 255]));
    assert!(!check_ip([199, 16, 160, 0]));
}

#[test]
fn addresses_of_neither_block() {
    assert!(!check_ip([0, 0, 0, 0]));
    assert!(!check_ip([127, 0, 0, 1]));
    assert!(!check_ip([255, 255, 255, 255]));
    assert!(!check_ip([199, 16, 148, 0]));
    assert!(!check_ip([199, 59, 156, 0]));
    assert!(!check_ip([198, 59, 148, 0]));
    assert!(!check_ip([200, 16, 156, 0]));
}

#[test]
fn a_signature_is_the_code_after_its_tag() {
    assert!(signature_matches("sha256=abc", "abc"));
    assert!(signature_matches("sha256=", ""));
    assert!(!signature_matches("sha256=abd", "abc"));
    assert!(!signature_matches("abc", "abc"));
    assert!(!signature_matches("SHA256=abc", "abc"));
    assert!(!signature_matches("sha256=abc ", "abc"));
}

#[test]
fn a_response_token_wraps_the_code() {
    assert_eq!(make_response_token("abc"), "{\"response_token\":\"sha256=abc\"}");
    assert_eq!(make_response_token(""), "{\"response_token\":\"sha256=\"}");
}
