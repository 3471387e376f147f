use ema_crossover::signing::{request_expiry, ring_sha256_to_str, sign_request, REQUEST_LIFETIME_SECS};

#[test]
fn strips_tag_wrapper() {
    assert_eq!(ring_sha256_to_str("Tag(SHA256:0a1b2c)"), "0a1b2c");
}

#[test]
fn short_text_gives_empty() {
    assert_eq!(ring_sha256_to_str(""), "");
    assert_eq!(ring_sha256_to_str("Tag(SHA256:"), "");
}

#[test]
fn twelve_bytes_gives_empty_middle() {
    assert_eq!(ring_sha256_to_str("Tag(SHA256:)"), "");
}

#[test]
fn cut_counts_bytes() {
    // "\u{e9}" takes two bytes, so the eleven-byte prefix ends before the colon.
    assert_eq!(ring_sha256_to_str("\u{e9}ag(SHA256:ff)"), ":ff");
}

#[test]
fn signs_wallet_request() {
    let signature = sign_request("c2VjcmV0", "/spot/wallets", "currency=BTC", 1700000060);
    assert_eq!(
        signature,
        Some("1e506cd9b751ffe1eec7f4eb3919ba10365ec3614efdf1dae666d5b3360e8850".to_string())
    );
}

#[test]
fn signs_with_empty_secret() {
    let signature = sign_request("", "/spot/wallets", "currency=BTC", 1700000060);
    assert_eq!(
        signature,
        Some("f28669fbcab0252ca68f9ebe2f019d27850b6818fa77e117445dff5b30cced81".to_string())
    );
}

#[test]
fn signs_zero_expiry() {
    let signature = sign_request("a2V5", "", "", 0);
    assert_eq!(
        signature,
        Some("089c386a9149b5cce5972bfe0f05c8d6e92de22e902457b3a23a69a79f85fa97".to_string())
    );
}

#[test]
fn signs_utf8_payload() {
    let signature = sign_request("a2V5", "/p\u{e9}", "q=1", 42);
    assert_eq!(
        signature,
        Some("3929604b3da082e6efc02bd19028c2903f2495ddb763da44fd07419fe6fda285".to_string())
    );
}

#[test]
fn rejects_invalid_secret() {
    assert_eq!(sign_request("!!not base64!!", "/spot/wallets", "currency=BTC", 1), None);
    assert_eq!(sign_request("a2V5==", "/spot/wallets", "currency=BTC", 1), None);
}

#[test]
fn signature_is_sixty_four_hex_digits() {
    let signature = sign_request("a2V5", "/x", "y", 7).unwrap();
    assert_eq!(signature.len(), 64);
    assert!(signature.chars().all(|c| c.is_ascii_hexdigit() && !c.is_ascii_uppercase()));
}

#[test]
fn expiry_is_a_minute_later() {
    assert_eq!(REQUEST_LIFETIME_SECS, 60);
    assert_eq!(request_expiry(1700000000), 1700000060);
    assert_eq!(request_expiry(u64::MAX - 60), u64::MAX);
}
