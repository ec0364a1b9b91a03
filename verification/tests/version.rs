use pedalboard_bridge::version::git_hash;

#[test]
fn injected_hash_is_shortened() {
    assert_eq!(git_hash(Some("0123456789abcdef"), None), "0123456");
    assert_eq!(git_hash(Some("0123456"), None), "0123456");
    assert_eq!(git_hash(Some("abc"), Some(b"v1".to_vec())), "abc");
    assert_eq!(git_hash(Some("ääähh"), None), "äääh");
}

#[test]
fn described_hash_is_trimmed() {
    assert_eq!(git_hash(None, Some(b"abc1234+dev\n".to_vec())), "abc1234+dev");
    assert_eq!(git_hash(Some(""), Some(b" v1.0-3-gabcdef \n".to_vec())), "v1.0-3-gabcdef");
}

#[test]
fn unknown_hash() {
    assert_eq!(git_hash(None, None), "unknown");
    assert_eq!(git_hash(Some(""), Some(b" \n".to_vec())), "unknown");
    assert_eq!(git_hash(None, Some(vec![0xFF, 0xFE])), "unknown");
}
