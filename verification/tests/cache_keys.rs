use music_sorter::cache_keys::{api_key, content_digest_hex};

#[test]
fn test_api_key_normalizes_case_and_whitespace() {
    assert_eq!(api_key("  Hello   World  "), api_key("hello world"));
}

#[test]
fn api_key_exact_value() {
    assert_eq!(api_key("  Boards\tOf   CANADA|Geogaddi "), "boards of canada|geogaddi");
    assert_eq!(api_key("   "), "");
}

#[test]
fn test_content_hash_stable() {
    let h = content_digest_hex(b"hello");
    assert_eq!(h, "2cf24dba5fb0a30e26e83b2ac5b9e29e1b161e5c1fa7425e73043362938b9824");
    assert_eq!(h.len(), 64);
    assert_eq!(content_digest_hex(b"hello"), h);
}

#[test]
fn test_content_hash_differs_per_content() {
    assert_ne!(content_digest_hex(b"foo"), content_digest_hex(b"bar"));
}

#[test]
fn api_key_ignores_spacing() {
    let once = api_key("  Boards \t of\n Canada ");
    assert_eq!(once, "boards of canada");
    assert_eq!(api_key("Boards of Canada"), once);
}
