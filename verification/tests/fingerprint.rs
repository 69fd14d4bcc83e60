use patentrag::fingerprint::{cache_key, key_of_digest};

#[test]
fn key_is_prefix_and_hex_digest() {
    assert_eq!(
        cache_key("hello"),
        "embed:2cf24dba5fb0a30e26e83b2ac5b9e29e1b161e5c1fa7425e73043362938b9824"
    );
}

#[test]
fn key_of_empty_text() {
    assert_eq!(
        cache_key(""),
        "embed:e3b0c44298fc1c149afbf4c8996fb92427ae41e4649b934ca495991b7852b855"
    );
}

#[test]
fn key_hashes_utf8_bytes() {
    assert_eq!(
        cache_key("abc"),
        "embed:ba7816bf8f01cfea414140de5dae2223b00361a396177a9cb410ff61f20015ad"
    );
    assert_ne!(cache_key("abc"), cache_key("abc "));
}

#[test]
fn equal_texts_have_equal_keys() {
    let a = cache_key("what is claimed in patent 42?");
    let b = cache_key("what is claimed in patent 42?");
    assert_eq!(a, b);
    assert_eq!(a.len(), 70);
    assert!(a[6..].chars().all(|c| c.is_ascii_digit() || ('a'..='f').contains(&c)));
}

#[test]
fn digest_is_written_in_lowercase_hex() {
    assert_eq!(key_of_digest(&vec![0x00, 0x0f, 0xa0, 0xff, 0x19, 0x9a]), "embed:000fa0ff199a");
    assert_eq!(key_of_digest(&Vec::new()), "embed:");
}
