//! The digest function against known SHA-1 values, and its determinism.

#[test]
fn hash_hello_known_value() {
    let data: Vec<u8> = "hello".bytes().collect();
    let d = grist::digest::hash(&data);
    assert_eq!(d, "aaf4c61ddcc5e8a2dabede0f3b482cd9aea9434d".to_string());
}

#[test]
fn hash_empty_known_value() {
    let data: Vec<u8> = Vec::new();
    let d = grist::digest::hash(&data);
    assert_eq!(d, "da39a3ee5e6b4b0d3255bfef95601890afd80709".to_string());
}

#[test]
fn hash_is_deterministic() {
    let data: Vec<u8> = "some repository content".bytes().collect();
    let d1 = grist::digest::hash(&data);
    let d2 = grist::digest::hash(&data);
    assert_eq!(d1, d2);
    assert_eq!(d1.len(), 40);
    assert!(d1.chars().all(|c| c.is_ascii_hexdigit() && !c.is_ascii_uppercase()));
}

#[test]
fn hash_differs_on_content_change() {
    let a: Vec<u8> = "hello".bytes().collect();
    let b: Vec<u8> = "hellp".bytes().collect();
    assert_ne!(grist::digest::hash(&a), grist::digest::hash(&b));
}
