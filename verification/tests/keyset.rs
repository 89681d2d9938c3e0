//! The key-set interface: parsing and key lookup.

use moq_lite::token::{KeyOperation, KeySet};

#[test]
fn test_keyset_from_str_valid() {
    let json = r#"{"keys":[{"kty":"oct","k":"2AJvfDJMVfWe9WMRPJP-4zCGN8F62LOy3dUr--rogR8","alg":"HS256","key_ops":["verify","sign"],"kid":"1"}]}"#;
    let set = KeySet::from_str(json);
    assert!(set.is_ok());
    let set = set.unwrap();
    assert_eq!(set.keys.len(), 1);
    assert_eq!(set.keys[0].kid.as_deref(), Some("1"));
    assert!(set.find_key("1").is_some());
}

#[test]
fn test_keyset_from_str_invalid_json() {
    let result = KeySet::from_str("invalid json");
    assert!(result.is_err());
}

#[test]
fn test_keyset_from_str_empty() {
    let json = r#"{"keys":[]}"#;
    let set = KeySet::from_str(json).unwrap();
    assert!(set.keys.is_empty());
}

#[test]
fn test_keyset_operations_parsed() {
    let json = r#"{"keys":[{"kty":"oct","k":"c2VjcmV0","alg":"HS256","key_ops":["verify","sign"],"kid":"a"}]}"#;
    let set = KeySet::from_str(json).unwrap();
    assert!(set.find_supported_key(KeyOperation::Sign).is_some());
    assert!(set.find_supported_key(KeyOperation::Verify).is_some());
    assert!(set.find_key("missing").is_none());
}

#[test]
fn test_keyset_public_set_fails_for_symmetric() {
    let json = r#"{"keys":[{"kty":"oct","k":"c2VjcmV0","alg":"HS256","key_ops":["sign"],"kid":"a"}]}"#;
    let set = KeySet::from_str(json).unwrap();
    assert!(set.to_public_set().is_none());
}
