use localemgmt::model::{get_basic_testable_item, TranslationContent};
use std::collections::hash_map::DefaultHasher;
use std::hash::Hasher;

#[test]
fn new_translation_item() {
    let item = get_basic_testable_item();
    assert_eq!(item.translation.content, "test".to_string());
    assert_eq!(item.translation.context, "test".to_string());
    assert_eq!(item.translation.lang, "it".to_string());
    assert_eq!(item.created_by, "user@mail.com".to_string());
    assert_eq!(item.updated_by, "user@mail.com".to_string());
    assert_eq!(item.updated_by, item.created_by);
    assert_ne!(item.id.to_string().len(), 0);
}

#[test]
fn translation_hash() {
    let mut test_hasher = DefaultHasher::new();
    test_hasher.write("[test - it]: test".as_bytes());
    let test_hash = test_hasher.finish();

    let item = get_basic_testable_item();
    let hash = item.get_content_hash();
    assert_eq!(hash, test_hash);
}

#[test]
fn translation_display() {
    let item = get_basic_testable_item();
    let item_display = item.display_string();
    assert_eq!(item_display, "[test - it]: test");
}

#[test]
fn content_hash_is_deterministic() {
    let a = TranslationContent::new("the tree", "default", "en");
    let b = TranslationContent::new("the tree", "default", "en");
    assert_eq!(a.get_content_hash(), a.get_content_hash());
    assert_eq!(a.get_content_hash(), b.get_content_hash());
    let c = TranslationContent::new("the shrub", "default", "en");
    assert_ne!(a.get_content_hash(), c.get_content_hash());
}

#[test]
fn complete_content_format() {
    let c = TranslationContent::new("the tree", "default", "en");
    assert_eq!(c.get_complete_content(), "[default - en]: the tree");
    let empty = TranslationContent::new("", "", "");
    assert_eq!(empty.get_complete_content(), "[ - ]: ");
}
