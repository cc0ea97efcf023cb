use localemgmt::memory_repository::MemoryRepository;
use localemgmt::model::TranslationContent;
use localemgmt::repository::{TranslationRepository, TranslationRepositoryError};

fn fill_three(repo: &mut impl TranslationRepository) {
    let user = "user@mail.com".to_string();
    repo.add_translation(
        TranslationContent::new("the tree", "default", "en"),
        user.clone(),
    )
    .unwrap();
    repo.add_translation(
        TranslationContent::new("the tree is high", "default", "en"),
        user.clone(),
    )
    .unwrap();
    repo.add_translation(
        TranslationContent::new("the tree is green", "default", "en"),
        user,
    )
    .unwrap();
}

// An empty query language matches nothing, even when content and context
// would match every record: it is not a wildcard.
#[test]
fn partial_search_empty_lang_matches_nothing() {
    let mut repo = MemoryRepository::new();
    fill_three(&mut repo);
    let result =
        repo.get_translations_by_partial_content(TranslationContent::new("tree", "default", ""));
    assert!(result.is_none());
}

#[test]
fn exact_match_returns_the_added_id() {
    let mut repo = MemoryRepository::new();
    fill_three(&mut repo);
    let added = repo
        .add_translation(
            TranslationContent::new("ciao", "greeting", "it"),
            "user@mail.com".to_string(),
        )
        .unwrap();
    let found = repo
        .get_translation_by_exact_match(TranslationContent::new("ciao", "greeting", "it"))
        .unwrap();
    assert_eq!(found.id, added.id);
    assert_eq!(found.translation.content, "ciao");
}

#[test]
fn update_preserves_identity_fields() {
    let mut repo = MemoryRepository::new();
    let added = repo
        .add_translation(
            TranslationContent::new("the tree", "default", "en"),
            "user@mail.com".to_string(),
        )
        .unwrap();
    let updated = repo
        .update_translation(
            added.id,
            TranslationContent::new("the oak", "default", "en"),
            "maintainer".to_string(),
        )
        .unwrap();
    assert_eq!(updated.id, added.id);
    assert_eq!(updated.created_by, added.created_by);
    assert_eq!(updated.created_at, added.created_at);
    assert_eq!(updated.translation.content, "the oak");
    assert_eq!(updated.updated_by, "maintainer");
    let fetched = repo.get_translation_by_id(&added.id).unwrap();
    assert_eq!(fetched.translation.content, "the oak");
}

#[test]
fn update_unknown_id_changes_nothing() {
    let mut repo = MemoryRepository::new();
    fill_three(&mut repo);
    let result = repo.update_translation(
        uuid::Uuid::new_v4().as_u128(),
        TranslationContent::new("anything", "default", "en"),
        "maintainer".to_string(),
    );
    assert_eq!(
        result.err().unwrap(),
        TranslationRepositoryError::ItemIdNotPresent
    );
    // the three records are still there, untouched
    let all = repo
        .get_translations_by_partial_content(TranslationContent::new("tree", "default", "en"))
        .unwrap();
    assert_eq!(all.len(), 3);
}

#[test]
fn remove_frees_the_content_slot() {
    let mut repo = MemoryRepository::new();
    let added = repo
        .add_translation(
            TranslationContent::new("the tree", "default", "en"),
            "user@mail.com".to_string(),
        )
        .unwrap();
    let duplicate = repo.add_translation(
        TranslationContent::new("the tree", "default", "en"),
        "user@mail.com".to_string(),
    );
    assert!(matches!(
        duplicate,
        Err(TranslationRepositoryError::ContentAlreadyPresent)
    ));
    let removed = repo.remove_translation(added.id).unwrap();
    assert_eq!(removed.id, added.id);
    let readded = repo.add_translation(
        TranslationContent::new("the tree", "default", "en"),
        "user@mail.com".to_string(),
    );
    assert!(readded.is_ok());
    assert!(repo.get_translation_by_id(&added.id).is_none());
}

// The secondary index is not re-keyed on update: the record's entry there
// still carries the hash of the content it was added with. So after an
// update, an exact-match lookup of the new content misses, one of the old
// content still resolves to the record, and an add of the new content
// succeeds as if it were absent.
#[test]
fn update_leaves_dedup_index_stale() {
    let mut repo = MemoryRepository::new();
    let added = repo
        .add_translation(
            TranslationContent::new("the tree", "default", "en"),
            "user@mail.com".to_string(),
        )
        .unwrap();
    repo.update_translation(
        added.id,
        TranslationContent::new("the oak", "default", "en"),
        "maintainer".to_string(),
    )
    .unwrap();

    let by_new = repo.get_translation_by_exact_match(TranslationContent::new(
        "the oak", "default", "en",
    ));
    assert!(by_new.is_none());

    let by_old = repo
        .get_translation_by_exact_match(TranslationContent::new("the tree", "default", "en"))
        .unwrap();
    assert_eq!(by_old.id, added.id);
    assert_eq!(by_old.translation.content, "the oak");

    let second = repo.add_translation(
        TranslationContent::new("the oak", "default", "en"),
        "user@mail.com".to_string(),
    );
    assert!(second.is_ok());
}

#[test]
fn partial_search_respects_substring_and_context() {
    let mut repo = MemoryRepository::new();
    let user = "user@mail.com".to_string();
    repo.add_translation(TranslationContent::new("hello", "home", "en"), user.clone())
        .unwrap();
    repo.add_translation(
        TranslationContent::new("hello world", "home", "en"),
        user.clone(),
    )
    .unwrap();
    repo.add_translation(TranslationContent::new("hello", "away", "en"), user)
        .unwrap();

    let hits = repo
        .get_translations_by_partial_content(TranslationContent::new("hello", "home", "en"))
        .unwrap();
    assert_eq!(hits.len(), 2);
    let hits = repo
        .get_translations_by_partial_content(TranslationContent::new("lo wo", "home", "en"))
        .unwrap();
    assert_eq!(hits.len(), 1);
    assert_eq!(hits[0].translation.content, "hello world");
    // the empty string is a substring of everything
    let hits = repo
        .get_translations_by_partial_content(TranslationContent::new("", "home", "en"))
        .unwrap();
    assert_eq!(hits.len(), 2);
}
