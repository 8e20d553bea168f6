use livemarkdown::utils::generate_document_id;

#[test]
fn id_is_deterministic() {
    let a = generate_document_id("/path/to/file.md");
    let b = generate_document_id("/path/to/file.md");
    assert_eq!(a, b);
}

#[test]
fn id_carries_sanitized_filename() {
    assert!(generate_document_id("/path/to/test.md").starts_with("test-md-"));
    assert!(generate_document_id("/deep/nested/path/to/readme.md").starts_with("readme-md-"));
    assert!(generate_document_id("/path/my-file.name.with.dots.md")
        .starts_with("my-file-name-with-dots-md-"));
    assert!(generate_document_id("/path/to/README").starts_with("README-"));
}

#[test]
fn id_placeholder_for_missing_filename() {
    assert!(generate_document_id("").starts_with("unknown-"));
    assert!(generate_document_id("/path/dir/").starts_with("unknown-"));
}

#[test]
fn id_hash_is_short_lowercase_hex() {
    let id = generate_document_id("/test/consistency.md");
    let hash = id.rsplit('-').next().unwrap();
    assert!(hash.len() <= 8);
    assert!(!hash.is_empty());
    assert!(hash.chars().all(|c| c.is_ascii_hexdigit() && !c.is_ascii_uppercase()));
}

#[test]
fn distinct_paths_get_distinct_ids() {
    let a = generate_document_id("/tmp/a.md");
    let b = generate_document_id("/tmp/b.md");
    assert_ne!(a, b);
}
