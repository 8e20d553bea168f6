use livemarkdown::AppState;

#[test]
fn register_is_idempotent() {
    // Registering the same path twice yields the same id, and the registry
    // holds exactly one entry for the path.
    let mut state = AppState::new();
    let a1 = state.register("/tmp/a.md".to_string());
    let again = state.register("/tmp/a.md".to_string());
    assert_eq!(a1, again);

    let all = state.get_all_documents();
    assert_eq!(all.len(), 1);
    assert_eq!(all[0].0, a1);
    assert_eq!(all[0].1, "/tmp/a.md");
}

#[test]
fn resolve_and_locate_are_mutual_inverses() {
    let mut state = AppState::new();
    let id = state.register("/tmp/a.md".to_string());
    let id2 = state.register("/tmp/b.md".to_string());

    let path = state.get_filepath_by_id(&id).unwrap();
    assert_eq!(state.get_id_by_filepath(&path), Some(id.clone()));
    let path2 = state.get_filepath_by_id(&id2).unwrap();
    assert_eq!(state.get_id_by_filepath(&path2), Some(id2.clone()));

    assert_eq!(state.get_filepath_by_id(&id), Some("/tmp/a.md".to_string()));
    assert_eq!(state.get_filepath_by_id(&id2), Some("/tmp/b.md".to_string()));
}

#[test]
fn update_position_then_read_it_back() {
    let mut state = AppState::new();
    let id = state.register("/tmp/a.md".to_string());

    assert!(state.update_position(&id, "2:1-2:10".to_string()));
    assert_eq!(state.get_position(&id), Some("2:1-2:10".to_string()));

    assert!(state.update_position(&id, "7:3-7:9".to_string()));
    assert_eq!(state.get_position(&id), Some("7:3-7:9".to_string()));
}

#[test]
fn update_position_unknown_id_reports_not_found() {
    let mut state = AppState::new();
    assert!(!state.update_position("nope", "1:1-1:1".to_string()));
    assert_eq!(state.get_position("nope"), None);
}

#[test]
fn new_document_has_default_position() {
    let mut state = AppState::new();
    let id = state.register("/tmp/a.md".to_string());
    assert_eq!(state.get_position(&id), Some("1:1-1:1".to_string()));
}

#[test]
fn remove_returns_path_and_forgets_document() {
    let mut state = AppState::new();
    let id = state.register("/tmp/b.md".to_string());

    assert_eq!(state.remove_document(&id), Some("/tmp/b.md".to_string()));
    assert_eq!(state.get_filepath_by_id(&id), None);
    assert_eq!(state.get_id_by_filepath("/tmp/b.md"), None);
    assert_eq!(state.get_position(&id), None);
    assert_eq!(state.get_all_documents().len(), 0);
}

#[test]
fn remove_unknown_id_is_safe() {
    let mut state = AppState::new();
    assert_eq!(state.remove_document("nonexistent-id"), None);
}

#[test]
fn register_after_remove_mints_the_same_id() {
    // Ids are content-addressed, so re-registering a removed path finds the
    // same id again.
    let mut state = AppState::new();
    let id = state.register("/tmp/c.md".to_string());
    state.remove_document(&id);
    let id2 = state.register("/tmp/c.md".to_string());
    assert_eq!(id, id2);
}

#[test]
fn list_all_snapshots_every_binding() {
    let mut state = AppState::new();
    let a = state.register("/path/to/first.md".to_string());
    let b = state.register("/path/to/second.md".to_string());
    let mut all = state.get_all_documents();
    all.sort();
    let mut expected = vec![
        (a, "/path/to/first.md".to_string()),
        (b, "/path/to/second.md".to_string()),
    ];
    expected.sort();
    assert_eq!(all, expected);
}
