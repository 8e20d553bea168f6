use livemarkdown::session::{file_changed_message, MessageKind, SessionAction};
use livemarkdown::{AppState, DocumentEvent};

#[test]
fn removed_document_cannot_be_opened() {
    // remove(id) followed by opening a session for id reports not-found.
    let mut state = AppState::new();
    let b1 = state.register("/tmp/b.md".to_string());
    assert!(state.open_session(&b1).is_some());
    state.remove_document(&b1);
    assert!(state.open_session(&b1).is_none());
}

#[test]
fn unknown_id_cannot_be_opened() {
    let mut state = AppState::new();
    assert!(state.open_session("nonexistent-id").is_none());
}

#[test]
fn first_message_is_default_position_snapshot() {
    // A session opened before any position update snapshots the default.
    let mut state = AppState::new();
    let id = state.register("/tmp/a.md".to_string());
    let mut session = state.open_session(&id).unwrap();
    let snapshot = session.emit_snapshot();
    assert!(matches!(snapshot.kind, MessageKind::Position));
    assert_eq!(snapshot.data, "{\"sourcepos\":\"1:1-1:1\"}");
}

#[test]
fn snapshot_carries_position_at_open_time() {
    let mut state = AppState::new();
    let id = state.register("/tmp/a.md".to_string());
    state.update_position(&id, "3:1-3:7".to_string());
    let mut session = state.open_session(&id).unwrap();
    let snapshot = session.emit_snapshot();
    assert_eq!(snapshot.data, "{\"sourcepos\":\"3:1-3:7\"}");
}

#[test]
fn events_for_other_documents_are_ignored() {
    // A session subscribed to one id never delivers an event tagged with
    // another id.
    let mut state = AppState::new();
    let a = state.register("/tmp/a.md".to_string());
    let b = state.register("/tmp/b.md".to_string());

    let mut session = state.open_session(&a).unwrap();
    session.emit_snapshot();
    session.start_streaming();

    assert!(state.update_position(&b, "9:9-9:9".to_string()));
    let ev = state.poll_session(&session).unwrap();
    let act = state.session_action(&session, &ev);
    assert!(matches!(act, SessionAction::Ignore));
    assert_eq!(state.poll_session(&session).map(|_| ()), None);

    // The session for b receives it instead.
    let mut session_b = state.open_session(&b).unwrap();
    session_b.emit_snapshot();
    session_b.start_streaming();
    assert!(state.update_position(&b, "2:1-2:10".to_string()));
    let ev_b = state.poll_session(&session_b).unwrap();
    match state.session_action(&session_b, &ev_b) {
        SessionAction::Deliver(m) => {
            assert!(matches!(m.kind, MessageKind::Position));
            assert_eq!(m.data, "{\"sourcepos\":\"2:1-2:10\"}");
        },
        _ => panic!("expected a position message"),
    }
}

#[test]
fn matched_position_update_is_forwarded() {
    let mut state = AppState::new();
    let a1 = state.register("/tmp/a.md".to_string());
    let mut session = state.open_session(&a1).unwrap();
    session.emit_snapshot();
    session.start_streaming();

    assert!(state.update_position(&a1, "2:1-2:10".to_string()));
    let ev = state.poll_session(&session).unwrap();
    match state.session_action(&session, &ev) {
        SessionAction::Deliver(m) => {
            assert!(matches!(m.kind, MessageKind::Position));
            assert_eq!(m.data, "{\"sourcepos\":\"2:1-2:10\"}");
        },
        _ => panic!("expected a position message"),
    }
}

#[test]
fn matched_file_change_asks_for_a_render() {
    let mut state = AppState::new();
    let id = state.register("/tmp/watched.md".to_string());
    let mut session = state.open_session(&id).unwrap();
    session.emit_snapshot();
    session.start_streaming();

    assert!(state.on_file_changed("/tmp/watched.md"));
    let ev = state.poll_session(&session).unwrap();
    match state.session_action(&session, &ev) {
        SessionAction::ReadAndRender(path) => assert_eq!(path, "/tmp/watched.md"),
        _ => panic!("expected a render request"),
    }
}

#[test]
fn change_for_unregistered_path_is_dropped() {
    let mut state = AppState::new();
    let id = state.register("/tmp/a.md".to_string());
    let mut session = state.open_session(&id).unwrap();
    session.emit_snapshot();
    session.start_streaming();

    assert!(!state.on_file_changed("/tmp/other.md"));
    assert!(state.poll_session(&session).is_none());
}

#[test]
fn document_gone_at_delivery_degrades_to_placeholder() {
    let mut state = AppState::new();
    let id = state.register("/tmp/a.md".to_string());
    let mut session = state.open_session(&id).unwrap();
    session.emit_snapshot();
    session.start_streaming();

    // The change is published, then the document is removed before the
    // session handles the event.
    assert!(state.on_file_changed("/tmp/a.md"));
    state.remove_document(&id);
    let ev = state.poll_session(&session).unwrap();
    match state.session_action(&session, &ev) {
        SessionAction::Deliver(m) => {
            assert!(matches!(m.kind, MessageKind::FileChanged));
            assert_eq!(m.data, "{\"html\":\"<p>Document not found</p>\"}");
        },
        _ => panic!("expected a placeholder message"),
    }
}

#[test]
fn file_changed_message_renders_content() {
    let m = file_changed_message(Some("# Title\n\nBody text."));
    assert!(matches!(m.kind, MessageKind::FileChanged));
    assert!(m.data.starts_with("{\"html\":\""));
    assert!(m.data.ends_with("\"}"));
    // The content went through the renderer: heading markup, escaped for
    // JSON.
    assert!(m.data.contains("<h1"));
    assert!(m.data.contains("data-sourcepos="));
    assert!(m.data.contains("\\\""));
    assert!(!m.data.contains("# Title"));
}

#[test]
fn file_changed_message_read_failure_placeholder() {
    let m = file_changed_message(None);
    assert!(matches!(m.kind, MessageKind::FileChanged));
    assert_eq!(m.data, "{\"html\":\"<p>Error reading file</p>\"}");
}

#[test]
fn closing_a_session_stops_delivery() {
    let mut state = AppState::new();
    let id = state.register("/tmp/a.md".to_string());
    let mut session = state.open_session(&id).unwrap();
    session.emit_snapshot();
    session.start_streaming();

    state.close_session(&mut session);
    state.update_position(&id, "4:4-4:4".to_string());
    assert!(state.poll_session(&session).is_none());
}

#[test]
fn a_full_subscription_drops_its_oldest_events() {
    // The bus holds 100 undelivered events per subscription; older ones are
    // dropped first, and the publisher is never blocked.
    let mut state = AppState::new();
    let id = state.register("/tmp/a.md".to_string());
    let session = state.open_session(&id).unwrap();

    for i in 0..105 {
        assert!(state.update_position(&id, format!("{}:1-1:1", i)));
    }
    let mut received = Vec::new();
    while let Some(ev) = state.poll_session(&session) {
        match ev {
            DocumentEvent::PositionUpdate { sourcepos, .. } => received.push(sourcepos),
            DocumentEvent::FileChanged { .. } => panic!("no file change was published"),
        }
    }
    assert_eq!(received.len(), 100);
    assert_eq!(received[0], "5:1-1:1");
    assert_eq!(received[99], "104:1-1:1");
}

#[test]
fn subscription_sees_only_later_events() {
    let mut state = AppState::new();
    let id = state.register("/tmp/a.md".to_string());
    state.update_position(&id, "2:2-2:2".to_string());
    let session = state.open_session(&id).unwrap();
    // Nothing published before the subscription is ever delivered.
    assert!(state.poll_session(&session).is_none());
}
