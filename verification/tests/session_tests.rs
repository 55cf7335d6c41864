use lattice_cli::session::{
    finalize_session_turn, session_id, session_sort_key, title_from_content, validate_session_id, Session,
    SessionError, SessionManager, SessionMessage, SessionSummary,
};

fn plain(role: &str, content: &str) -> SessionMessage {
    SessionMessage {
        role: role.into(),
        content: content.into(),
        reasoning_content: None,
        tool_calls: None,
        tool_call_id: None,
        name: None,
    }
}

fn test_session(id: &str) -> Session {
    Session {
        id: id.into(),
        model: "test-model".into(),
        provider: "test-provider".into(),
        title: None,
        messages: vec![plain("user", "hello"), plain("assistant", "hi")],
        created_at: "2026-05-01T00:00:00+08:00".into(),
        updated_at: "2026-05-01T00:00:00+08:00".into(),
    }
}

#[test]
fn invalid_session_ids_are_rejected() {
    assert_eq!(validate_session_id("../escape"), Err(SessionError::InvalidId));
    assert_eq!(validate_session_id("bad/id"), Err(SessionError::InvalidId));
    assert_eq!(validate_session_id("bad.id"), Err(SessionError::InvalidId));
    assert_eq!(validate_session_id(""), Err(SessionError::InvalidId));
    assert_eq!(validate_session_id(&"a".repeat(129)), Err(SessionError::InvalidId));
    assert!(validate_session_id("good_id-1").is_ok());
    let manager = SessionManager::from_dir("/data/sessions".into());
    assert_eq!(manager.session_path("good_id-1").unwrap(), "/data/sessions/good_id-1.json");
    assert!(manager.session_path("bad.id").is_err());
}

#[test]
fn latest_is_the_most_recently_updated() {
    let mut older = test_session("older");
    older.updated_at = "2026-05-01T00:00:00+08:00".into();
    let mut newer = test_session("newer");
    newer.updated_at = "2026-05-02T00:00:00+08:00".into();
    let manager = SessionManager::from_dir("/tmp/s".into());
    assert!(manager.latest(vec![]).is_none());
    let listed = vec![SessionSummary::of(older), SessionSummary::of(newer)];
    assert_eq!(manager.latest(listed).unwrap(), "newer");
}

#[test]
fn append_turn_updates_existing_session() {
    let mut session = test_session("thread-1");
    session.append_turn("next-model".into(), "next-provider".into(), "follow up".into(), "answer".into());
    assert_eq!(session.id, "thread-1");
    assert_eq!(session.model, "next-model");
    assert_eq!(session.provider, "next-provider");
    assert_eq!(session.messages.len(), 4);
    assert_eq!(session.messages[2].content, "follow up");
    assert_eq!(session.messages[3].content, "answer");
}

#[test]
fn new_thread_gets_a_title_and_hashed_id() {
    let s = finalize_session_turn(None, "m".into(), "p".into(), "  What   is\nthis?  ".into(), "An answer".into());
    assert_eq!(s.title.as_deref(), Some("What is this?"));
    assert_eq!(s.messages.len(), 2);
    assert_eq!(s.id.len(), 16);
    assert!(s.id.chars().all(|c| c.is_ascii_hexdigit()));
}

#[test]
fn titles_are_squashed_and_capped() {
    assert_eq!(title_from_content("   "), None);
    assert_eq!(title_from_content(&"word ".repeat(30)).unwrap().chars().count(), 80);
}

#[test]
fn session_ids_hash_model_provider_and_time() {
    let a = session_id("m", "p", 1);
    assert_eq!(a, session_id("m", "p", 1));
    assert_ne!(a, session_id("m", "p", 2));
    assert_eq!(a.len(), 16);
}

#[test]
fn sort_keys_order_timestamps() {
    assert!(session_sort_key("2026-05-02T00:00:00+08:00") > session_sort_key("2026-05-01T00:00:00+08:00"));
    assert_eq!(session_sort_key("garbage"), 0);
}

#[test]
fn new_session_ids_can_name_a_file() {
    for (m, p, n) in [("sonnet", "anthropic", 1u128), ("gpt-4o", "", 123456789), ("", "", 0)] {
        let id = session_id(m, p, n);
        assert_eq!(id.len(), 16);
        assert!(validate_session_id(&id).is_ok());
    }
    let s = Session::new("sonnet".into(), "anthropic".into());
    assert!(validate_session_id(&s.id).is_ok());
}

#[test]
fn appending_a_turn_stamps_an_rfc3339_time() {
    let mut s = test_session("stamp-1");
    s.updated_at = String::new();
    s.append_turn("m".into(), "p".into(), "q".into(), "a".into());
    let c: Vec<char> = s.updated_at.chars().collect();
    assert!(c.len() >= 25);
    assert!(c[c.len() - 6] == '+' || c[c.len() - 6] == '-');
    assert_eq!(c[c.len() - 3], ':');
}
