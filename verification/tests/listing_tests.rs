use lattice_cli::listing::{
    plugins_listing, restore_id, restored_notice, saved_notice, sessions_by_model, sessions_listing,
    total_messages,
};
use lattice_cli::session::{content_hash, SessionSummary};

fn summary(id: &str, model: &str, count: usize, created: &str) -> SessionSummary {
    SessionSummary {
        id: id.to_string(),
        model: model.to_string(),
        provider: "p".to_string(),
        title: None,
        created_at: created.to_string(),
        updated_at: created.to_string(),
        message_count: count,
    }
}

#[test]
fn sessions_listing_rows_cut_ids_and_times() {
    let list = vec![
        summary("0123456789abcdef", "sonnet", 4, "2025-01-02T03:04:05Z"),
        summary("abc", "gpt-4o", 2, "2025-01-03"),
    ];
    assert_eq!(
        sessions_listing(&list),
        "2 session(s) · /sessions restore <id> to load:\n  01234567  4 msgs  sonnet  2025-01-02T03:04\n  abc  2 msgs  gpt-4o  2025-01-03"
    );
}

#[test]
fn sessions_listing_empty() {
    assert_eq!(sessions_listing(&Vec::new()), "No saved sessions. Use /sessions restore <id> to load one.");
}

#[test]
fn restore_takes_exact_id_or_first_prefix() {
    let list = vec![summary("aa11", "m", 1, "t"), summary("bb22", "m", 1, "t"), summary("bb33", "m", 1, "t")];
    assert_eq!(restore_id(true, "zz", &list), Some("zz".to_string()));
    assert_eq!(restore_id(false, "bb", &list), Some("bb22".to_string()));
    assert_eq!(restore_id(false, "cc", &list), None);
}

#[test]
fn restored_and_saved_notices() {
    assert_eq!(restored_notice("0123456789", "sonnet", 3), "Restored session 01234567 (sonnet, 3 messages).");
    assert_eq!(saved_notice(5, 120), "Session saved (5 messages, 120 tok).");
}

#[test]
fn plugins_listing_pads_names() {
    let s = vec![("review".to_string(), "Code review".to_string())];
    assert_eq!(
        plugins_listing(2, &s),
        "2 plugin(s) loaded · /plugin <name> <prompt>:\n  review           Code review"
    );
    assert_eq!(plugins_listing(0, &Vec::new()), "No plugins loaded.");
}

#[test]
fn stats_count_sessions_by_model() {
    let list = vec![summary("a", "sonnet", 3, "t"), summary("b", "gpt", 4, "t"), summary("c", "sonnet", 5, "t")];
    assert_eq!(sessions_by_model(&list), vec![("sonnet".to_string(), 2), ("gpt".to_string(), 1)]);
    assert_eq!(total_messages(&list), 12);
    assert!(sessions_by_model(&Vec::new()).is_empty());
}

#[test]
fn content_hash_is_sha256_hex() {
    assert_eq!(content_hash("abc"), "ba7816bf8f01cfea414140de5dae2223b00361a396177a9cb410ff61f20015ad");
    assert_eq!(content_hash("").len(), 64);
}
