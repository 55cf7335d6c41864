use lattice_cli::agent::Role;
use lattice_cli::app::{App, AppStatus, Key, KeyAction, KeyPress, MenuKind, SlashOutcome, SubmitStep};
use lattice_cli::chat::{ChatMessage, FileSnapshot, ToolStatus};
use lattice_cli::filediff::{completed_file_diff, snapshot_of, DiffRead};
use lattice_cli::listing::plugins_listing;
use lattice_cli::session::{Session, SessionMessage};

/// A token estimate for the tests: one token per character.
fn chars(s: &String) -> usize {
    s.chars().count()
}

fn text(s: &str) -> Vec<char> {
    s.chars().collect()
}

fn input_of(app: &App) -> String {
    app.input.iter().collect()
}

fn plain(role: &str, content: &str) -> SessionMessage {
    SessionMessage {
        role: role.into(),
        content: content.into(),
        reasoning_content: None,
        tool_calls: None,
        tool_call_id: None,
        name: None,
    }
}

fn test_session() -> Session {
    Session {
        id: "session-1".into(),
        model: "old-model".into(),
        provider: "old-provider".into(),
        title: None,
        messages: vec![plain("user", "old question"), plain("assistant", "old answer")],
        created_at: "2026-05-05T00:00:00+08:00".into(),
        updated_at: "2026-05-05T00:00:00+08:00".into(),
    }
}

fn key(k: Key) -> KeyPress {
    KeyPress { key: k, ctrl: false, shift: false }
}

#[test]
fn stream_error_sets_status_and_appends_visible_error() {
    let mut app = App::new();
    app.status = AppStatus::Streaming;
    app.active_turn_id = Some(7);
    app.active_assistant_index = Some(0);
    app.messages.push(ChatMessage::new(Role::Assistant, "partial response".into()));

    app.apply_stream_token(7, String::new(), None, false, Some("provider failed".into()), &chars);

    assert!(matches!(&app.status, AppStatus::Error(e) if e == "provider failed"));
    assert_eq!(app.messages.last().unwrap().content, "partial response\nError: provider failed");
}

#[test]
fn stale_turn_tokens_are_ignored() {
    let mut app = App::new();
    app.active_turn_id = Some(9);
    app.active_assistant_index = Some(0);
    app.messages.push(ChatMessage::new(Role::Assistant, String::new()));

    app.apply_stream_token(8, "ignored".into(), None, false, None, &chars);

    assert!(app.messages[0].content.is_empty());
}

#[test]
fn streamed_reply_accumulates_and_finishes() {
    let mut app = App::new();
    app.save_sessions = true;
    let turn = app.begin_model_turn("question".into(), 2);
    assert!(matches!(app.status, AppStatus::Streaming));
    app.apply_stream_token(turn, "Hel".into(), Some("think".into()), false, None, &chars);
    assert_eq!(app.token_count, 2 + 3 + 5);
    app.apply_stream_token(turn, "lo".into(), None, false, None, &chars);
    assert_eq!(app.token_count, 12);
    let out = app.apply_stream_token(turn, String::new(), None, true, None, &chars);
    assert!(out.finished);
    assert!(out.save_session);
    assert!(matches!(app.status, AppStatus::Ready));
    assert_eq!(app.messages.len(), 2);
    assert_eq!(app.messages[1].content, "Hello");
    assert_eq!(app.messages[1].reasoning.as_deref(), Some("think"));
    // The end of the reply recounts: "question" + "Hello" + "think".
    assert_eq!(app.token_count, 8 + 5 + 5);
    let session = app.session.as_ref().unwrap();
    assert_eq!(session.messages.len(), 2);
    assert_eq!(session.messages[0].content, "question");
    assert_eq!(session.messages[1].content, "Hello");
    assert!(app.active_turn_id.is_none());
}

#[test]
fn slash_model_switch_updates_state() {
    let mut app = App::new();
    app.current_provider = "mock".into();
    app.previous_model = "old".into();

    let out = app.handle_slash_command("/model llama-3.1");

    assert!(matches!(out, SlashOutcome::Handled));
    assert_eq!(app.current_model, "llama-3.1");
    assert!(app.current_provider.is_empty());
    assert!(matches!(app.status, AppStatus::Ready));
    assert!(!app.agent_ready);
    assert_eq!(app.messages.last().unwrap().content, "Model switched to llama-3.1.");
}

#[test]
fn slash_suggestions_filter_prefixes() {
    let mut app = App::new();
    app.input = text("/st");

    let suggestions = app.slash_suggestions();

    assert!(suggestions.iter().any(|s| s.command == "/status"));
    assert!(!suggestions.iter().any(|s| s.command == "/clear"));
}

#[test]
fn accept_selected_suggestion_completes_command_name() {
    let mut app = App::new();
    app.input = text("/f");
    app.input_cursor = app.input.len();

    app.accept_selected_suggestion();

    assert_eq!(input_of(&app), "/find ");
    assert_eq!(app.input_cursor, app.input.len());
}

#[test]
fn queue_input_records_prompt_for_later() {
    let mut app = App::new();

    app.queue_input("next task".into());

    assert_eq!(app.queued_inputs.len(), 1);
    assert_eq!(app.queued_inputs[0], "next task");
    assert_eq!(app.messages.last().unwrap().content, "Queued prompt #1. It will run after the current response.");
}

#[test]
fn submit_next_queued_waits_until_ready() {
    let mut app = App::new();
    app.status = AppStatus::Streaming;
    app.queued_inputs.push_back("/status".into());

    let step = app.submit_next_queued();

    assert!(matches!(step, SubmitStep::Nothing));
    assert_eq!(app.queued_inputs.len(), 1);
    assert!(app.messages.is_empty());
}

#[test]
fn submit_next_queued_runs_slash_command() {
    let mut app = App::new();
    app.queued_inputs.push_back("/status".into());

    let step = app.submit_next_queued();

    assert!(matches!(step, SubmitStep::Slash(SlashOutcome::Handled)));
    assert!(app.queued_inputs.is_empty());
    assert!(app.messages.last().unwrap().content.contains("model="));
}

#[test]
fn slash_queue_clear_drops_pending_prompts() {
    let mut app = App::new();
    app.queued_inputs.push_back("one".into());
    app.queued_inputs.push_back("two".into());

    assert!(matches!(app.handle_slash_command("/queue clear"), SlashOutcome::Handled));

    assert!(app.queued_inputs.is_empty());
    assert_eq!(app.messages.last().unwrap().content, "Cleared 2 queued prompt(s).");
}

#[test]
fn slash_queue_lists_summaries() {
    let mut app = App::new();
    app.queued_inputs.push_back("first   task\nwith lines".into());
    app.handle_slash_command("/queue");
    assert_eq!(
        app.messages.last().unwrap().content,
        "1 queued prompt(s) · /queue clear to drop:\n  1. first task with lines"
    );
}

#[test]
fn slash_permissions_switches_runtime_security() {
    let mut app = App::new();

    let out = app.handle_slash_command("/permissions strict");
    let mode = match out {
        SlashOutcome::SwitchPermissions(m) => m,
        _ => panic!("expected a permission switch"),
    };
    assert_eq!(mode, "strict");
    app.permissions_switched(mode);

    assert_eq!(app.sandbox_mode, "strict");
    assert!(!app.agent_ready);
    assert!(app.messages.last().unwrap().content.contains("Permissions switched"));
}

#[test]
fn slash_permissions_rejects_unknown_mode() {
    let mut app = App::new();
    assert!(matches!(app.handle_slash_command("/permissions sideways"), SlashOutcome::Handled));
    assert_eq!(app.messages.last().unwrap().content, "Usage: /permissions <project|strict|permissive|off>");
}

#[test]
fn slash_permissions_without_mode_opens_menu() {
    let mut app = App::new();

    assert!(matches!(app.handle_slash_command("/permissions"), SlashOutcome::Handled));

    let menu = app.menu.expect("permissions should open menu");
    assert!(matches!(menu.kind, MenuKind::Permissions));
    assert!(menu.options.iter().any(|mode| mode == "project"));
}

#[test]
fn slash_find_tracks_matches_and_target() {
    let mut app = App::new();
    app.messages.push(ChatMessage::new(Role::User, "alpha".into()));
    app.messages.push(ChatMessage::new(Role::Assistant, "beta alpha".into()));

    assert!(matches!(app.handle_slash_command("/find alpha"), SlashOutcome::Handled));

    assert_eq!(app.search.query, "alpha");
    assert_eq!(app.search.matches, vec![0, 1]);
    assert_eq!(app.search.position(), Some((1, 2)));
    assert_eq!(app.search.target_message, Some(0));
}

#[test]
fn search_navigation_wraps() {
    let mut app = App::new();
    app.messages.push(ChatMessage::new(Role::User, "alpha".into()));
    app.messages.push(ChatMessage::new(Role::Assistant, "beta alpha".into()));
    app.start_search("alpha".into());

    app.jump_search_next();
    assert_eq!(app.search.position(), Some((2, 2)));
    assert_eq!(app.search.target_message, Some(1));

    app.jump_search_next();
    assert_eq!(app.search.position(), Some((1, 2)));
    assert_eq!(app.search.target_message, Some(0));
}

#[test]
fn search_next_then_prev_returns_to_the_same_match() {
    let mut app = App::new();
    for t in ["x one", "none", "x two", "x three"] {
        app.messages.push(ChatMessage::new(Role::User, t.into()));
    }
    app.start_search("X".into());
    assert_eq!(app.search.matches, vec![0, 2, 3]);
    app.jump_search_next();
    app.jump_search_prev();
    assert_eq!(app.search.index, Some(0));
    app.jump_search_prev();
    assert_eq!(app.search.index, Some(2));
    assert_eq!(app.search.target_message, Some(3));
}

#[test]
fn search_without_matches_reports_it() {
    let mut app = App::new();
    app.messages.push(ChatMessage::new(Role::User, "alpha".into()));
    app.start_search("  zeta ".into());
    assert!(app.search.matches.is_empty());
    assert_eq!(app.messages.last().unwrap().content, "No matches for 'zeta'.");
    app.jump_search_next();
    assert_eq!(app.messages.last().unwrap().content, "No matches for 'zeta'.");
}

#[test]
fn tool_output_adds_visible_tool_message() {
    let mut app = App::new();
    app.active_turn_id = Some(1);

    app.apply_tool_output(
        1,
        "call-1".into(),
        "list_directory".into(),
        r#"{"path":"."}"#.into(),
        Some("FILE Cargo.toml".into()),
        None,
        None,
        "12ms",
    );

    let msg = app.messages.last().unwrap();
    assert_eq!(msg.role, Role::Tool);
    assert!(msg.content.contains("list_directory"));
    assert!(msg.content.contains("FILE Cargo.toml"));
    assert_eq!(msg.tool.as_ref().unwrap().status, ToolStatus::Done);
}

#[test]
fn tool_output_updates_existing_call() {
    let mut app = App::new();
    app.active_turn_id = Some(1);

    app.apply_tool_output(1, "call-1".into(), "read_file".into(), r#"{"path":"Cargo.toml"}"#.into(), None, None, None, "0ms");
    app.apply_tool_output(
        1,
        "call-1".into(),
        "read_file".into(),
        r#"{"path":"Cargo.toml"}"#.into(),
        Some("package data".into()),
        None,
        None,
        "5ms",
    );

    assert_eq!(app.messages.len(), 1);
    let msg = app.messages.last().unwrap();
    assert!(msg.content.contains("package data"));
    assert_eq!(msg.tool.as_ref().unwrap().status, ToolStatus::Done);
    assert_eq!(msg.content, "read_file {\"path\":\"Cargo.toml\"}\nstatus: done in 5ms\npackage data");
}

#[test]
fn failed_tool_output_is_marked_as_error() {
    let mut app = App::new();
    app.active_turn_id = Some(1);
    app.apply_tool_output(1, "c".into(), "bash".into(), "{}".into(), Some("  Permission denied: /x".into()), None, None, "3ms");
    let msg = app.messages.last().unwrap();
    assert_eq!(msg.tool.as_ref().unwrap().status, ToolStatus::Error);
    assert!(msg.content.contains("status: error after 3ms"));
}

#[test]
fn toggle_recent_reasoning_flips_latest_assistant_block() {
    let mut app = App::new();
    let mut msg = ChatMessage::new(Role::Assistant, "answer".into());
    msg.reasoning = Some("step one".into());
    app.messages.push(msg);

    app.toggle_recent_reasoning();

    assert!(!app.messages.last().unwrap().reasoning_collapsed);
}

#[test]
fn stream_after_tool_output_creates_visible_assistant_message() {
    let mut app = App::new();
    app.messages.push(ChatMessage::new(Role::Assistant, String::new()));
    app.active_turn_id = Some(1);
    app.active_assistant_index = Some(0);
    app.apply_tool_output(1, "call-1".into(), "read_file".into(), r#"{"path":"Cargo.toml"}"#.into(), None, None, None, "0ms");

    app.apply_stream_token(1, "final answer".into(), None, false, None, &chars);

    let msg = app.messages.last().unwrap();
    assert_eq!(msg.role, Role::Assistant);
    assert_eq!(msg.content, "final answer");
}

#[test]
fn loading_session_does_not_override_explicit_model() {
    let mut app = App::new();
    app.current_model = "explicit-model".into();
    app.previous_model = "old-agent-model".into();

    app.load_session(test_session());

    assert_eq!(app.current_model, "explicit-model");
    assert_eq!(app.current_provider, "old-provider");
    assert_eq!(app.messages.len(), 2);
    assert!(app.previous_model.is_empty());
    assert!(!app.agent_ready);
}

#[test]
fn typing_editing_and_submitting() {
    let mut app = App::new();
    for c in "helo".chars() {
        app.handle_key(key(Key::Char(c)));
    }
    app.handle_key(key(Key::Left));
    app.handle_key(key(Key::Char('l')));
    assert_eq!(input_of(&app), "hello");
    assert_eq!(app.input_cursor, 4);
    app.handle_key(key(Key::End));
    app.handle_key(key(Key::Backspace));
    assert_eq!(input_of(&app), "hell");
    assert!(matches!(app.handle_key(key(Key::Enter)), KeyAction::Submit));
    match app.submit() {
        SubmitStep::ModelTurn(p) => assert_eq!(p, "hell"),
        _ => panic!("model turn expected"),
    }
    assert_eq!(app.input_history, vec!["hell".to_string()]);
}

#[test]
fn history_round_trip_restores_the_draft() {
    let mut app = App::new();
    app.add_to_history("first".into());
    app.add_to_history("second".into());
    app.add_to_history("second".into());
    assert_eq!(app.input_history.len(), 2);
    app.navigate_history_prev();
    assert_eq!(input_of(&app), "second");
    app.navigate_history_prev();
    assert_eq!(input_of(&app), "first");
    app.navigate_history_next();
    app.navigate_history_next();
    assert_eq!(input_of(&app), "");
    assert!(app.history_index.is_none());
}

#[test]
fn ctrl_keys_and_menus() {
    let mut app = App::new();
    app.handle_key(KeyPress { key: Key::Char('f'), ctrl: true, shift: false });
    assert_eq!(input_of(&app), "/find ");
    app.show_models(vec!["a".into(), "deepseek-v4-flash".into()]);
    assert_eq!(app.menu.as_ref().unwrap().index, 1);
    app.handle_key(key(Key::Up));
    app.handle_key(key(Key::Enter));
    assert_eq!(app.current_model, "a");
    assert_eq!(app.messages.last().unwrap().content, "Model: a");
    app.handle_key(KeyPress { key: Key::Char('c'), ctrl: true, shift: false });
    assert!(app.should_quit);
}

#[test]
fn bang_commands_run_in_the_shell() {
    let mut app = App::new();
    app.input = text("!ls -la");
    match app.submit() {
        SubmitStep::Bash(c) => assert_eq!(c, "ls -la"),
        _ => panic!("shell command expected"),
    }
    assert!(matches!(app.status, AppStatus::Streaming));
    app.bash_finished(Ok("  \n".into()));
    assert_eq!(app.messages.last().unwrap().content, "(no output)");
    assert!(matches!(app.status, AppStatus::Ready));
}

#[test]
fn busy_ui_queues_prompts() {
    let mut app = App::new();
    app.status = AppStatus::Streaming;
    app.input = text("  later please ");
    assert!(matches!(app.submit(), SubmitStep::Queued));
    assert_eq!(app.queued_inputs, vec!["later please".to_string()]);
    assert!(app.input.is_empty());
}

#[test]
fn effort_trace_and_unknown_commands() {
    let mut app = App::new();
    app.handle_slash_command("/effort high");
    assert_eq!(app.thinking_effort.as_deref(), Some("high"));
    assert_eq!(app.messages.last().unwrap().content, "Thinking effort: high. Agent will rebuild next turn.");
    app.handle_slash_command("/effort");
    assert_eq!(app.messages.last().unwrap().content, "Thinking effort: high. Use /effort <off|low|medium|high|xhigh|max>.");
    app.handle_slash_command("/trace");
    assert!(app.transcript_mode);
    assert_eq!(app.messages.last().unwrap().content, "Trace on. Reasoning will be shown inline.");
    app.handle_slash_command("/bogus arg");
    assert_eq!(app.messages.last().unwrap().content, "Unknown command: /bogus. Type /help for shortcuts.");
    assert!(matches!(app.handle_slash_command("hello"), SlashOutcome::NotCommand));
}

#[test]
fn status_line_reports_state() {
    let mut app = App::new();
    app.handle_slash_command("/status");
    assert_eq!(
        app.messages.last().unwrap().content,
        "model=deepseek-v4-flash provider=unresolved messages=0 tokens=0 transcript=off sandbox=project plugins=0"
    );
}

#[test]
fn spinner_and_mode_label() {
    let mut app = App::new();
    assert_eq!(app.spinner(), "-");
    app.tick();
    assert_eq!(app.spinner(), "\\");
    assert_eq!(app.mode_label(), "prompt");
    app.input = text("!x");
    assert_eq!(app.mode_label(), "bash");
}

#[test]
fn write_file_output_attaches_file_diff() {
    let mut app = App::new();
    app.active_turn_id = Some(1);
    let args = r#"{"path":"notes.txt","content":"new\nsame\n"}"#;
    let before = snapshot_of("notes.txt".into(), true, DiffRead::Content("old\nsame\n".into()));
    app.apply_tool_output(1, "call-1".into(), "write_file".into(), args.into(), None, before, None, "");

    let snap: FileSnapshot = {
        let s = app.call_snapshot("call-1").expect("the started call keeps its snapshot");
        FileSnapshot { path: s.path.clone(), content: s.content.clone() }
    };
    let diff = completed_file_diff(&snap, Some("new\nsame\n".into()));
    app.apply_tool_output(
        1,
        "call-1".into(),
        "write_file".into(),
        args.into(),
        Some("Wrote 9 bytes to notes.txt".into()),
        None,
        diff,
        "1ms",
    );

    let diff = &app.messages.last().unwrap().tool.as_ref().unwrap().file_diff.as_ref().unwrap().text;
    assert!(diff.contains("--- a/notes.txt"));
    assert!(diff.contains("+++ b/notes.txt"));
    assert!(diff.contains("-old"));
    assert!(diff.contains("+new"));
}

#[test]
fn slash_plugins_lists_registry() {
    let mut app = App::new();
    app.input = text("/plugins");
    app.input_cursor = app.input.len();
    let step = app.submit();
    assert!(matches!(step, SubmitStep::Slash(SlashOutcome::ListPlugins)));

    let msg = plugins_listing(1, &vec![("CodeReview".to_string(), "Review code".to_string())]);
    assert!(msg.contains("plugin(s) loaded"));
    assert!(msg.contains("/plugin <name> <prompt>"));
}

#[test]
fn keys_keep_cursor_inside_input_and_search_inside_matches() {
    let mut app = App::new();
    app.messages.push(ChatMessage::new(Role::User, "alpha".into()));
    app.messages.push(ChatMessage::new(Role::Assistant, "alpha beta".into()));
    let keys = [
        Key::Char('a'),
        Key::Char('b'),
        Key::Left,
        Key::Left,
        Key::Left,
        Key::Backspace,
        Key::Delete,
        Key::End,
        Key::Right,
        Key::Char('c'),
        Key::Home,
        Key::Esc,
        Key::Esc,
    ];
    for k in keys {
        app.handle_key(key(k));
        assert!(app.input_cursor <= app.input.len());
    }
    app.input = text("/find alpha");
    app.input_cursor = app.input.len();
    app.submit();
    assert!(app.input_cursor <= app.input.len());
    for _ in 0..3 {
        let ctrl_g = KeyPress { key: Key::Char('g'), ctrl: true, shift: false };
        app.handle_key(ctrl_g);
        if let Some(i) = app.search.index {
            assert!(i < app.search.matches.len());
        }
    }
    app.messages.clear();
    app.refresh_search_matches();
    assert!(app.search.index.is_none() || app.search.index.unwrap() < app.search.matches.len());
}

#[test]
fn the_end_of_a_reply_recounts_a_stale_total() {
    let mut app = App::new();
    app.token_count = 1000;
    app.load_session(test_session());
    assert_eq!(app.token_count, 1000);
    assert!(app.messages.iter().all(|m| !m.collapsed && m.reasoning_collapsed));
    let turn = app.begin_model_turn("q".into(), 1);
    app.apply_stream_token(turn, "ok".into(), None, false, None, &chars);
    assert_eq!(app.token_count, 1003);
    let out = app.apply_stream_token(turn, String::new(), None, true, None, &chars);
    assert!(out.finished);
    assert!(!out.save_session);
    // "old question" + "old answer" + "q" + "ok"
    assert_eq!(app.token_count, 12 + 10 + 1 + 2);
    assert_eq!(app.session.as_ref().unwrap().messages.len(), 2);
}

#[test]
fn a_finished_reply_is_added_to_the_loaded_session() {
    let mut app = App::new();
    app.save_sessions = true;
    app.load_session(test_session());
    let turn = app.begin_model_turn("next".into(), 1);
    app.apply_stream_token(turn, "reply".into(), None, false, None, &chars);
    let out = app.apply_stream_token(turn, String::new(), None, true, None, &chars);
    assert!(out.save_session);
    let s = app.session.as_ref().unwrap();
    assert_eq!(s.id, "session-1");
    assert_eq!(s.messages.len(), 4);
    assert_eq!(s.messages[2].content, "next");
    assert_eq!(s.messages[3].content, "reply");
    assert_eq!(s.title.as_deref(), Some("next"));
}
