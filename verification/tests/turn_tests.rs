use lattice_cli::agent::{Role, ToolCall};
use lattice_cli::app::App;
use lattice_cli::chat::{ChatMessage, FileSnapshot};
use lattice_cli::events::{turn_messages, AgentEvent};
use lattice_cli::mdtable::{table_widths, TableWidths};
use lattice_cli::session::{finalize_session_exchange, finalize_session_turn, validate_session_id, Session};

/// A token estimate for the tests: one token per character.
fn chars(s: &String) -> usize {
    s.chars().count()
}

fn call(id: &str, name: &str, args: &str) -> ToolCall {
    ToolCall { id: id.into(), name: name.into(), arguments: args.into() }
}

fn run_events() -> Vec<AgentEvent> {
    vec![
        AgentEvent::Token { text: "Looking".into() },
        AgentEvent::ToolCallRequired { calls: vec![call("c1", "read_file", "{\"path\":\"a\"}"), call("c2", "bash", "{}")] },
        AgentEvent::ToolResult { call: call("c1", "read_file", "{\"path\":\"a\"}"), result: "text of a".into() },
        AgentEvent::ToolResult { call: call("c2", "bash", "{}"), result: "ok".into() },
        AgentEvent::Token { text: " done".into() },
        AgentEvent::Done { usage: None },
    ]
}

#[test]
fn a_run_saves_its_tool_calls_and_results() {
    let turn = turn_messages(&run_events());
    assert_eq!(turn.len(), 3);
    assert_eq!(turn[0].role, "assistant");
    assert_eq!(turn[0].content, "Looking done");
    let calls = turn[0].tool_calls.as_ref().expect("tool calls recorded");
    assert_eq!(calls.len(), 2);
    assert_eq!((calls[0].id.as_str(), calls[0].name.as_str()), ("c1", "read_file"));
    assert_eq!(calls[1].arguments, "{}");
    assert_eq!(turn[1].role, "tool");
    assert_eq!(turn[1].content, "text of a");
    assert_eq!(turn[1].tool_call_id.as_deref(), Some("c1"));
    assert_eq!(turn[2].name.as_deref(), Some("bash"));

    let s = finalize_session_exchange(None, "m".into(), "p".into(), "do it".into(), turn);
    assert_eq!(s.messages.len(), 4);
    assert_eq!(s.messages[0].role, "user");
    assert_eq!(s.messages[0].content, "do it");
    assert_eq!(s.messages[3].tool_call_id.as_deref(), Some("c2"));
    assert_eq!(s.title.as_deref(), Some("do it"));
    assert!(validate_session_id(&s.id).is_ok());
}

#[test]
fn a_run_without_tools_records_no_calls() {
    let turn = turn_messages(&vec![AgentEvent::Token { text: "hi".into() }]);
    assert_eq!(turn.len(), 1);
    assert!(turn[0].tool_calls.is_none());
}

#[test]
fn continued_sessions_keep_their_title() {
    let mut p = Session::new("m".into(), "p".into());
    p.title = Some("first".into());
    let id = p.id.clone();
    let s = finalize_session_turn(Some(p), "m2".into(), "p2".into(), "again".into(), "answer".into());
    assert_eq!(s.title.as_deref(), Some("first"));
    assert_eq!(s.id, id);
    let fresh = finalize_session_turn(None, "m".into(), "p".into(), "hello there".into(), "hi".into());
    assert_eq!(fresh.id.len(), 16);
    assert!(fresh.id.chars().all(|c| c.is_ascii_digit() || ('a'..='f').contains(&c)));
}

#[test]
fn the_ui_saves_the_turns_tool_messages() {
    let mut app = App::new();
    app.save_sessions = true;
    let id = app.begin_model_turn("fix it".into(), 2);
    app.apply_tool_output(id, "c1".into(), "bash".into(), "{}".into(), None, None, None, "");
    app.apply_tool_output(id, "c1".into(), "bash".into(), "{}".into(), Some("ok".into()), None::<FileSnapshot>, None, "1ms");
    app.apply_stream_token(id, "fixed".into(), None, false, None, &chars);
    let out = app.apply_stream_token(id, String::new(), None, true, None, &chars);
    assert!(out.save_session);
    assert!(!app.stream_started);
    let s = app.session.as_ref().unwrap();
    assert_eq!(s.messages.len(), 3);
    assert_eq!(s.messages[0].content, "fix it");
    assert_eq!(s.messages[1].content, "fixed");
    assert_eq!(s.messages[1].tool_calls.as_ref().unwrap()[0].id, "c1");
    assert_eq!(s.messages[2].role, "tool");
    assert_eq!(s.messages[2].content, "ok");
    let _ = ChatMessage::new(Role::User, String::new());
}

#[test]
fn plugin_requests_and_submissions() {
    let names = vec!["CodeReview".to_string()];
    let mut app = App::new();
    assert_eq!(app.plugin_request(names.clone(), "codereview", "inspect this diff"), Some("CodeReview".to_string()));
    assert_eq!(app.plugin_request(names.clone(), "nope", "x"), None);
    assert!(app.messages.last().unwrap().content.contains("Plugin failed: plugin 'nope' is not loaded"));
    assert_eq!(app.plugin_request(names.clone(), "CodeReview", "  "), None);
    assert_eq!(app.input.iter().collect::<String>(), "/plugin CodeReview ");
    assert_eq!(app.plugin_request(names.clone(), "", ""), None);
    assert!(app.menu.is_some());
    let mut idle = App::new();
    assert_eq!(idle.submit_plugin("CodeReview", "inspect this diff"), Some("@CodeReview inspect this diff".to_string()));
    idle.begin_model_turn("busy".into(), 0);
    assert_eq!(idle.submit_plugin("CodeReview", "later"), None);
    assert_eq!(idle.queued_inputs[0], "/plugin CodeReview later");
}

#[test]
fn agents_are_rebuilt_when_the_model_changes() {
    let mut app = App::new();
    assert!(app.needs_agent());
    app.agent_built("deepseek-v4".into(), "deepseek".into(), 0);
    assert!(!app.needs_agent());
    assert_eq!(app.context_limit, 128000);
    app.current_model = "gpt-4o".into();
    assert!(app.needs_agent());
}

#[test]
fn shrunk_columns_stay_between_least_and_ideal() {
    let headers: Vec<Vec<char>> = vec!["name".chars().collect(), "description".chars().collect()];
    let row: Vec<Vec<char>> = vec!["x".chars().collect(), "a fairly long description of the thing".chars().collect()];
    match table_widths(&headers, &vec![row], 2, 40) {
        TableWidths::Fitted(w) => {
            assert!(w[0] >= 4 && w[1] >= 11);
            assert!(w.iter().sum::<usize>() <= 40 - 7 - 4);
        }
        TableWidths::Scale { .. } => panic!("the least widths fit"),
    }
}
