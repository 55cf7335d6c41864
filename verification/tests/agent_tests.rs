use lattice_cli::agent::{merge_rendered_into_history, messages_for_agent, role_from_session, AgentMessage, Role};
use lattice_cli::events::{
    display_events, extract_content, render_events, AgentEvent, CodingEventRenderer, Emit, LoopEventRenderer, Stream,
    TokenUsage, Tone,
};
use lattice_cli::session::{Session, SessionMessage, SessionToolCall};

fn plain(role: &str, content: &str) -> SessionMessage {
    SessionMessage {
        role: role.into(),
        content: content.into(),
        reasoning_content: None,
        tool_calls: None,
        tool_call_id: None,
        name: None,
    }
}

fn test_session(id: &str) -> Session {
    Session {
        id: id.into(),
        model: "test-model".into(),
        provider: "test-provider".into(),
        title: None,
        messages: vec![plain("user", "hello"), plain("assistant", "hi")],
        created_at: "2026-05-01T00:00:00+08:00".into(),
        updated_at: "2026-05-01T00:00:00+08:00".into(),
    }
}

fn msg(role: Role, content: &str) -> AgentMessage {
    AgentMessage { role, content: content.into(), reasoning_content: None, tool_calls: None, tool_call_id: None, name: None }
}

fn stdout(out: &[Emit]) -> String {
    out.iter()
        .filter(|e| e.stream == Stream::Stdout)
        .map(|e| format!("{}{}{}", e.lead, e.label, e.rest))
        .collect()
}

#[test]
fn test_messages_for_agent_preserves_tool_messages() {
    let mut session = test_session("agent-history");
    session.push_message("tool", "tool result".into());
    session.push_message("system", "system prompt".into());

    let messages = messages_for_agent(&session);

    assert_eq!(messages.len(), 4);
    assert_eq!(messages[0].role, Role::User);
    assert_eq!(messages[0].content, "hello");
    assert_eq!(messages[1].role, Role::Assistant);
    assert_eq!(messages[1].content, "hi");
    assert_eq!(messages[2].role, Role::Tool);
    assert_eq!(messages[2].content, "tool result");
    assert_eq!(messages[3].role, Role::System);
    assert_eq!(messages[3].content, "system prompt");
}

#[test]
fn test_messages_for_agent_preserves_tool_call_fields() {
    let mut session = test_session("tool-call-history");
    session.messages = vec![
        SessionMessage {
            role: "assistant".into(),
            content: String::new(),
            reasoning_content: Some("thinking".into()),
            tool_calls: Some(vec![SessionToolCall {
                id: "call_1".into(),
                name: "grep".into(),
                arguments: r#"{"pattern":"x"}"#.into(),
            }]),
            tool_call_id: None,
            name: None,
        },
        SessionMessage {
            role: "tool".into(),
            content: "result".into(),
            reasoning_content: None,
            tool_calls: None,
            tool_call_id: Some("call_1".into()),
            name: Some("grep".into()),
        },
    ];

    let messages = messages_for_agent(&session);
    assert_eq!(messages[0].reasoning_content.as_deref(), Some("thinking"));
    assert_eq!(messages[0].tool_calls.as_ref().unwrap()[0].name, "grep");
    assert_eq!(messages[1].tool_call_id.as_deref(), Some("call_1"));
    assert_eq!(messages[1].name.as_deref(), Some("grep"));
}

#[test]
fn role_names_ignore_ascii_case() {
    assert_eq!(role_from_session("ASSISTANT"), Role::Assistant);
    assert_eq!(role_from_session("System"), Role::System);
    assert_eq!(role_from_session("tool"), Role::Tool);
    assert_eq!(role_from_session("anything"), Role::User);
}

#[test]
fn merge_replaces_system_and_new_user_text() {
    let history = vec![msg(Role::System, "old system"), msg(Role::User, "earlier"), msg(Role::Assistant, "reply")];
    let rendered = vec![msg(Role::System, "new system"), msg(Role::User, "now"), msg(Role::Tool, "ignored")];
    let merged = merge_rendered_into_history(history, &rendered);
    let texts: Vec<&str> = merged.iter().map(|m| m.content.as_str()).collect();
    assert_eq!(texts, vec!["new system", "earlier", "reply", "now"]);
    let again = merge_rendered_into_history(merged, &vec![msg(Role::User, "edited")]);
    assert_eq!(again.last().unwrap().content, "edited");
}

fn events() -> Vec<AgentEvent> {
    vec![
        AgentEvent::Reasoning { text: "  plan  ".into() },
        AgentEvent::Token { text: "Hel".into() },
        AgentEvent::ToolCallRequired { calls: vec![] },
        AgentEvent::Token { text: "lo".into() },
        AgentEvent::Done { usage: Some(TokenUsage { prompt_tokens: 3, completion_tokens: 4, total_tokens: 7 }) },
    ]
}

#[test]
fn extract_content_joins_tokens() {
    assert_eq!(extract_content(&events()), "Hello");
    assert_eq!(extract_content(&vec![]), "");
}

#[test]
fn streamed_output_is_the_content() {
    let out = render_events(&events(), Some(7), true, false);
    assert_eq!(stdout(&out), "Hello\n");
    let notices: Vec<String> = out
        .iter()
        .filter(|e| e.stream == Stream::Stderr)
        .map(|e| format!("{}{}{}", e.lead, e.label, e.rest))
        .collect();
    assert_eq!(notices, vec!["reasoning: plan\n", "\ntools 0 tool call(s)\n", "\nusage: 7 tokens\n"]);
    let out = display_events(&events(), Some(7), true, false);
    assert!(out.iter().any(|e| e.rest == ": 7 tok (prompt: 3, completion: 4)\n"));
}

#[test]
fn json_mode_prints_one_report() {
    let out = render_events(&events(), None, true, true);
    assert_eq!(stdout(&out), "{\n  \"content\": \"Hello\",\n  \"total_tokens\": 0\n}\n");
    assert!(out.iter().all(|e| e.stream == Stream::Stdout));
}

#[test]
fn errors_are_always_reported() {
    let mut r = LoopEventRenderer::new(false, true);
    let out = r.render(&AgentEvent::Error { message: "boom".into() });
    assert_eq!(out.len(), 1);
    assert_eq!(out[0].label, "error:");
    assert_eq!(out[0].tone, Tone::Red);
    assert_eq!(out[0].rest, " boom\n");
}

#[test]
fn renderer_keeps_content_and_flushes_reasoning() {
    let mut r = CodingEventRenderer::new(true, false);
    r.render(&AgentEvent::Token { text: "a".into() });
    r.render(&AgentEvent::Reasoning { text: "why".into() });
    assert_eq!(r.reasoning_buf, "why");
    let out = r.finish(Some(1));
    assert_eq!(out[0].rest, " why\n");
    assert_eq!(r.reasoning_buf, "");
    assert_eq!(r.content_buf, "a");
    let long = "x".repeat(300);
    let shown = r.render(&AgentEvent::ToolResult {
        call: lattice_cli::agent::ToolCall { id: "1".into(), name: "grep".into(), arguments: "{}".into() },
        result: long,
    });
    assert_eq!(shown[0].rest, format!(" grep -> {}\n", "x".repeat(240)));
}
