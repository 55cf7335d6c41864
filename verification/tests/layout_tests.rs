use lattice_cli::chat::{ChatMessage, FileDiffDisplay, ToolStatus};
use lattice_cli::layout::{
    diff_block_lines, labelled_lines, lines_of, title_case_tool_name, tool_argument_summary,
    tool_display_name, tool_lines, truncate_to_width, wrap_line, Line, Look,
};

fn line_text(line: &Line) -> String {
    line.spans.iter().map(|s| s.text.as_str()).collect()
}

fn chunks(v: Vec<Vec<char>>) -> Vec<String> {
    v.into_iter().map(|c| c.into_iter().collect()).collect()
}

#[test]
fn tool_header_uses_cc_shape_for_bash() {
    let msg = ChatMessage::tool_call("call_1".into(), "bash".into(), r#"{"command":"cargo test --all"}"#.into());

    let lines = tool_lines(&msg, 80, "0ms");

    assert_eq!(line_text(&lines[0]), "● Bash(cargo test --all)");
    assert_eq!(line_text(&lines[1]), "  ⎿  Running...");
}

#[test]
fn tool_header_uses_friendly_name_and_key_arg() {
    let msg = ChatMessage::tool_call("call_1".into(), "read_file".into(), r#"{"path":"lattice-cli/src/main.rs"}"#.into());

    let lines = tool_lines(&msg, 80, "0ms");

    assert_eq!(line_text(&lines[0]), "● Read(lattice-cli/src/main.rs)");
}

#[test]
fn tool_result_uses_response_prefix_and_collapse_hint() {
    let mut msg = ChatMessage::tool_call(
        "call_1".into(),
        "grep".into(),
        r#"{"pattern":"Runtime","path":"lattice-cli/src"}"#.into(),
    );
    msg.collapsed = true;
    let tool = msg.tool.as_mut().unwrap();
    tool.status = ToolStatus::Done;
    tool.result = Some(["one", "two", "three", "four", "five"].join("\n"));

    let lines = tool_lines(&msg, 80, "25ms");

    assert_eq!(line_text(&lines[0]), "● Search(Runtime in lattice-cli/src)");
    assert_eq!(line_text(&lines[1]), "  ⎿  one");
    assert_eq!(line_text(&lines[4]), "     four");
    assert_eq!(line_text(&lines[5]), "  ⎿  … 1 more lines · Ctrl+E to expand");
}

#[test]
fn tool_result_renders_file_diff_block() {
    let mut msg = ChatMessage::tool_call(
        "call_1".into(),
        "write_file".into(),
        r#"{"path":"notes.txt","content":"new\nsame\n"}"#.into(),
    );
    msg.collapsed = false;
    let tool = msg.tool.as_mut().unwrap();
    tool.status = ToolStatus::Done;
    tool.result = Some("Wrote 9 bytes to notes.txt".into());
    tool.file_diff = Some(FileDiffDisplay {
        path: "notes.txt".into(),
        text: "--- a/notes.txt\n+++ b/notes.txt\n@@ -1,2 +1,2 @@\n-old\n+new\n same".into(),
    });

    let lines = tool_lines(&msg, 80, "25ms");
    let text: Vec<String> = lines.iter().map(line_text).collect();

    assert!(text.contains(&"  ⎿  Diff notes.txt".to_string()));
    assert!(text.iter().any(|line| line.starts_with("     ╌")));
    assert!(text.contains(&"  │  -old".to_string()));
    assert!(text.contains(&"  │  +new".to_string()));
}

#[test]
fn diff_lines_get_their_looks() {
    let rows = diff_block_lines("+++ b\n@@ x\n+a\n-b\n c", 40);
    assert_eq!(rows.len(), 7);
    assert_eq!(rows[1].spans[1].look, Look::SubtextBold);
    assert_eq!(rows[2].spans[1].look, Look::Highlight);
    assert_eq!(rows[3].spans[1].look, Look::Success);
    assert_eq!(rows[4].spans[1].look, Look::Error);
    assert_eq!(rows[5].spans[1].look, Look::Text);
    assert_eq!(line_text(&rows[0]), format!("     {}", "╌".repeat(35)));
}

#[test]
fn empty_result_shows_duration() {
    let mut msg = ChatMessage::tool_call("c".into(), "mystery_tool-x".into(), "not json".into());
    let tool = msg.tool.as_mut().unwrap();
    tool.status = ToolStatus::Error;
    tool.result = Some("   ".into());
    let lines = tool_lines(&msg, 80, "2ms");
    assert_eq!(line_text(&lines[0]), "● Mystery Tool X(not json)");
    assert_eq!(line_text(&lines[1]), "  ⎿  Error after 2ms");
}

#[test]
fn wrap_line_breaks_before_overflow() {
    assert_eq!(chunks(wrap_line("abcdefg", 3)), vec!["abc", "def", "g"]);
    assert_eq!(chunks(wrap_line("", 3)), vec![""]);
    assert_eq!(chunks(wrap_line("日本語", 4)), vec!["日本", "語"]);
    assert_eq!(chunks(wrap_line("ab", 0)), vec!["a", "b"]);
}

#[test]
fn truncate_marks_the_cut() {
    assert_eq!(truncate_to_width("hello world", 5), "hello…");
    assert_eq!(truncate_to_width("hello", 3), "hel…");
    assert_eq!(truncate_to_width("hello", 5), "hello");
    assert_eq!(truncate_to_width("hello", 1), "h");
    assert_eq!(truncate_to_width("hello", 0), "");
}

#[test]
fn labelled_lines_indent_continuations() {
    let rows = labelled_lines("●", Look::UserLabel, Look::UserBody, "abcdef\nxy", 6);
    let text: Vec<String> = rows.iter().map(line_text).collect();
    assert_eq!(text, vec!["● abcd", "  ef", "  xy"]);
    let empty = labelled_lines("●", Look::UserLabel, Look::UserBody, "", 6);
    assert_eq!(line_text(&empty[0]), "●  ");
}

#[test]
fn tool_names_and_summaries() {
    assert_eq!(tool_display_name("write_file", r#"{"content":""}"#), "Create");
    assert_eq!(tool_display_name("write_file", r#"{"content":"x"}"#), "Write");
    assert_eq!(tool_display_name("bus:fetch", "{}"), "Fetch");
    assert_eq!(title_case_tool_name("__my-tool:name"), "My Tool Name");
    assert_eq!(tool_argument_summary("patch", r#"{"path":"a.rs"}"#, 20), "a.rs");
    assert_eq!(tool_argument_summary("other", r#"{"query":"","url":"u"}"#, 20), "u");
    assert_eq!(tool_argument_summary("other", r#"{"x":1}"#, 20), r#"{"x":1}"#);
    assert_eq!(tool_argument_summary("bash", r#"{"command":"abcdefgh"}"#, 4), "abcd…");
    assert_eq!(tool_argument_summary("bash", "a   b\nc", 20), "a b c");
}

#[test]
fn text_lines_follow_str_lines() {
    assert_eq!(chunks(lines_of("a\r\nb\n")), vec!["a", "b"]);
    assert_eq!(chunks(lines_of("a\r")), vec!["a\r"]);
    assert!(lines_of("").is_empty());
}

#[test]
fn hard_wrap_keeps_characters_and_fits() {
    let line = "héllo wörld, 你好世界!";
    for max in [1usize, 3, 4, 7, 80] {
        let chunks = wrap_line(line, max);
        let joined: String = chunks.iter().flat_map(|c| c.iter()).collect();
        assert_eq!(joined, line);
        for c in &chunks {
            let s: String = c.iter().collect();
            let w = unicode_width::UnicodeWidthStr::width(s.as_str());
            assert!(w <= max || c.len() == 1, "chunk {:?} at {}", s, max);
        }
    }
}
