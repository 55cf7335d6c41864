use lattice_cli::agent::Role;
use lattice_cli::app::{App, AppStatus, MenuKind, MenuState};
use lattice_cli::chat::{find_plugin_name, plugin_context, ChatMessage, FileSnapshot};
use lattice_cli::filediff::{completed_file_diff, editable_file_path, relative_tool_path, snapshot_of, unified_diff, DiffRead};
use lattice_cli::layout::{Line, Look};
use lattice_cli::mdrender::{MdLine, MdLook, MdRun};
use lattice_cli::message::{display_content, md_width, message_lines};
use lattice_cli::pointer::{selection_text, ClickZone, MouseKind, TextSelection};
use lattice_cli::widgets::{
    bottom_height, composer_lines, cursor_position, format_duration, help_lines, input_height, inset, menu_lines,
    menu_rect, pin_display, scroll_marker, statusline, suggestion_lines, transcript_lines, transcript_window,
    welcome_lines, welcome_tip,
};

fn chars(s: &str) -> Vec<char> {
    s.chars().collect()
}

fn line_text(l: &Line) -> String {
    l.spans.iter().map(|s| s.text.as_str()).collect()
}

fn md_text(l: &MdLine) -> String {
    l.runs.iter().map(|r| r.text.as_str()).collect()
}

#[test]
fn selection_copy_uses_viewport_origin() {
    let rows = vec![chars("line two"), chars("line three")];
    let sel = TextSelection { start_row: 10, start_col: 0, end_row: 11, end_col: 0, active: false };
    assert_eq!(selection_text(sel, &rows, 10), Some("line two\nline three".to_string()));
    assert_eq!(selection_text(sel, &rows, 11), None);
    let blank = vec![chars("   ")];
    let one = TextSelection { start_row: 0, start_col: 0, end_row: 0, end_col: 3, active: true };
    assert_eq!(selection_text(one, &blank, 0), None);
}

#[test]
fn mouse_scrolls_selects_and_copies() {
    let mut app = App::new();
    let zones = vec![ClickZone { x: 0, y: 0, w: 10, h: 1 }];
    let mut sel = None;
    assert_eq!(app.handle_mouse(MouseKind::ScrollUp, 0, 5, &zones, &mut sel), None);
    assert_eq!(app.scroll_offset, 3);
    app.handle_mouse(MouseKind::ScrollDown, 0, 5, &zones, &mut sel);
    assert_eq!(app.scroll_offset, 0);
    app.scroll_offset = 7;
    app.handle_mouse(MouseKind::Down, 3, 0, &zones, &mut sel);
    assert_eq!(app.scroll_offset, 0);
    assert!(sel.is_none());
    app.handle_mouse(MouseKind::Down, 2, 4, &zones, &mut sel);
    assert_eq!(sel.map(|s| (s.start_row, s.start_col)), Some((4, 2)));
    app.handle_mouse(MouseKind::Drag, 9, 6, &zones, &mut sel);
    let copied = app.handle_mouse(MouseKind::Up, 9, 6, &zones, &mut sel);
    assert_eq!(copied.map(|s| (s.end_row, s.end_col)), Some((6, 9)));
    assert!(sel.is_none());
}

#[test]
fn pasted_text_goes_in_at_the_cursor() {
    let mut app = App::new();
    app.insert_text("held");
    app.input_cursor = 2;
    app.insert_text("XY");
    assert_eq!(app.input.iter().collect::<String>(), "heXYld");
    assert_eq!(app.input_cursor, 4);
}

#[test]
fn token_recount_sums_estimates() {
    let mut app = App::new();
    app.recount_tokens(&vec![(3, 0), (4, 5)]);
    assert_eq!(app.token_count, 12);
}

#[test]
fn editable_paths_come_from_the_right_field() {
    assert_eq!(editable_file_path("write_file", r#" {"path": " src/a.rs "} "#), Some("src/a.rs".to_string()));
    assert_eq!(editable_file_path("patch", r#"{"file_path":"x.rs","path":"y.rs"}"#), Some("x.rs".to_string()));
    assert_eq!(editable_file_path("patch", r#"{"path":"y.rs"}"#), Some("y.rs".to_string()));
    assert_eq!(editable_file_path("patch", r#"{"file_path":3,"path":"y.rs"}"#), None);
    assert_eq!(editable_file_path("read_file", r#"{"path":"y.rs"}"#), None);
    assert_eq!(editable_file_path("write_file", r#"{"path":"  "}"#), None);
    assert_eq!(editable_file_path("write_file", "not json"), None);
    assert_eq!(relative_tool_path("//etc/x"), "etc/x");
}

#[test]
fn diffs_of_changed_files() {
    assert_eq!(unified_diff("a/f", "b/f", "same\n", "same\n"), None);
    let d = unified_diff("a/f", "b/f", "old\n", "new\n").expect("a diff");
    assert!(d.contains("--- a/f"));
    assert!(d.contains("-old"));
    assert!(d.contains("+new"));
    assert!(!d.ends_with('\n'));
    let snap = FileSnapshot { path: "notes.txt".into(), content: None };
    let made = completed_file_diff(&snap, Some("hi\n".into())).expect("diff of a new file");
    assert_eq!(made.path, "notes.txt");
    assert!(made.text.contains("/dev/null"));
    assert!(completed_file_diff(&snap, None).is_none());
    let s = snapshot_of("p".into(), true, DiffRead::Missing).expect("missing file snapshot");
    assert!(s.content.is_none());
    assert!(snapshot_of("p".into(), false, DiffRead::Content("x".into())).is_none());
    assert!(snapshot_of("p".into(), true, DiffRead::Unavailable).is_none());
}

#[test]
fn plugin_contexts_are_json() {
    let v: serde_json::Value = serde_json::from_str(&plugin_context(" code-review ", "check \"this\"", "/w")).unwrap();
    assert_eq!(v["input"], "check \"this\"");
    assert_eq!(v["file_path"], "");
    let p: serde_json::Value = serde_json::from_str(&plugin_context("PlanGen", "do it", "/work dir")).unwrap();
    assert_eq!(p["project_path"], "/work dir");
    assert_eq!(p["spec"], "do it");
    let o: serde_json::Value = serde_json::from_str(&plugin_context("Other", "x", "/w")).unwrap();
    assert_eq!(o["request"], "x");
    assert_eq!(o["input"], "x");
    let v2: serde_json::Value = serde_json::from_str(&plugin_context("verification", "x", "/w")).unwrap();
    assert_eq!(v2["verification_steps"][0], "x");
    assert_eq!(v2["plan_task_id"], 0);
}

#[test]
fn plugin_names_match_ignoring_case() {
    let names = vec!["CodeReview".to_string(), "DocGen".to_string()];
    assert_eq!(find_plugin_name(&names, " docgen "), Some("DocGen".to_string()));
    assert_eq!(find_plugin_name(&names, "CodeReview"), Some("CodeReview".to_string()));
    assert_eq!(find_plugin_name(&names, "none"), None);
}

#[test]
fn heights_and_cursor() {
    let mut app = App::new();
    assert_eq!(input_height(&app), 3);
    app.input = chars("a\nb\nc\nd\ne\nf\ng");
    assert_eq!(input_height(&app), 7);
    app.help_open = true;
    assert_eq!(bottom_height(&app, 10, 100), 10 + 8 + 8);
    assert_eq!(bottom_height(&app, 10, 12), 11);
    let mut typed = App::new();
    typed.input = chars("ab\ncd");
    typed.input_cursor = 4;
    assert_eq!(cursor_position(&typed, 0, 0, 40, 5), Some((2 + 1, 1 + 1)));
    assert_eq!(cursor_position(&typed, 0, 0, 1, 5), None);
}

#[test]
fn composer_help_and_commands() {
    let app = App::new();
    let lines = composer_lines(&app);
    assert_eq!(line_text(&lines[0]), "❯ Type a message or / for commands");
    assert_eq!(help_lines().len(), 8);
    assert_eq!(line_text(&help_lines()[0]), format!("{:<12}{:<18}{:<12}{}", "Enter", "send", "Shift+Enter", "newline"));
    let sugg = App { input: chars("/he"), ..App::new() }.slash_suggestions();
    let rows = suggestion_lines(&sugg, 5, 6);
    assert!(line_text(&rows[0]).starts_with("▶ /help"));
    assert_eq!(rows[0].spans[0].look, Look::Selected);
}

#[test]
fn status_line_parts() {
    assert_eq!(format_duration(42).iter().collect::<String>(), "42s");
    assert_eq!(format_duration(187).iter().collect::<String>(), "3m 7s");
    let mut app = App::new();
    app.current_provider = String::new();
    let line = statusline(&app, 160, 0, 0, 0, "ctx ░░░░░░░░ 0%");
    let text = line_text(&line);
    assert!(text.starts_with(" prompt "));
    assert!(text.contains("@unresolved"));
    assert!(text.contains("ready"));
    assert!(text.contains("effort:auto"));
    assert!(text.ends_with("? help  / commands  Ctrl+N new  Ctrl+C quit "));
    app.status = AppStatus::Error("boom".into());
    let narrow = statusline(&app, 20, 0, 0, 0, "ctx");
    assert!(line_text(&narrow).contains("error: boom"));
    assert!(!line_text(&narrow).contains("? help"));
}

#[test]
fn message_rows_label_and_pad() {
    let user = ChatMessage::new(Role::User, "hi".into());
    let rows = message_lines(&user, false, 10, Vec::new(), "");
    assert_eq!(md_text(&rows[0]).chars().count(), 10);
    assert!(md_text(&rows[0]).starts_with("● hi"));
    let thinking = ChatMessage::new(Role::Assistant, String::new());
    assert_eq!(display_content(&thinking), "Thinking...");
    let reply = ChatMessage::new(Role::Assistant, "answer".into());
    let md = vec![MdLine { runs: vec![MdRun { text: "answer".into(), look: MdLook::Text }], look: MdLook::Plain }];
    let rows = message_lines(&reply, false, 40, md, "");
    assert_eq!(md_text(&rows[0]), "● answer");
    assert_eq!(md_width(40), 38);
    let mut collapsed = ChatMessage::new(Role::Tool, "1\n2\n3\n4\n5".into());
    collapsed.collapsed = true;
    let rows = message_lines(&collapsed, false, 40, Vec::new(), "");
    assert!(rows.iter().any(|r| md_text(r).contains("... 2 more lines · Ctrl+E to expand")));
    let mut reasoned = ChatMessage::new(Role::Assistant, "a".into());
    reasoned.reasoning = Some("x\ny".into());
    let rows = message_lines(&reasoned, false, 40, Vec::new(), "");
    assert!(rows.iter().any(|r| md_text(r).contains("thought for 2 lines")));
}

#[test]
fn transcript_window_and_marks() {
    assert_eq!(transcript_window(100, 10, 0, true), (false, 90, 100, 0));
    assert_eq!(transcript_window(100, 10, 5, true), (true, 86, 95, 5));
    assert_eq!(transcript_window(5, 10, 3, true), (false, 0, 5, 0));
    assert_eq!(pin_display("first line\nsecond", 12), "● first  ›");
    let mut app = App::new();
    app.messages.push(ChatMessage::new(Role::User, "find me".into()));
    app.search.query = "find".into();
    app.search.matches = vec![0];
    app.search.index = Some(0);
    app.search.target_message = Some(0);
    assert_eq!(scroll_marker(&app, 4), "find 1/1 · ↑ 4 lines above latest  End/click=jump");
    let rendered = vec![vec![
        MdLine { runs: vec![MdRun { text: "x".into(), look: MdLook::Plain }], look: MdLook::Text },
        MdLine { runs: Vec::new(), look: MdLook::Plain },
    ]];
    let rows = transcript_lines(&app, rendered);
    assert_eq!(rows[0].1, Some(true));
    assert_eq!(rows[0].0.look, MdLook::Plain);
    assert_eq!(rows[1].1, None);
}

#[test]
fn welcome_and_menus() {
    assert_eq!(inset(0, 0, 10, 5, 2, 1), (2, 1, 6, 3));
    assert_eq!(welcome_tip(0), "Type / to see all available commands.");
    assert_eq!(welcome_tip(21), "/plugins lists loaded official and local runtime plugins.");
    let app = App::new();
    let wide = welcome_lines(&app, 80, "tip");
    assert_eq!(wide.len(), 6 + 3 + 3 + 9);
    let narrow = welcome_lines(&app, 20, "tip");
    assert_eq!(line_text(&narrow[0]), "● LATTICE · agent CLI");
    assert_eq!(menu_rect(0, 0, 100, 40, 3), (25, 17, 50, 6));
    let menu = MenuState { kind: MenuKind::Model, options: vec!["a".into(), "b".into(), "c".into()], index: 2 };
    let rows = menu_lines(&menu, 10, 2);
    assert_eq!(rows.len(), 2);
    assert_eq!(line_text(&rows[0]), "   b");
    assert!(line_text(&rows[1]).starts_with(" ▶ c"));
    assert_eq!(line_text(&rows[1]).chars().count(), 10);
}
