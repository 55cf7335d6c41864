use lattice_cli::markdown::{parse_blocks, parse_events, MdBlock, MdEnd, MdEvent, MdStart};
use lattice_cli::mdrender::{has_markdown_syntax, list_prefix, render_plain_text, truncate_str, wrap_line_text, MdLine, MdLook};
use lattice_cli::markdown::ListMarker;
use lattice_cli::mdtable::{markdown_table_plans, wrap_cell_text, TableWidths};

// Scaled widths for a table whose least widths do not fit, in floating
// point as the program computes them.
fn scaled_widths(min_widths: &[usize], available: usize) -> Vec<usize> {
    let total: usize = min_widths.iter().sum();
    let scale = available as f64 / total as f64;
    min_widths.iter().map(|w| ((*w as f64 * scale) as usize).max(3)).collect()
}

fn render_markdown(content: &str, width: u16) -> Vec<MdLine> {
    let scaled: Vec<Vec<usize>> = markdown_table_plans(content, width)
        .into_iter()
        .map(|p| match p {
            TableWidths::Scale { min_widths, available } => scaled_widths(&min_widths, available),
            TableWidths::Fitted(_) => Vec::new(),
        })
        .collect();
    lattice_cli::mdtable::render_markdown(content, width, &scaled)
}

fn line_texts(lines: &[MdLine]) -> Vec<String> {
    lines.iter().map(|l| l.runs.iter().map(|r| r.text.as_str()).collect::<String>()).collect()
}

fn chars(s: &str) -> Vec<char> {
    s.chars().collect()
}

#[test]
fn plain_paragraph() {
    let lines = render_markdown("hello world", 80);
    let texts = line_texts(&lines);
    assert!(texts.iter().any(|t| t.contains("hello world")), "texts: {:?}", texts);
}

#[test]
fn empty_input() {
    let lines = render_markdown("", 80);
    assert!(
        lines.is_empty() || lines.iter().all(|l| l.runs.is_empty() || l.runs.iter().all(|s| s.text.trim().is_empty())),
        "expected empty or blank-only lines, got {:?}",
        line_texts(&lines)
    );
}

#[test]
fn long_unicode_plain_text_does_not_panic() {
    let content = "你".repeat(260);
    let lines = render_markdown(&content, 80);
    assert!(!lines.is_empty());
}

#[test]
fn heading_h1_renders_bold() {
    let texts = line_texts(&render_markdown("# Title", 80));
    assert!(texts.iter().any(|t| t.contains("Title")), "heading not found: {:?}", texts);
}

#[test]
fn heading_h2_renders() {
    let texts = line_texts(&render_markdown("## Section", 80));
    assert!(texts.iter().any(|t| t.contains("Section")), "h2 not found: {:?}", texts);
}

#[test]
fn heading_h3_renders() {
    let texts = line_texts(&render_markdown("### Subsection", 80));
    assert!(texts.iter().any(|t| t.contains("Subsection")), "h3 not found: {:?}", texts);
}

#[test]
fn bold_text() {
    let lines = render_markdown("hello **world** foo", 80);
    let has_bold = lines.iter().any(|l| {
        l.runs.iter().any(|s| s.text.contains("world") && matches!(s.look, MdLook::Inline { bold: true, .. }))
    });
    assert!(has_bold, "bold span not found: {:?}", lines);
}

#[test]
fn italic_text() {
    let lines = render_markdown("hello *world* foo", 80);
    assert!(line_texts(&lines).iter().any(|t| t.contains("world")), "texts: {:?}", line_texts(&lines));
}

#[test]
fn strikethrough_text() {
    let lines = render_markdown("hello ~~world~~ foo", 80);
    assert!(line_texts(&lines).iter().any(|t| t.contains("world")), "texts: {:?}", line_texts(&lines));
}

#[test]
fn inline_code() {
    let lines = render_markdown("use `std::io` here", 80);
    let has_code = lines.iter().any(|l| {
        l.runs.iter().any(|s| s.text.contains("std::io") && matches!(s.look, MdLook::Inline { code: true, .. }))
    });
    assert!(has_code, "inline code missing its look: {:?}", line_texts(&lines));
}

#[test]
fn code_block_no_lang() {
    let texts = line_texts(&render_markdown("```\nlet x = 1;\n```", 80));
    assert!(texts.iter().any(|t| t.contains("let x = 1")), "code block missing: {:?}", texts);
    assert!(texts.iter().any(|t| t.contains("┌────")), "code block border missing: {:?}", texts);
}

#[test]
fn code_block_with_lang() {
    let texts = line_texts(&render_markdown("```rust\nfn main() {}\n```", 80));
    assert!(texts.iter().any(|t| t.contains("rust")), "lang tag missing: {:?}", texts);
    assert!(texts.iter().any(|t| t.contains("fn main()")), "code missing: {:?}", texts);
}

#[test]
fn blockquote_with_prefix() {
    let texts = line_texts(&render_markdown("> quoted text", 80));
    assert!(
        texts.iter().any(|t| t.contains("│") && t.contains("quoted text")),
        "blockquote prefix missing: {:?}",
        texts
    );
}

#[test]
fn unordered_list() {
    let texts = line_texts(&render_markdown("- item one\n- item two", 80));
    assert!(texts.iter().any(|t| t.contains("item one")), "list item 1: {:?}", texts);
    assert!(texts.iter().any(|t| t.contains("item two")), "list item 2: {:?}", texts);
}

#[test]
fn ordered_list() {
    let texts = line_texts(&render_markdown("1. first\n2. second", 80));
    assert!(texts.iter().any(|t| t.contains("first")), "ordered item 1: {:?}", texts);
    assert!(texts.iter().any(|t| t.contains("second")), "ordered item 2: {:?}", texts);
}

#[test]
fn task_list() {
    let texts = line_texts(&render_markdown("- [x] done\n- [ ] todo", 80));
    assert!(texts.iter().any(|t| t.contains("done")), "checked item: {:?}", texts);
    assert!(texts.iter().any(|t| t.contains("todo")), "unchecked item: {:?}", texts);
    assert!(texts.iter().any(|t| t.contains('\u{2611}')), "checked box missing: {:?}", texts);
    assert!(texts.iter().any(|t| t.contains('\u{2610}')), "unchecked box missing: {:?}", texts);
}

#[test]
fn link_rendered() {
    let texts = line_texts(&render_markdown("see [docs](https://example.com)", 80));
    assert!(texts.iter().any(|t| t.contains("docs")), "link text: {:?}", texts);
}

#[test]
fn horizontal_rule() {
    let texts = line_texts(&render_markdown("before\n\n---\n\nafter", 80));
    assert!(texts.iter().any(|t| t.contains('─')), "rule missing: {:?}", texts);
}

#[test]
fn heading_then_paragraph() {
    let texts = line_texts(&render_markdown("# Intro\n\nThis is text.", 80));
    assert!(texts.iter().any(|t| t.contains("Intro")), "heading: {:?}", texts);
    assert!(texts.iter().any(|t| t.contains("This is text")), "paragraph: {:?}", texts);
}

#[test]
fn narrow_width_wraps() {
    let texts = line_texts(&render_markdown("this is a long line that should wrap", 20));
    assert!(texts.len() > 1, "narrow width did not wrap: {} lines, {:?}", texts.len(), texts);
}

#[test]
fn table_with_headers() {
    let md = "| Name | Value |\n|------|-------|\n| foo  | 42    |";
    let texts = line_texts(&render_markdown(md, 80));
    assert!(texts.iter().any(|t| t.contains("Name")), "header missing: {:?}", texts);
    assert!(texts.iter().any(|t| t.contains("foo")), "cell missing: {:?}", texts);
    assert!(texts.iter().any(|t| t.contains("42")), "value missing: {:?}", texts);
    assert!(texts.iter().any(|t| t.contains('│')), "border missing: {:?}", texts);
}

#[test]
fn table_no_headers() {
    let md = "| a | b |\n|---|---|\n| c | d |";
    let texts = line_texts(&render_markdown(md, 80));
    assert!(texts.iter().any(|t| t.contains('│')), "border missing: {:?}", texts);
}

#[test]
fn table_narrow() {
    let md = "| Col | Value |\n|-----|-------|\n| x   | 100   |";
    let texts = line_texts(&render_markdown(md, 30));
    assert!(texts.iter().any(|t| t.contains('│')), "border at narrow: {:?}", texts);
}

#[test]
fn inline_math_rendered() {
    let texts = line_texts(&render_markdown("the formula $E=mc^2$ is famous", 80));
    assert!(texts.iter().any(|t| t.contains("E=mc^2")), "inline math missing: {:?}", texts);
}

#[test]
fn display_math_rendered() {
    let texts = line_texts(&render_markdown("$$\n\\sum_{i=1}^n x_i\n$$", 80));
    assert!(texts.iter().any(|t| t.contains("math") || t.contains("sum")), "display math missing: {:?}", texts);
}

#[test]
fn returns_lines() {
    let lines = render_markdown("**test**", 80);
    for line in &lines {
        for run in &line.runs {
            let _: &String = &run.text;
        }
    }
    assert!(!lines.is_empty());
}

// ---------------------------------------------------------------------------
// The parts on their own.
// ---------------------------------------------------------------------------

#[test]
fn events_group_into_blocks() {
    let events = vec![
        MdEvent::Start(MdStart::Heading(2)),
        MdEvent::Text("Title".into()),
        MdEvent::End(MdEnd::Heading),
        MdEvent::Start(MdStart::Other),
        MdEvent::Text("plain ".into()),
        MdEvent::Start(MdStart::Strong),
        MdEvent::Text("bold".into()),
        MdEvent::End(MdEnd::Strong),
        MdEvent::End(MdEnd::Paragraph),
        MdEvent::Rule,
    ];
    let blocks = parse_events(&events);
    assert_eq!(blocks.len(), 3);
    match &blocks[0] {
        MdBlock::Heading { level, spans } => {
            assert_eq!(*level, 2);
            assert_eq!(spans[0].text, "Title");
        }
        other => panic!("expected a heading, got {:?}", other),
    }
    match &blocks[1] {
        MdBlock::Paragraph { spans } => {
            assert_eq!(spans.len(), 2);
            assert!(!spans[0].bold);
            assert!(spans[1].bold);
            assert_eq!(spans[1].text, "bold");
        }
        other => panic!("expected a paragraph, got {:?}", other),
    }
    assert!(matches!(blocks[2], MdBlock::Rule));
}

#[test]
fn ordered_items_are_numbered_and_nested_depths_counted() {
    let events = vec![
        MdEvent::Start(MdStart::List(Some(1))),
        MdEvent::Start(MdStart::Item),
        MdEvent::Text("one".into()),
        MdEvent::End(MdEnd::Item),
        MdEvent::Start(MdStart::Item),
        MdEvent::Text("two".into()),
        MdEvent::Start(MdStart::List(None)),
        MdEvent::Start(MdStart::Item),
        MdEvent::Text("inner".into()),
        MdEvent::End(MdEnd::Item),
        MdEvent::End(MdEnd::List),
        MdEvent::End(MdEnd::Item),
        MdEvent::End(MdEnd::List),
    ];
    let blocks = parse_events(&events);
    let items: Vec<(usize, ListMarker)> = blocks
        .iter()
        .filter_map(|b| match b {
            MdBlock::ListItem { depth, marker, .. } => Some((*depth, *marker)),
            _ => None,
        })
        .collect();
    // A tight item's text is not closed before a nested list starts: it
    // joins the nested item's text, under the nested item's marker.
    assert_eq!(items, vec![(1, ListMarker::Numbered(1)), (2, ListMarker::Bullet)]);
    match &blocks[1] {
        MdBlock::ListItem { spans, .. } => {
            let t: String = spans.iter().map(|s| s.text.as_str()).collect();
            assert_eq!(t, "twoinner");
        }
        other => panic!("expected an item, got {:?}", other),
    }
}

#[test]
fn code_blocks_drop_one_trailing_newline() {
    let events = vec![
        MdEvent::Start(MdStart::CodeBlock(Some("".into()))),
        MdEvent::Text("a\nb\n".into()),
        MdEvent::End(MdEnd::CodeBlock),
    ];
    let blocks = parse_events(&events);
    match &blocks[0] {
        MdBlock::CodeBlock { lang, text } => {
            assert!(lang.is_none());
            assert_eq!(text, "a\nb");
        }
        other => panic!("expected code, got {:?}", other),
    }
}

#[test]
fn markdown_detection() {
    assert!(!has_markdown_syntax("hello world"));
    assert!(has_markdown_syntax("a # b"));
    assert!(has_markdown_syntax("one\n\ntwo"));
    assert!(has_markdown_syntax("intro\n1. first"));
    assert!(has_markdown_syntax("1. first"));
    assert!(!has_markdown_syntax("1.5 apples"));
}

#[test]
fn words_pack_into_chunks() {
    let chunks: Vec<String> = wrap_line_text("aa bb cc", 5).iter().map(|c| c.iter().collect()).collect();
    assert_eq!(chunks, vec!["aa bb".to_string(), "cc".to_string()]);
    let blank: Vec<String> = wrap_line_text("   ", 5).iter().map(|c| c.iter().collect()).collect();
    assert_eq!(blank, vec![String::new()]);
}

#[test]
fn truncation_marks_wider_text() {
    assert_eq!(truncate_str("abcdef", 3), "abc…");
    assert_eq!(truncate_str("abc", 3), "abc");
}

#[test]
fn list_prefixes() {
    assert_eq!(list_prefix(ListMarker::Bullet, 1).iter().collect::<String>(), "• ");
    assert_eq!(list_prefix(ListMarker::Numbered(12), 2).iter().collect::<String>(), "  12. ");
    assert_eq!(list_prefix(ListMarker::Task { checked: true }, 0).iter().collect::<String>(), "☑ ");
}

#[test]
fn cells_wrap_softly_or_hard() {
    let soft: Vec<String> = wrap_cell_text(&chars("one two three"), 7, false).iter().map(|c| c.iter().collect()).collect();
    assert_eq!(soft, vec!["one two".to_string(), "three".to_string()]);
    let hard: Vec<String> = wrap_cell_text(&chars("abcdefgh"), 3, true).iter().map(|c| c.iter().collect()).collect();
    assert_eq!(hard, vec!["abc".to_string(), "def".to_string(), "gh".to_string()]);
    let zero: Vec<String> = wrap_cell_text(&chars("x y"), 0, false).iter().map(|c| c.iter().collect()).collect();
    assert_eq!(zero, vec!["x y".to_string()]);
}

#[test]
fn plain_text_keeps_blank_lines() {
    let lines = render_plain_text("a\n\nb", 80);
    let texts = line_texts(&lines);
    assert_eq!(texts, vec!["a".to_string(), String::new(), "b".to_string()]);
    assert_eq!(lines[0].look, MdLook::Text);
}

#[test]
fn soft_wrap_keeps_every_word_in_order() {
    let line = "  the quick\tbrown   fox jumps over\nthe lazy dog  ";
    for max in [1usize, 5, 9, 14, 200] {
        let chunks: Vec<String> = wrap_line_text(line, max).into_iter().map(|c| c.into_iter().collect()).collect();
        assert_eq!(chunks.join(" "), "the quick brown fox jumps over the lazy dog");
    }
}

#[test]
fn markdown_sample_is_the_first_500_characters() {
    assert!(!has_markdown_syntax("hello world"));
    assert!(has_markdown_syntax("# Title"));
    let s3 = "你".repeat(200) + "# x";
    assert!(has_markdown_syntax(&s3));
    let s4 = "a".repeat(500) + "# x";
    assert!(!has_markdown_syntax(&s4));
}
