//! The bottom of the terminal UI: the composer, its cursor, the help and
//! command lists, the status line; and the transcript's search marks.

use crate::app::{App, AppStatus, MenuKind, MenuState};
use crate::chat::{count_lines, line_count, newlines, suggestions_view, SlashSuggestion};
use crate::layout::{
    line2, line_view, lines_of, lines_view, span, span_str, spaces, space_chars, text_columns,
    text_lines, text_width, Line, Look, Span, SpanView,
};
use crate::mdrender::{LineView, MdLine, MdLook};
use crate::text::{chars_of, decimal, decimal_chars, extend_chars, extend_str, string_of, vv};
use vstd::prelude::*;

verus! {

// ---------------------------------------------------------------------------
// Heights.
// ---------------------------------------------------------------------------

pub open spec fn clamp16(n: int, lo: int, hi: int) -> u16 {
    (if n < lo {
        lo
    } else if n > hi {
        hi
    } else {
        n
    }) as u16
}

/// The composer's height: its lines (one at least) and two borders, from 3
/// to 7 rows.
pub open spec fn input_rows(input: Seq<char>) -> u16 {
    let n = if line_count(input) < 1 { 1 } else { line_count(input) };
    let n16 = (n as int % 65536) as u16;
    let with_borders: int = if n16 + 2 > u16::MAX { u16::MAX as int } else { n16 + 2 };
    clamp16(with_borders, 3, 7)
}

pub fn input_height(app: &App) -> (r: u16)
    ensures
        r == input_rows(app.input@),
{
    let n = count_lines(string_of(&app.input).as_str());
    let n = if n < 1 {
        1
    } else {
        n
    };
    let n16 = (n % 65536) as u16;
    let h = n16.saturating_add(2);
    if h < 3 {
        3
    } else if h > 7 {
        7
    } else {
        h
    }
}

/// The bottom panel's height: help (10 rows when open), the command list
/// (up to 6 commands and 2 rows of frame), the composer and the status
/// line; never more than all rows but one (4 at least).
pub open spec fn bottom_rows(help_open: bool, suggestion_count: nat, input_h: u16, terminal_height: u16) -> u16 {
    let help: int = if help_open { 10 } else { 0 };
    let sugg: int = if suggestion_count > 0 {
        (if suggestion_count < 6 { suggestion_count as int } else { 6 }) + 2
    } else {
        0
    };
    let composer: int = if input_h + 1 > u16::MAX { u16::MAX as int } else { input_h + 1 };
    let total: int = if help + sugg + composer > u16::MAX { u16::MAX as int } else { help + sugg + composer };
    let cap: int = if terminal_height >= 5 { terminal_height - 1 } else { 4 };
    (if total < cap { total } else { cap }) as u16
}

pub fn bottom_height(app: &App, suggestion_count: usize, terminal_height: u16) -> (r: u16)
    ensures
        r == bottom_rows(app.help_open, suggestion_count as nat, input_rows(app.input@), terminal_height),
{
    let help: u16 = if app.help_open {
        10
    } else {
        0
    };
    let sugg: u16 = if suggestion_count > 0 {
        (if suggestion_count < 6 {
            suggestion_count
        } else {
            6
        }) as u16 + 2
    } else {
        0
    };
    let composer = input_height(app).saturating_add(1);
    let total = help.saturating_add(sugg).saturating_add(composer);
    let cap: u16 = if terminal_height >= 5 {
        terminal_height - 1
    } else {
        4
    };
    if total < cap {
        total
    } else {
        cap
    }
}

// ---------------------------------------------------------------------------
// The composer.
// ---------------------------------------------------------------------------

pub open spec fn prompt_prefix() -> Seq<char> {
    "❯ "@
}

/// The text after the last line break.
pub open spec fn last_line(s: Seq<char>) -> Seq<char>
    decreases s.len(),
{
    if s.len() == 0 {
        s
    } else if s.last() == '\n' {
        seq![]
    } else {
        last_line(s.drop_last()).push(s.last())
    }
}

pub open spec fn sat16(n: int) -> u16 {
    if n > u16::MAX {
        u16::MAX
    } else {
        n as u16
    }
}

pub open spec fn min16(a: u16, b: u16) -> u16 {
    if a < b {
        a
    } else {
        b
    }
}

/// Where the terminal cursor goes in the composer's area: after the prompt
/// (two columns on later lines) and the text before the cursor on its line,
/// kept inside the area; none for an area too small to type in.
pub open spec fn cursor_spot(input: Seq<char>, cursor: nat, x: u16, y: u16, w: u16, h: u16) -> Option<(u16, u16)> {
    if w < 2 || h < 2 {
        None
    } else {
        let before = input.take(cursor as int);
        let line_index = (newlines(before) as int % 65536) as u16;
        let prefix: u16 = if line_index == 0 {
            (text_width(prompt_prefix()) as int % 65536) as u16
        } else {
            2
        };
        let visual = (text_width(last_line(before)) as int % 65536) as u16;
        let room = if w > sat16(prefix + 1) { (w - sat16(prefix + 1)) as u16 } else { 0 };
        let cx = sat16(sat16(x + prefix) + min16(visual, room));
        let cy = sat16(sat16(y + 1) + min16(line_index, if h > 2 { (h - 2) as u16 } else { 0 }));
        Some((cx, cy))
    }
}

fn cut_before(s: &Vec<char>, cursor: usize) -> (r: (usize, Vec<char>))
    requires
        cursor <= s.len(),
    ensures
        r.0 == newlines(s@.take(cursor as int)),
        r.1@ == last_line(s@.take(cursor as int)),
{
    let mut n: usize = 0;
    let mut cur: Vec<char> = Vec::new();
    let mut i: usize = 0;
    while i < cursor
        invariant
            i <= cursor <= s.len(),
            n == newlines(s@.take(i as int)),
            n <= i,
            cur@ == last_line(s@.take(i as int)),
        decreases cursor - i,
    {
        assert(s@.take(i + 1).drop_last() =~= s@.take(i as int));
        if s[i] == '\n' {
            n += 1;
            cur = Vec::new();
        } else {
            cur.push(s[i]);
        }
        i += 1;
    }
    (n, cur)
}

pub fn cursor_position(app: &App, x: u16, y: u16, w: u16, h: u16) -> (r: Option<(u16, u16)>)
    requires
        app.input_cursor <= app.input@.len(),
    ensures
        r == cursor_spot(app.input@, app.input_cursor as nat, x, y, w, h),
{
    if w < 2 || h < 2 {
        return None;
    }
    let (lines_before, current) = cut_before(&app.input, app.input_cursor);
    let line_index = (lines_before % 65536) as u16;
    proof {
        reveal_strlit("❯ ");
    }
    let prefix: u16 = if line_index == 0 {
        (text_columns("❯ ") % 65536) as u16
    } else {
        2
    };
    let visual = (text_columns(string_of(&current).as_str()) % 65536) as u16;
    let p1 = prefix.saturating_add(1);
    let room: u16 = if w > p1 {
        w - p1
    } else {
        0
    };
    let cx = x.saturating_add(prefix).saturating_add(if visual < room {
        visual
    } else {
        room
    });
    let hr: u16 = if h > 2 {
        h - 2
    } else {
        0
    };
    let cy = y.saturating_add(1).saturating_add(if line_index < hr {
        line_index
    } else {
        hr
    });
    Some((cx, cy))
}

/// Typed text: the prompt before the first line, two spaces before the
/// others.
pub open spec fn input_rows_view(input: Seq<char>) -> Seq<Seq<SpanView>> {
    let ls = text_lines(input);
    Seq::new(
        ls.len(),
        |i: int|
            if i == 0 {
                seq![(prompt_prefix(), Look::Accent), (ls[i], Look::Text)]
            } else {
                seq![("  "@, Look::Plain), (ls[i], Look::Text)]
            },
    )
}

pub fn prefixed_input(input: &Vec<char>) -> (r: Vec<Line>)
    ensures
        lines_view(r@) == input_rows_view(input@),
{
    let ls = lines_of(string_of(input).as_str());
    let ghost lv = vv(ls@);
    let mut out: Vec<Line> = Vec::new();
    let mut i: usize = 0;
    while i < ls.len()
        invariant
            i <= ls.len(),
            lv == vv(ls@),
            lv == text_lines(input@),
            lines_view(out@) == input_rows_view(input@).take(i as int),
        decreases ls.len() - i,
    {
        let body = span(ls[i].clone(), Look::Text);
        let l = if i == 0 {
            line2(span_str("❯ ", Look::Accent), body)
        } else {
            line2(span_str("  ", Look::Plain), body)
        };
        let ghost o0 = lines_view(out@);
        out.push(l);
        assert(lines_view(out@) =~= o0.push(line_view(l)));
        i += 1;
        assert(lines_view(out@) =~= input_rows_view(input@).take(i as int));
    }
    assert(input_rows_view(input@).take(i as int) =~= input_rows_view(input@));
    out
}

pub open spec fn placeholder_of(status: AppStatus, searching: bool) -> Seq<char> {
    if status is Streaming {
        "Type now to queue the next prompt"@
    } else if searching {
        "Esc clears search · /next and /prev navigate matches"@
    } else {
        "Type a message or / for commands"@
    }
}

/// The composer's text: a hint for what can be typed while it is empty.
pub open spec fn composer_view(app: App) -> Seq<Seq<SpanView>> {
    if app.input@.len() == 0 {
        seq![seq![(prompt_prefix(), Look::Subtext), (placeholder_of(app.status, app.search.query@.len() > 0), Look::Subtext)]]
    } else {
        input_rows_view(app.input@)
    }
}

pub fn composer_lines(app: &App) -> (r: Vec<Line>)
    ensures
        lines_view(r@) == composer_view(*app),
{
    if app.input.len() == 0 {
        let streaming = match app.status {
            AppStatus::Streaming => true,
            _ => false,
        };
        let hint = if streaming {
            "Type now to queue the next prompt"
        } else if app.search.is_active() {
            "Esc clears search · /next and /prev navigate matches"
        } else {
            "Type a message or / for commands"
        };
        let l = line2(span_str("❯ ", Look::Subtext), span_str(hint, Look::Subtext));
        let mut out: Vec<Line> = Vec::new();
        out.push(l);
        assert(lines_view(out@) =~= seq![line_view(l)]);
        out
    } else {
        prefixed_input(&app.input)
    }
}

// ---------------------------------------------------------------------------
// Help and commands.
// ---------------------------------------------------------------------------

/// A text padded with spaces to `n` characters (`format!("{:<n}")`).
pub open spec fn padded(s: Seq<char>, n: nat) -> Seq<char> {
    if s.len() < n {
        s + spaces((n - s.len()) as nat)
    } else {
        s
    }
}

fn pad_to(s: &str, n: usize) -> (r: Vec<char>)
    ensures
        r@ == padded(s@, n as nat),
{
    let mut r = chars_of(s);
    if r.len() < n {
        let sp = space_chars(n - r.len());
        extend_chars(&mut r, &sp);
    }
    r
}

pub open spec fn help_row_view(lk: Seq<char>, ld: Seq<char>, rk: Seq<char>, rd: Seq<char>) -> Seq<SpanView> {
    seq![
        (padded(lk, 12), Look::Highlight),
        (padded(ld, 18), Look::Subtext),
        (padded(rk, 12), Look::Highlight),
        (rd, Look::Subtext),
    ]
}

fn help_row(lk: &str, ld: &str, rk: &str, rd: &str) -> (r: Line)
    ensures
        line_view(r) == help_row_view(lk@, ld@, rk@, rd@),
{
    let mut v: Vec<Span> = Vec::new();
    v.push(span(pad_to(lk, 12), Look::Highlight));
    v.push(span(pad_to(ld, 18), Look::Subtext));
    v.push(span(pad_to(rk, 12), Look::Highlight));
    v.push(span_str(rd, Look::Subtext));
    let r = Line { spans: v };
    assert(line_view(r) =~= help_row_view(lk@, ld@, rk@, rd@));
    r
}

/// The shortcuts panel.
pub open spec fn help_view() -> Seq<Seq<SpanView>> {
    seq![
        help_row_view("Enter"@, "send"@, "Shift+Enter"@, "newline"@),
        help_row_view("?"@, "toggle help"@, "Tab"@, "complete cmd"@),
        help_row_view("Ctrl+N"@, "new session"@, "Ctrl+L"@, "clear transcript"@),
        help_row_view("Ctrl+F"@, "find"@, "Ctrl+G"@, "next match"@),
        help_row_view("Ctrl+O"@, "thinking"@, "Ctrl+E"@, "expand tool"@),
        help_row_view("/permissions"@, "sandbox"@, "/plugins"@, "plugins"@),
        help_row_view("Esc"@, "clear/close"@, "End"@, "jump bottom"@),
        help_row_view("↑/↓"@, "scroll/history"@, "Ctrl+C"@, "quit"@),
    ]
}

pub fn help_lines() -> (r: Vec<Line>)
    ensures
        lines_view(r@) == help_view(),
{
    let mut v: Vec<Line> = Vec::new();
    v.push(help_row("Enter", "send", "Shift+Enter", "newline"));
    v.push(help_row("?", "toggle help", "Tab", "complete cmd"));
    v.push(help_row("Ctrl+N", "new session", "Ctrl+L", "clear transcript"));
    v.push(help_row("Ctrl+F", "find", "Ctrl+G", "next match"));
    v.push(help_row("Ctrl+O", "thinking", "Ctrl+E", "expand tool"));
    v.push(help_row("/permissions", "sandbox", "/plugins", "plugins"));
    v.push(help_row("Esc", "clear/close", "End", "jump bottom"));
    v.push(help_row("↑/↓", "scroll/history", "Ctrl+C", "quit"));
    assert(lines_view(v@) =~= help_view());
    v
}

pub open spec fn suggestion_row(s: (Seq<char>, Seq<char>), selected: bool) -> Seq<SpanView> {
    seq![
        ((if selected { "▶ "@ } else { "  "@ }) + padded(s.0, 15), if selected {
            Look::Selected
        } else {
            Look::HighlightBold
        }),
        (s.1, if selected {
            Look::SelectedBody
        } else {
            Look::Subtext
        }),
    ]
}

/// The command list: as many commands as there are rows, the selected one
/// (kept within the list) marked.
pub open spec fn suggestion_rows(sv: Seq<(Seq<char>, Seq<char>)>, selected: nat, rows: nat) -> Seq<Seq<SpanView>> {
    let n = if sv.len() < rows { sv.len() } else { rows };
    let last = if sv.len() > 0 { (sv.len() - 1) as nat } else { 0 };
    let sel = if selected < last { selected } else { last };
    Seq::new(n, |i: int| suggestion_row(sv[i], i == sel))
}

pub fn suggestion_lines(suggestions: &Vec<SlashSuggestion>, selected_index: usize, rows: usize) -> (r: Vec<Line>)
    ensures
        lines_view(r@) == suggestion_rows(suggestions_view(suggestions@), selected_index as nat, rows as nat),
{
    let ghost sv = suggestions_view(suggestions@);
    let n = if suggestions.len() < rows {
        suggestions.len()
    } else {
        rows
    };
    let last: usize = if suggestions.len() > 0 {
        suggestions.len() - 1
    } else {
        0
    };
    let sel = if selected_index < last {
        selected_index
    } else {
        last
    };
    let mut out: Vec<Line> = Vec::new();
    let mut i: usize = 0;
    while i < n
        invariant
            i <= n,
            n <= suggestions.len(),
            sv == suggestions_view(suggestions@),
            lines_view(out@) == suggestion_rows(sv, selected_index as nat, rows as nat).take(i as int),
            n == (if sv.len() < rows { sv.len() } else { rows as nat }),
            sel == (if selected_index < last { selected_index } else { last }),
            last == (if sv.len() > 0 { (sv.len() - 1) as nat } else { 0 }),
        decreases n - i,
    {
        let s = &suggestions[i];
        let selected = i == sel;
        let mut head = chars_of(if selected {
            "▶ "
        } else {
            "  "
        });
        let cmd = pad_to(s.command, 15);
        extend_chars(&mut head, &cmd);
        let l = line2(
            span(head, if selected {
                Look::Selected
            } else {
                Look::HighlightBold
            }),
            span_str(s.description, if selected {
                Look::SelectedBody
            } else {
                Look::Subtext
            }),
        );
        let ghost o0 = lines_view(out@);
        out.push(l);
        assert(lines_view(out@) =~= o0.push(line_view(l)));
        i += 1;
        assert(lines_view(out@) =~= suggestion_rows(sv, selected_index as nat, rows as nat).take(i as int));
    }
    assert(suggestion_rows(sv, selected_index as nat, rows as nat).take(i as int) =~= suggestion_rows(
        sv,
        selected_index as nat,
        rows as nat,
    ));
    out
}

// ---------------------------------------------------------------------------
// The status line.
// ---------------------------------------------------------------------------

/// Seconds as "12s", or "3m 7s" from a minute on.
pub open spec fn duration_text(secs: nat) -> Seq<char> {
    if secs < 60 {
        decimal(secs) + "s"@
    } else {
        decimal(secs / 60) + "m "@ + decimal(secs % 60) + "s"@
    }
}

pub fn format_duration(secs: u64) -> (r: Vec<char>)
    ensures
        r@ == duration_text(secs as nat),
{
    if secs < 60 {
        let mut r = decimal_chars(secs as u128);
        extend_str(&mut r, "s");
        r
    } else {
        let mut r = decimal_chars((secs / 60) as u128);
        extend_str(&mut r, "m ");
        let d = decimal_chars((secs % 60) as u128);
        extend_chars(&mut r, &d);
        extend_str(&mut r, "s");
        r
    }
}

pub open spec fn spinner_frame(i: usize) -> Seq<char> {
    if i % 4 == 0 {
        "-"@
    } else if i % 4 == 1 {
        "\\"@
    } else if i % 4 == 2 {
        "|"@
    } else {
        "/"@
    }
}

/// What the status line says of the app: ready, an error, or how long the
/// reply has streamed and how long its reasoning took or is taking.
/// `elapsed`, `thinking` and `thought` are those durations in seconds.
pub open spec fn status_text(app: App, elapsed: nat, thinking: nat, thought: nat) -> Seq<char> {
    match app.status {
        AppStatus::Ready => "ready"@,
        AppStatus::Streaming => if app.reasoning_started && !app.reasoning_timed {
            "Thinking… "@ + duration_text(elapsed) + " · thinking "@ + duration_text(thinking)
        } else if app.reasoning_timed {
            "Streaming "@ + duration_text(elapsed) + " · thought for "@ + duration_text(thought)
        } else {
            spinner_frame(app.spinner_index) + " streaming "@ + duration_text(elapsed)
        },
        AppStatus::Error(e) => "error: "@ + e@,
    }
}

pub open spec fn status_look(s: AppStatus) -> Look {
    match s {
        AppStatus::Ready => Look::Success,
        AppStatus::Streaming => Look::Accent,
        AppStatus::Error(_) => Look::Error,
    }
}

pub open spec fn mode_text(app: App) -> Seq<char> {
    if app.input@.len() > 0 && app.input@[0] == '!' {
        "bash"@
    } else {
        "prompt"@
    }
}

/// The status line's left part.
pub open spec fn status_spans(app: App, status: Seq<char>, ctx: Seq<char>) -> Seq<SpanView> {
    seq![
        (" "@ + mode_text(app) + " "@, Look::Pill),
        (" "@, Look::Plain),
        (app.current_model@, Look::Text),
        ("@"@, Look::Subtext),
        (if app.current_provider@.len() == 0 { "unresolved"@ } else { app.current_provider@ }, Look::Text),
        ("  "@, Look::Plain),
        (status, status_look(app.status)),
        ("  "@, Look::Plain),
        (decimal(app.token_count as nat) + " tok"@, Look::Subtext),
        ("  "@, Look::Plain),
        (ctx, Look::Subtext),
        ("  "@, Look::Plain),
        (if app.transcript_mode { "trace on"@ } else { "trace off"@ }, Look::Subtext),
        ("  "@, Look::Plain),
        ("effort:"@ + match app.thinking_effort {
            Some(e) => e@,
            None => "auto"@,
        }, Look::Subtext),
    ]
}

pub open spec fn spans_width(sp: Seq<SpanView>) -> nat
    decreases sp.len(),
{
    if sp.len() == 0 {
        0
    } else {
        spans_width(sp.drop_last()) + text_width(sp.last().0) as nat
    }
}

pub open spec fn hints_text(width: nat) -> Seq<char> {
    if width >= 78 {
        "? help  / commands  Ctrl+N new  Ctrl+C quit "@
    } else {
        "? help  Ctrl+C quit "@
    }
}

/// The status line: mode, model and provider, status, tokens, context use,
/// trace and effort; the key hints at the right end where they fit.  `ctx`
/// is the context-use gauge as shown.
pub open spec fn statusline_view(app: App, width: u16, elapsed: nat, thinking: nat, thought: nat, ctx: Seq<char>) -> Seq<SpanView> {
    let left = status_spans(app, status_text(app, elapsed, thinking, thought), ctx);
    let cw = spans_width(left);
    let hints = hints_text(width as nat);
    let hw = text_width(hints) as nat;
    if cw + hw + 2 < width {
        left + seq![(spaces((width - (cw + hw)) as nat), Look::Plain), (hints, Look::Subtext)]
    } else {
        left
    }
}

fn status_words(app: &App, elapsed: u64, thinking: u64, thought: u64) -> (r: Vec<char>)
    ensures
        r@ == status_text(*app, elapsed as nat, thinking as nat, thought as nat),
{
    match &app.status {
        AppStatus::Ready => chars_of("ready"),
        AppStatus::Streaming => {
            let e = format_duration(elapsed);
            if app.reasoning_started && !app.reasoning_timed {
                let mut r = chars_of("Thinking… ");
                extend_chars(&mut r, &e);
                extend_str(&mut r, " · thinking ");
                let t = format_duration(thinking);
                extend_chars(&mut r, &t);
                r
            } else if app.reasoning_timed {
                let mut r = chars_of("Streaming ");
                extend_chars(&mut r, &e);
                extend_str(&mut r, " · thought for ");
                let t = format_duration(thought);
                extend_chars(&mut r, &t);
                r
            } else {
                let mut r = chars_of(app.spinner());
                extend_str(&mut r, " streaming ");
                extend_chars(&mut r, &e);
                r
            }
        },
        AppStatus::Error(err) => {
            let mut r = chars_of("error: ");
            extend_str(&mut r, err.as_str());
            r
        },
    }
}

fn spans_total(v: &Vec<Span>) -> (r: u128)
    ensures
        r == spans_width(line_view(Line { spans: *v })),
        r <= v.len() * (usize::MAX as int),
{
    let ghost sv = line_view(Line { spans: *v });
    let mut acc: u128 = 0;
    let mut i: usize = 0;
    while i < v.len()
        invariant
            i <= v.len(),
            sv == line_view(Line { spans: *v }),
            acc == spans_width(sv.take(i as int)),
            acc <= i * (usize::MAX as int),
        decreases v.len() - i,
    {
        assert(sv.take(i + 1).drop_last() =~= sv.take(i as int));
        let x = text_columns(v[i].text.as_str());
        assert(acc + x <= (i + 1) * (usize::MAX as int)) by (nonlinear_arith)
            requires
                acc <= i * (usize::MAX as int),
                x <= usize::MAX,
        ;
        assert((i + 1) * (usize::MAX as int) <= (usize::MAX as int) * (usize::MAX as int)) by (nonlinear_arith)
            requires
                i < usize::MAX,
        ;
        assert((usize::MAX as int) * (usize::MAX as int) < u128::MAX) by (nonlinear_arith);
        acc = acc + x as u128;
        i += 1;
    }
    assert(sv.take(i as int) =~= sv);
    acc
}

pub fn statusline(app: &App, width: u16, elapsed: u64, thinking: u64, thought: u64, ctx: &str) -> (r: Line)
    ensures
        line_view(r) == statusline_view(*app, width, elapsed as nat, thinking as nat, thought as nat, ctx@),
{
    let status = status_words(app, elapsed, thinking, thought);
    let mut pill = chars_of(" ");
    extend_str(&mut pill, app.mode_label());
    extend_str(&mut pill, " ");
    let look = match &app.status {
        AppStatus::Ready => Look::Success,
        AppStatus::Streaming => Look::Accent,
        AppStatus::Error(_) => Look::Error,
    };
    let mut tokens = decimal_chars(app.token_count as u128);
    extend_str(&mut tokens, " tok");
    let mut effort = chars_of("effort:");
    match &app.thinking_effort {
        Some(e) => extend_str(&mut effort, e.as_str()),
        None => extend_str(&mut effort, "auto"),
    }
    let provider: &str = if app.current_provider.as_str().is_empty() {
        "unresolved"
    } else {
        app.current_provider.as_str()
    };
    let mut v: Vec<Span> = Vec::new();
    v.push(span(pill, Look::Pill));
    v.push(span_str(" ", Look::Plain));
    v.push(span_str(app.current_model.as_str(), Look::Text));
    v.push(span_str("@", Look::Subtext));
    v.push(span_str(provider, Look::Text));
    v.push(span_str("  ", Look::Plain));
    v.push(span(status, look));
    v.push(span_str("  ", Look::Plain));
    v.push(span(tokens, Look::Subtext));
    v.push(span_str("  ", Look::Plain));
    v.push(span_str(ctx, Look::Subtext));
    v.push(span_str("  ", Look::Plain));
    v.push(span_str(if app.transcript_mode {
        "trace on"
    } else {
        "trace off"
    }, Look::Subtext));
    v.push(span_str("  ", Look::Plain));
    v.push(span(effort, Look::Subtext));
    let ghost left = status_spans(*app, status_text(*app, elapsed as nat, thinking as nat, thought as nat), ctx@);
    assert(line_view(Line { spans: v }) =~= left);
    let cw = spans_total(&v);
    let hints: &str = if width >= 78 {
        "? help  / commands  Ctrl+N new  Ctrl+C quit "
    } else {
        "? help  Ctrl+C quit "
    };
    let hw = text_columns(hints);
    assert(v.len() == 15);
    assert(15 * (usize::MAX as int) + usize::MAX + 2 < u128::MAX) by (nonlinear_arith);
    if cw + (hw as u128) + 2 < width as u128 {
        let pad = (width as u128 - (cw + hw as u128)) as usize;
        let ghost l0 = line_view(Line { spans: v });
        v.push(span(space_chars(pad), Look::Plain));
        v.push(span_str(hints, Look::Subtext));
        assert(line_view(Line { spans: v }) =~= l0 + seq![(spaces(pad as nat), Look::Plain), (hints@, Look::Subtext)]);
    }
    Line { spans: v }
}

// ---------------------------------------------------------------------------
// The transcript.
// ---------------------------------------------------------------------------

/// A message's rows marked as a search hit: each non-empty row is painted
/// over (as the current hit when `target`), losing the look laid under it.
pub open spec fn marked_rows(ls: Seq<LineView>, mark: Option<bool>) -> Seq<(LineView, Option<bool>)> {
    Seq::new(
        ls.len(),
        |i: int|
            match mark {
                Some(t) => if ls[i].runs.len() == 0 {
                    (ls[i], None)
                } else {
                    (LineView { runs: ls[i].runs, look: MdLook::Plain }, Some(t))
                },
                None => (ls[i], None),
            },
    )
}

/// How a message is marked: a search hit (the current one or another) or
/// not at all.
pub open spec fn message_mark(app: App, idx: nat) -> Option<bool> {
    if app.search.query@.len() > 0 && app.search.matches@.contains(idx as usize) {
        Some(app.search.target_message == Some(idx as usize))
    } else {
        None
    }
}

pub open spec fn transcript_rows(app: App, rendered: Seq<Seq<LineView>>) -> Seq<(LineView, Option<bool>)>
    decreases rendered.len(),
{
    if rendered.len() == 0 {
        seq![]
    } else {
        let k = (rendered.len() - 1) as nat;
        transcript_rows(app, rendered.drop_last()) + marked_rows(rendered.last(), message_mark(app, k))
    }
}

fn contains_index(v: &Vec<usize>, x: usize) -> (r: bool)
    ensures
        r == v@.contains(x),
{
    let mut i: usize = 0;
    while i < v.len()
        invariant
            i <= v.len(),
            forall|k: int| 0 <= k < i ==> v@[k] != x,
        decreases v.len() - i,
    {
        if v[i] == x {
            assert(v@[i as int] == x);
            return true;
        }
        i += 1;
    }
    false
}

/// The transcript's rows: each message's rows (laid out beforehand, one
/// list per message), search hits marked.
pub fn transcript_lines(app: &App, rendered: Vec<Vec<MdLine>>) -> (r: Vec<(MdLine, Option<bool>)>)
    ensures
        r.deep_view() == transcript_rows(*app, rendered.deep_view()),
{
    let ghost rv = rendered.deep_view();
    let n = rendered.len();
    let mut rendered = rendered;
    let mut rev: Vec<Vec<MdLine>> = Vec::new();
    let mut k: usize = 0;
    while k < n
        invariant
            k <= n,
            n == rv.len(),
            rendered@.len() == n - k,
            forall|j: int| 0 <= j < n - k ==> (#[trigger] rendered@[j]).deep_view() == rv[j],
            rev@.len() == k,
            forall|j: int| 0 <= j < k ==> (#[trigger] rev@[j]).deep_view() == rv[n - 1 - j],
        decreases n - k,
    {
        let l = rendered.pop().unwrap();
        rev.push(l);
        k += 1;
    }
    let active = app.search.is_active();
    let mut out: Vec<(MdLine, Option<bool>)> = Vec::new();
    let mut i: usize = 0;
    while i < n
        invariant
            i <= n,
            n == rv.len(),
            active == (app.search.query@.len() > 0),
            rev@.len() == n - i,
            forall|j: int| 0 <= j < n - i ==> (#[trigger] rev@[j]).deep_view() == rv[n - 1 - j],
            out.deep_view() == transcript_rows(*app, rv.take(i as int)),
        decreases n - i,
    {
        assert(rv.take(i + 1).drop_last() =~= rv.take(i as int));
        let lines = rev.pop().unwrap();
        let ghost lv = lines.deep_view();
        assert(lv == rv[i as int]);
        let mark: Option<bool> = if active && contains_index(&app.search.matches, i) {
            Some(app.search.target_message == Some(i))
        } else {
            None
        };
        assert(mark == message_mark(*app, i as nat));
        let ghost o0 = out.deep_view();
        let m = lines.len();
        let mut lines = lines;
        let mut rl: Vec<MdLine> = Vec::new();
        let mut a: usize = 0;
        while a < m
            invariant
                a <= m,
                m == lv.len(),
                lines@.len() == m - a,
                forall|j: int| 0 <= j < m - a ==> (#[trigger] lines@[j]).deep_view() == lv[j],
                rl@.len() == a,
                forall|j: int| 0 <= j < a ==> (#[trigger] rl@[j]).deep_view() == lv[m - 1 - j],
            decreases m - a,
        {
            let l = lines.pop().unwrap();
            rl.push(l);
            a += 1;
        }
        let mut b: usize = 0;
        while b < m
            invariant
                b <= m,
                m == lv.len(),
                rl@.len() == m - b,
                forall|j: int| 0 <= j < m - b ==> (#[trigger] rl@[j]).deep_view() == lv[m - 1 - j],
                out.deep_view() == o0 + marked_rows(lv, mark).take(b as int),
            decreases m - b,
        {
            let l = rl.pop().unwrap();
            assert(l.deep_view() == lv[b as int]);
            let item: (MdLine, Option<bool>) = match mark {
                Some(t) => if l.runs.len() == 0 {
                    (l, None)
                } else {
                    (MdLine { runs: l.runs, look: MdLook::Plain }, Some(t))
                },
                None => (l, None),
            };
            let ghost iv = item.deep_view();
            let ghost p0 = out.deep_view();
            out.push(item);
            assert(out.deep_view() =~= p0.push(iv));
            b += 1;
            assert(out.deep_view() =~= o0 + marked_rows(lv, mark).take(b as int));
        }
        assert(marked_rows(lv, mark).take(b as int) =~= marked_rows(lv, mark));
        i += 1;
    }
    assert(rv.take(i as int) =~= rv);
    out
}

// ---------------------------------------------------------------------------
// The transcript's window.
// ---------------------------------------------------------------------------

pub open spec fn minn(a: nat, b: nat) -> nat {
    if a < b {
        a
    } else {
        b
    }
}

/// The rows of the transcript shown, as `(pinned, start, end, scroll)`:
/// the scroll offset kept within the rows; when scrolled up with a user
/// message above, a row is given to pinning it; the window ends `scroll`
/// rows above the last row.
pub open spec fn window_of(total: nat, height: u16, offset: usize, has_user: bool) -> (bool, nat, nat, nat) {
    let s1 = minn(offset as nat, crate::mdrender::sub0(total, height as nat));
    let pinned = s1 > 0 && has_user;
    let view_h = crate::mdrender::sub0(height as nat, if pinned { 1 } else { 0 });
    let s2 = minn(s1, crate::mdrender::sub0(total, view_h));
    let end = crate::mdrender::sub0(total, s2);
    let start = crate::mdrender::sub0(end, view_h);
    (pinned, start, end, s2)
}

pub fn transcript_window(total: usize, height: u16, offset: usize, has_user: bool) -> (r: (bool, usize, usize, usize))
    ensures
        (r.0, r.1 as nat, r.2 as nat, r.3 as nat) == window_of(total as nat, height, offset, has_user),
{
    let h = height as usize;
    let max1 = if total > h {
        total - h
    } else {
        0
    };
    let s1 = if offset < max1 {
        offset
    } else {
        max1
    };
    let pinned = s1 > 0 && has_user;
    let view_h: usize = if pinned {
        if h > 1 {
            h - 1
        } else {
            0
        }
    } else {
        h
    };
    let max2 = if total > view_h {
        total - view_h
    } else {
        0
    };
    let s2 = if s1 < max2 {
        s1
    } else {
        max2
    };
    let end = total - s2;
    let start = if end > view_h {
        end - view_h
    } else {
        0
    };
    (pinned, start, end, s2)
}

/// The characters of a text that fit in `max` columns, nothing marked.
pub open spec fn fitted(s: Seq<char>, max: nat) -> Seq<char> {
    s.take(crate::layout::fit(s, max, 0).0 as int)
}

/// The pinned row: the first line of the last user message, cut to the
/// width less six columns.
pub open spec fn pin_text(content: Seq<char>, width: u16) -> Seq<char> {
    let first = if text_lines(content).len() > 0 { text_lines(content)[0] } else { seq![] };
    "● "@ + fitted(first, crate::mdrender::sub0(width as nat, 6)) + " ›"@
}

pub fn pin_display(content: &str, width: u16) -> (r: String)
    ensures
        r@ == pin_text(content@, width),
{
    let ls = lines_of(content);
    let first: Vec<char> = if ls.len() > 0 {
        let mut c: Vec<char> = Vec::new();
        extend_chars(&mut c, &ls[0]);
        c
    } else {
        Vec::new()
    };
    assert(first@ == (if text_lines(content@).len() > 0 { text_lines(content@)[0] } else { Seq::<char>::empty() }));
    let room: usize = if width > 6 {
        (width - 6) as usize
    } else {
        0
    };
    let fitted_chars = fit_prefix(&first, room);
    let mut r = chars_of("● ");
    extend_chars(&mut r, &fitted_chars);
    extend_str(&mut r, " ›");
    string_of(&r)
}

fn fit_prefix(s: &Vec<char>, max: usize) -> (r: Vec<char>)
    ensures
        r@ == fitted(s@, max as nat),
{
    let mut out: Vec<char> = Vec::new();
    let mut w: usize = 0;
    let mut i: usize = 0;
    assert(s@.skip(0) =~= s@);
    while i < s.len()
        invariant
            i <= s.len(),
            w <= max,
            out@ == s@.take(i as int),
            crate::layout::fit(s@, max as nat, 0).0 == i + crate::layout::fit(s@.skip(i as int), max as nat, w as nat).0,
        ensures
            out@ == s@.take(i as int),
            crate::layout::fit(s@, max as nat, 0).0 == i,
        decreases s.len() - i,
    {
        let c = s[i];
        let cw = crate::layout::width_of(c);
        assert(s@.skip(i as int)[0] == c);
        assert(s@.skip(i as int).drop_first() =~= s@.skip(i + 1));
        if cw > max - w {
            break;
        }
        out.push(c);
        w = w + cw;
        i += 1;
        assert(out@ =~= s@.take(i as int));
        if i == s.len() {
            assert(s@.skip(i as int) =~= Seq::<char>::empty());
        }
    }
    out
}

/// The note shown when scrolled up: how far, and the search position when
/// searching.
pub open spec fn scroll_note(app: App, scroll: nat) -> Seq<char> {
    let tail = "↑ "@ + decimal(scroll) + " lines above latest  End/click=jump"@;
    if app.search.query@.len() > 0 {
        match app.search.index {
            Some(i) => if app.search.matches@.len() > 0 {
                "find "@ + decimal((i + 1) as nat) + "/"@ + decimal(app.search.matches@.len()) + " · "@ + tail
            } else {
                "find 0 · "@ + tail
            },
            None => "find 0 · "@ + tail,
        }
    } else {
        tail
    }
}

pub fn scroll_marker(app: &App, scroll: usize) -> (r: String)
    requires
        app.search.index matches Some(i) ==> i < usize::MAX,
    ensures
        r@ == scroll_note(*app, scroll as nat),
{
    let mut tail = chars_of("↑ ");
    let d = decimal_chars(scroll as u128);
    extend_chars(&mut tail, &d);
    extend_str(&mut tail, " lines above latest  End/click=jump");
    assert(tail@ =~= "↑ "@ + decimal(scroll as nat) + " lines above latest  End/click=jump"@);
    if app.search.is_active() {
        let count = app.search.matches.len();
        assert(count == app.search.matches@.len());
        let mut r = match app.search.position() {
            Some((cur, total)) => {
                assert(app.search.index is Some && app.search.matches@.len() > 0);
                assert(cur == app.search.index->0 + 1);
                assert(total == app.search.matches@.len());
                let mut r = chars_of("find ");
                let a = decimal_chars(cur as u128);
                extend_chars(&mut r, &a);
                extend_str(&mut r, "/");
                let b = decimal_chars(total as u128);
                extend_chars(&mut r, &b);
                extend_str(&mut r, " · ");
                assert(r@ =~= "find "@ + decimal(cur as nat) + "/"@ + decimal(total as nat) + " · "@);
                r
            },
            None => chars_of("find 0 · "),
        };
        let ghost head = r@;
        assert(head == (match app.search.index {
            Some(i) => if app.search.matches@.len() > 0 {
                "find "@ + decimal((i + 1) as nat) + "/"@ + decimal(app.search.matches@.len()) + " · "@
            } else {
                "find 0 · "@
            },
            None => "find 0 · "@,
        }));
        extend_chars(&mut r, &tail);
        assert(r@ =~= head + tail@);
        assert(r@ =~= scroll_note(*app, scroll as nat));
        string_of(&r)
    } else {
        string_of(&tail)
    }
}

// ---------------------------------------------------------------------------
// The welcome screen.
// ---------------------------------------------------------------------------

/// An area shrunk by a margin on each side.
pub open spec fn inset_of(x: u16, y: u16, w: u16, h: u16, hz: u16, vt: u16) -> (u16, u16, u16, u16) {
    (
        sat16(x + hz),
        sat16(y + vt),
        (crate::mdrender::sub0(w as nat, sat16(hz * 2) as nat)) as u16,
        (crate::mdrender::sub0(h as nat, sat16(vt * 2) as nat)) as u16,
    )
}

pub fn inset(x: u16, y: u16, w: u16, h: u16, hz: u16, vt: u16) -> (r: (u16, u16, u16, u16))
    ensures
        r == inset_of(x, y, w, h, hz, vt),
{
    let h2: u16 = if hz > 32767 {
        u16::MAX
    } else {
        hz * 2
    };
    let v2: u16 = if vt > 32767 {
        u16::MAX
    } else {
        vt * 2
    };
    (x.saturating_add(hz), y.saturating_add(vt), w.saturating_sub(h2), h.saturating_sub(v2))
}

pub open spec fn tips() -> Seq<Seq<char>> {
    seq![
        "Type / to see all available commands."@,
        "Use ! before a command to run it in bash (e.g. !ls)."@,
        "Ctrl+O expands or collapses the latest thinking block."@,
        "Ctrl+E expands collapsed tool outputs."@,
        "Ctrl+Y copies the last assistant response."@,
        "Click and drag to select text — auto-copied."@,
        "Use /effort <level> to control thinking depth."@,
        "Up/Down arrows navigate input history."@,
        "/model <name> switches the LLM for the next turn."@,
        "/permissions switches the runtime sandbox for later turns."@,
        "/plugins lists loaded official and local runtime plugins."@,
    ]
}

/// The tip a clock reading picks: its nanoseconds modulo the number of tips.
pub fn welcome_tip(nanos: u32) -> (r: &'static str)
    ensures
        r@ == tips()[(nanos % 11) as int],
{
    let k = nanos % 11;
    if k == 0 {
        "Type / to see all available commands."
    } else if k == 1 {
        "Use ! before a command to run it in bash (e.g. !ls)."
    } else if k == 2 {
        "Ctrl+O expands or collapses the latest thinking block."
    } else if k == 3 {
        "Ctrl+E expands collapsed tool outputs."
    } else if k == 4 {
        "Ctrl+Y copies the last assistant response."
    } else if k == 5 {
        "Click and drag to select text — auto-copied."
    } else if k == 6 {
        "Use /effort <level> to control thinking depth."
    } else if k == 7 {
        "Up/Down arrows navigate input history."
    } else if k == 8 {
        "/model <name> switches the LLM for the next turn."
    } else if k == 9 {
        "/permissions switches the runtime sandbox for later turns."
    } else {
        "/plugins lists loaded official and local runtime plugins."
    }
}

pub open spec fn banner_rows() -> Seq<Seq<char>> {
    seq![
        "  ██╗      █████╗ ████████╗████████╗██╗ ██████╗███████╗  "@,
        "  ██║     ██╔══██╗╚══██╔══╝╚══██╔══╝██║██╔════╝██╔════╝  "@,
        "  ██║     ███████║   ██║      ██║   ██║██║     █████╗    "@,
        "  ██║     ██╔══██║   ██║      ██║   ██║██║     ██╔══╝    "@,
        "  ███████╗██║  ██║   ██║      ██║   ██║╚██████╗███████╗  "@,
        "  ╚══════╝╚═╝  ╚═╝   ╚═╝      ╚═╝   ╚═╝ ╚═════╝╚══════╝  "@,
    ]
}

pub open spec fn shortcut_rows() -> Seq<(Seq<char>, Seq<char>)> {
    seq![
        ("Enter"@, "send message"@),
        ("? /help"@, "show shortcuts"@),
        ("/commands"@, "slash command menu"@),
        ("Ctrl+N"@, "new session"@),
        ("Ctrl+L"@, "clear transcript"@),
        ("Ctrl+O"@, "thinking"@),
        ("Ctrl+E"@, "expand tool output"@),
        ("Ctrl+Y"@, "copy last response"@),
        ("Ctrl+C"@, "quit"@),
    ]
}

/// The welcome screen: the banner (a one-line title under 40 columns), the
/// model and runtime, the thinking effort if set, a tip, and the main
/// shortcuts.
pub open spec fn welcome_view(app: App, width: u16, tip: Seq<char>) -> Seq<Seq<SpanView>> {
    let banner = if width >= 40 {
        Seq::new(6, |i: int| seq![(banner_rows()[i], Look::Banner)])
    } else {
        seq![seq![("●"@, Look::AccentBold), (" "@, Look::Plain), ("LATTICE"@, Look::TextBold), (" · agent CLI"@, Look::Subtext)]]
    };
    let provider = if app.current_provider@.len() == 0 { "unresolved"@ } else { app.current_provider@ };
    banner + seq![
        seq![],
        seq![("  model  "@ + app.current_model@ + " @ "@ + provider, Look::Subtext)],
        seq![("  runtime  sandbox:"@ + app.sandbox_mode@ + " · plugins:"@ + decimal(app.plugin_count as nat), Look::Subtext)],
    ] + (match app.thinking_effort {
        Some(e) => seq![seq![("  effort  "@ + e@, Look::Subtext)]],
        None => seq![],
    }) + seq![seq![], seq![("  Tip: "@, Look::HighlightBold), (tip, Look::Subtext)], seq![]] + Seq::new(
        9,
        |i: int| seq![("  "@, Look::Plain), (padded(shortcut_rows()[i].0, 14), Look::Highlight), (shortcut_rows()[i].1, Look::Subtext)],
    )
}

fn one_span_line(t: Vec<char>, look: Look) -> (r: Line)
    ensures
        line_view(r) == seq![(t@, look)],
{
    let mut v: Vec<Span> = Vec::new();
    v.push(span(t, look));
    let r = Line { spans: v };
    assert(line_view(r) =~= seq![(t@, look)]);
    r
}

fn empty_line() -> (r: Line)
    ensures
        line_view(r) == Seq::<SpanView>::empty(),
{
    let r = Line { spans: Vec::new() };
    assert(line_view(r) =~= Seq::<SpanView>::empty());
    r
}

fn push_one(out: &mut Vec<Line>, l: Line)
    ensures
        lines_view(final(out)@) == lines_view(old(out)@).push(line_view(l)),
{
    out.push(l);
    assert(lines_view(out@) =~= lines_view(old(out)@).push(line_view(l)));
}

fn shortcut_line(key: &str, desc: &str) -> (r: Line)
    ensures
        line_view(r) == seq![("  "@, Look::Plain), (padded(key@, 14), Look::Highlight), (desc@, Look::Subtext)],
{
    crate::layout::line3(span_str("  ", Look::Plain), span(pad_to(key, 14), Look::Highlight), span_str(desc, Look::Subtext))
}

#[verifier::spinoff_prover]
#[verifier::rlimit(40)]
pub fn welcome_lines(app: &App, width: u16, tip: &str) -> (r: Vec<Line>)
    ensures
        lines_view(r@) == welcome_view(*app, width, tip@),
{
    let mut out: Vec<Line> = Vec::new();
    if width >= 40 {
        push_one(&mut out, one_span_line(chars_of("  ██╗      █████╗ ████████╗████████╗██╗ ██████╗███████╗  "), Look::Banner));
        push_one(&mut out, one_span_line(chars_of("  ██║     ██╔══██╗╚══██╔══╝╚══██╔══╝██║██╔════╝██╔════╝  "), Look::Banner));
        push_one(&mut out, one_span_line(chars_of("  ██║     ███████║   ██║      ██║   ██║██║     █████╗    "), Look::Banner));
        push_one(&mut out, one_span_line(chars_of("  ██║     ██╔══██║   ██║      ██║   ██║██║     ██╔══╝    "), Look::Banner));
        push_one(&mut out, one_span_line(chars_of("  ███████╗██║  ██║   ██║      ██║   ██║╚██████╗███████╗  "), Look::Banner));
        push_one(&mut out, one_span_line(chars_of("  ╚══════╝╚═╝  ╚═╝   ╚═╝      ╚═╝   ╚═╝ ╚═════╝╚══════╝  "), Look::Banner));
    } else {
        let mut v: Vec<Span> = Vec::new();
        v.push(span_str("●", Look::AccentBold));
        v.push(span_str(" ", Look::Plain));
        v.push(span_str("LATTICE", Look::TextBold));
        v.push(span_str(" · agent CLI", Look::Subtext));
        let l = Line { spans: v };
        assert(line_view(l) =~= seq![("●"@, Look::AccentBold), (" "@, Look::Plain), ("LATTICE"@, Look::TextBold), (" · agent CLI"@, Look::Subtext)]);
        push_one(&mut out, l);
    }
    push_one(&mut out, empty_line());
    let mut model = chars_of("  model  ");
    extend_str(&mut model, app.current_model.as_str());
    extend_str(&mut model, " @ ");
    if app.current_provider.as_str().is_empty() {
        extend_str(&mut model, "unresolved");
    } else {
        extend_str(&mut model, app.current_provider.as_str());
    }
    push_one(&mut out, one_span_line(model, Look::Subtext));
    let mut runtime = chars_of("  runtime  sandbox:");
    extend_str(&mut runtime, app.sandbox_mode.as_str());
    extend_str(&mut runtime, " · plugins:");
    let d = decimal_chars(app.plugin_count as u128);
    extend_chars(&mut runtime, &d);
    push_one(&mut out, one_span_line(runtime, Look::Subtext));
    match &app.thinking_effort {
        Some(e) => {
            let mut t = chars_of("  effort  ");
            extend_str(&mut t, e.as_str());
            push_one(&mut out, one_span_line(t, Look::Subtext));
        },
        None => {},
    }
    push_one(&mut out, empty_line());
    push_one(&mut out, line2(span_str("  Tip: ", Look::HighlightBold), span_str(tip, Look::Subtext)));
    push_one(&mut out, empty_line());
    push_one(&mut out, shortcut_line("Enter", "send message"));
    push_one(&mut out, shortcut_line("? /help", "show shortcuts"));
    push_one(&mut out, shortcut_line("/commands", "slash command menu"));
    push_one(&mut out, shortcut_line("Ctrl+N", "new session"));
    push_one(&mut out, shortcut_line("Ctrl+L", "clear transcript"));
    push_one(&mut out, shortcut_line("Ctrl+O", "thinking"));
    push_one(&mut out, shortcut_line("Ctrl+E", "expand tool output"));
    push_one(&mut out, shortcut_line("Ctrl+Y", "copy last response"));
    push_one(&mut out, shortcut_line("Ctrl+C", "quit"));
    assert(lines_view(out@) =~= welcome_view(*app, width, tip@));
    out
}

// ---------------------------------------------------------------------------
// Menus.
// ---------------------------------------------------------------------------

pub open spec fn menu_title_of(k: MenuKind) -> Seq<char> {
    match k {
        MenuKind::Model => " Select Model "@,
        MenuKind::Provider => " Select Provider "@,
        MenuKind::Permissions => " Select Permissions "@,
        MenuKind::Plugin => " Select Plugin "@,
    }
}

pub fn menu_title(k: MenuKind) -> (r: &'static str)
    ensures
        r@ == menu_title_of(k),
{
    match k {
        MenuKind::Model => " Select Model ",
        MenuKind::Provider => " Select Provider ",
        MenuKind::Permissions => " Select Permissions ",
        MenuKind::Plugin => " Select Plugin ",
    }
}

/// A menu's box: as tall as its options and three rows, as wide as 50
/// columns, each within the area less 4, centred.
pub open spec fn menu_rect_of(x: u16, y: u16, w: u16, h: u16, n: nat) -> (u16, u16, u16, u16) {
    let want = sat16((n as int % 65536) + 3);
    let mh = min16(want, crate::mdrender::sub0(h as nat, 4) as u16);
    let mw = min16(50, crate::mdrender::sub0(w as nat, 4) as u16);
    (sat16(x + (w - mw) / 2), sat16(y + (h - mh) / 2), mw, mh)
}

pub fn menu_rect(x: u16, y: u16, w: u16, h: u16, n: usize) -> (r: (u16, u16, u16, u16))
    ensures
        r == menu_rect_of(x, y, w, h, n as nat),
{
    let want = ((n % 65536) as u16).saturating_add(3);
    let hr: u16 = if h > 4 {
        h - 4
    } else {
        0
    };
    let wr: u16 = if w > 4 {
        w - 4
    } else {
        0
    };
    let mh = if want < hr {
        want
    } else {
        hr
    };
    let mw: u16 = if 50 < wr {
        50
    } else {
        wr
    };
    (x.saturating_add((w - mw) / 2), y.saturating_add((h - mh) / 2), mw, mh)
}

/// The first option shown: the chosen one stays on screen.
pub open spec fn menu_start(index: nat, len: nat, visible: nat) -> nat {
    minn(crate::mdrender::sub0(index, crate::mdrender::sub0(visible, 1)), crate::mdrender::sub0(len, visible))
}

pub open spec fn menu_row(opt: Seq<char>, chosen: bool, inner_w: u16) -> Seq<SpanView> {
    if chosen {
        let used = sat16(3 + (text_width(opt) as int % 65536));
        seq![
            (" ▶ "@, Look::HighlightBold),
            (opt, Look::Chosen),
            (spaces(crate::mdrender::sub0(inner_w as nat, used as nat)), Look::ChosenPad),
        ]
    } else {
        seq![("   "@, Look::Plain), (opt, Look::Text)]
    }
}

pub open spec fn strs(v: Seq<String>) -> Seq<Seq<char>> {
    Seq::new(v.len(), |i: int| v[i]@)
}

/// The options a menu shows in `inner_h` rows, the chosen one marked and
/// widened to the menu's width.
pub open spec fn menu_view(options: Seq<Seq<char>>, index: nat, inner_w: u16, inner_h: u16) -> Seq<Seq<SpanView>> {
    let start = menu_start(index, options.len(), inner_h as nat);
    let n = minn(inner_h as nat, crate::mdrender::sub0(options.len(), start));
    Seq::new(n, |i: int| menu_row(options[start + i], start + i == index, inner_w))
}

pub fn menu_lines(menu: &MenuState, inner_w: u16, inner_h: u16) -> (r: Vec<Line>)
    ensures
        lines_view(r@) == menu_view(strs(menu.options@), menu.index as nat, inner_w, inner_h),
{
    let len = menu.options.len();
    let vh = inner_h as usize;
    let a = if menu.index > (if vh > 0 { vh - 1 } else { 0 }) {
        menu.index - (if vh > 0 { vh - 1 } else { 0 })
    } else {
        0
    };
    let b = if len > vh {
        len - vh
    } else {
        0
    };
    let start = if a < b {
        a
    } else {
        b
    };
    let n = if vh < len - start {
        vh
    } else {
        len - start
    };
    let ghost ov = strs(menu.options@);
    let mut out: Vec<Line> = Vec::new();
    let mut i: usize = 0;
    while i < n
        invariant
            i <= n,
            start + n <= len,
            len == menu.options.len(),
            ov == strs(menu.options@),
            start == menu_start(menu.index as nat, len as nat, inner_h as nat),
            n == minn(inner_h as nat, crate::mdrender::sub0(len as nat, start as nat)),
            lines_view(out@) == menu_view(ov, menu.index as nat, inner_w, inner_h).take(i as int),
        decreases n - i,
    {
        let opt = &menu.options[start + i];
        let l = if start + i == menu.index {
            let w = text_columns(opt.as_str());
            let used = 3u16.saturating_add((w % 65536) as u16);
            let pad: usize = if inner_w > used {
                (inner_w - used) as usize
            } else {
                0
            };
            crate::layout::line3(span_str(" ▶ ", Look::HighlightBold), span_str(opt.as_str(), Look::Chosen), span(space_chars(pad), Look::ChosenPad))
        } else {
            line2(span_str("   ", Look::Plain), span_str(opt.as_str(), Look::Text))
        };
        push_one(&mut out, l);
        i += 1;
        assert(lines_view(out@) =~= menu_view(ov, menu.index as nat, inner_w, inner_h).take(i as int));
    }
    assert(menu_view(ov, menu.index as nat, inner_w, inner_h).take(i as int) =~= menu_view(ov, menu.index as nat, inner_w, inner_h));
    out
}

} // verus!
