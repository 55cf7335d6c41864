//! A transcript message as terminal rows: its label and body (markdown for
//! the assistant's replies and tool output), its reasoning, and the full-row
//! background of a user's message.

use crate::agent::Role;
use crate::chat::{count_lines, line_count, ChatMessage};
use crate::layout::{
    labelled_lines, labelled_view, lines_of, lines_view, sat, space_chars, spaces, text_columns,
    text_lines, text_width, tool_lines, tool_view, Line, Look, SpanView,
};
use crate::mdrender::{blank_line, blank_row, push_line, sub0, LineView, MdLine, MdLook, MdRun};
use crate::text::{chars_of, decimal, decimal_chars, extend_chars, extend_str, join, join_chars, string_of, vv};
use vstd::prelude::*;

verus! {

/// A row of the transcript's own styling, as a markdown row.
pub open spec fn ui_row(l: Seq<SpanView>) -> LineView {
    LineView { runs: Seq::new(l.len(), |i: int| (l[i].0, MdLook::Ui(l[i].1))), look: MdLook::Plain }
}

pub open spec fn ui_rows(ls: Seq<Seq<SpanView>>) -> Seq<LineView> {
    Seq::new(ls.len(), |i: int| ui_row(ls[i]))
}

fn ui_line(l: &Line) -> (r: MdLine)
    ensures
        r.deep_view() == ui_row(crate::layout::line_view(*l)),
{
    let ghost lv = crate::layout::line_view(*l);
    let mut runs: Vec<MdRun> = Vec::new();
    let mut i: usize = 0;
    while i < l.spans.len()
        invariant
            i <= l.spans.len(),
            lv == crate::layout::line_view(*l),
            runs.deep_view() == ui_row(lv).runs.take(i as int),
        decreases l.spans.len() - i,
    {
        let ghost r0 = runs.deep_view();
        let t = l.spans[i].text.clone();
        let look = l.spans[i].look;
        runs.push(MdRun { text: t, look: MdLook::Ui(look) });
        assert(runs.deep_view() =~= r0.push((lv[i as int].0, MdLook::Ui(lv[i as int].1))));
        i += 1;
        assert(runs.deep_view() =~= ui_row(lv).runs.take(i as int));
    }
    assert(ui_row(lv).runs.take(i as int) =~= ui_row(lv).runs);
    MdLine { runs, look: MdLook::Plain }
}

fn ui_lines(ls: &Vec<Line>) -> (r: Vec<MdLine>)
    ensures
        r.deep_view() == ui_rows(lines_view(ls@)),
{
    let ghost lv = lines_view(ls@);
    let mut out: Vec<MdLine> = Vec::new();
    let mut i: usize = 0;
    while i < ls.len()
        invariant
            i <= ls.len(),
            lv == lines_view(ls@),
            out.deep_view() == ui_rows(lv).take(i as int),
        decreases ls.len() - i,
    {
        let m = ui_line(&ls[i]);
        push_line(&mut out, m);
        i += 1;
        assert(out.deep_view() =~= ui_rows(lv).take(i as int));
    }
    assert(ui_rows(lv).take(i as int) =~= ui_rows(lv));
    out
}

// ---------------------------------------------------------------------------
// Labels and texts.
// ---------------------------------------------------------------------------

pub open spec fn label_look(r: Role) -> Look {
    match r {
        Role::User => Look::UserLabel,
        Role::Assistant => Look::AssistantLabel,
        Role::System => Look::SystemLabel,
        Role::Tool => Look::ToolLabel,
    }
}

pub open spec fn body_look(r: Role) -> Look {
    match r {
        Role::User => Look::UserBody,
        Role::Assistant => Look::AssistantBody,
        Role::System => Look::SystemBody,
        Role::Tool => Look::Tool,
    }
}

pub fn role_looks(r: Role) -> (looks: (Look, Look))
    ensures
        looks == (label_look(r), body_look(r)),
{
    match r {
        Role::User => (Look::UserLabel, Look::UserBody),
        Role::Assistant => (Look::AssistantLabel, Look::AssistantBody),
        Role::System => (Look::SystemLabel, Look::SystemBody),
        Role::Tool => (Look::ToolLabel, Look::Tool),
    }
}

pub open spec fn dot() -> Seq<char> {
    seq!['●']
}

pub open spec fn thinking_placeholder() -> Seq<char> {
    seq!['T', 'h', 'i', 'n', 'k', 'i', 'n', 'g', '.', '.', '.']
}

/// What a message shows: an assistant's empty reply shows as "Thinking...".
pub open spec fn shown_content(role: Role, content: Seq<char>) -> Seq<char> {
    if role == Role::Assistant && content.len() == 0 {
        thinking_placeholder()
    } else {
        content
    }
}

pub fn display_content(msg: &ChatMessage) -> (r: String)
    ensures
        r@ == shown_content(msg.role, msg.content@),
{
    if msg.role == Role::Assistant && msg.content.as_str().is_empty() {
        proof {
            reveal_strlit("Thinking...");
            assert("Thinking..."@ =~= thinking_placeholder());
        }
        String::from_str("Thinking...")
    } else {
        msg.content.clone()
    }
}

/// The columns before a message's body: the label's and one space.
pub open spec fn label_room() -> nat {
    sat(text_width(dot()) + 1)
}

/// The width markdown is laid out at: the row less the label's room, 20
/// columns at least.
pub open spec fn md_width_of(width: u16) -> u16 {
    let pw = (label_room() as int % 65536) as u16;
    if width > pw && width - pw >= 20 {
        (width - pw) as u16
    } else {
        20
    }
}

fn dot_text() -> (r: Vec<char>)
    ensures
        r@ == dot(),
{
    let mut d: Vec<char> = Vec::new();
    d.push('●');
    d
}

fn label_width() -> (r: usize)
    ensures
        r == label_room(),
{
    let d = dot_text();
    text_columns(string_of(&d).as_str()).saturating_add(1)
}

pub fn md_width(width: u16) -> (r: u16)
    ensures
        r == md_width_of(width),
{
    let pw = label_width();
    let p16 = (pw % 65536) as u16;
    if width > p16 && width - p16 >= 20 {
        width - p16
    } else {
        20
    }
}

pub open spec fn more_lines_text(n: nat) -> Seq<char> {
    seq!['.', '.', '.', ' '] + decimal(n) + " more lines · Ctrl+E to expand"@
}

pub open spec fn expanded_summary(n: nat) -> Seq<char> {
    "thinking expanded · "@ + decimal(n) + " lines · Ctrl+O to collapse"@
}

pub open spec fn collapsed_hint(n: nat) -> Seq<char> {
    "thought for "@ + decimal(n) + " lines · Ctrl+O or /trace to expand"@
}

fn text3(a: &str, n: usize, b: &str) -> (r: Vec<char>)
    ensures
        r@ == a@ + decimal(n as nat) + b@,
{
    let mut r = chars_of(a);
    let d = decimal_chars(n as u128);
    extend_chars(&mut r, &d);
    extend_str(&mut r, b);
    r
}

// ---------------------------------------------------------------------------
// A message's rows.
// ---------------------------------------------------------------------------

/// The first three lines, or all of them when there are fewer.
pub open spec fn first3(ls: Seq<Seq<char>>) -> Seq<Seq<char>> {
    if ls.len() < 3 {
        ls
    } else {
        ls.take(3)
    }
}

pub open spec fn uses_markdown(msg: ChatMessage) -> bool {
    (msg.role == Role::Assistant || msg.role == Role::Tool) && msg.content@.len() > 0
}

/// The body of a message: a tool call's rows; a collapsed tool result's first
/// three lines and a note of the rest; markdown behind the label for the
/// assistant's replies and tool output; else the text wrapped behind the
/// label.
pub open spec fn body_rows(msg: ChatMessage, width: u16, md: Seq<LineView>, elapsed: Seq<char>) -> Seq<LineView> {
    let usable: nat = if width < 1 { 1 } else { width as nat };
    if msg.tool is Some {
        ui_rows(tool_view(msg, width, elapsed))
    } else if msg.role == Role::Tool && msg.collapsed {
        let c = shown_content(msg.role, msg.content@);
        let preview = join(first3(text_lines(c)), seq!['\n']);
        ui_rows(labelled_view(dot(), label_look(msg.role), body_look(msg.role), preview, usable)) + seq![
            LineView {
                runs: seq![
                    (spaces(label_room()), MdLook::Plain),
                    (more_lines_text(sub0(line_count(c), 3)), MdLook::Ui(Look::SubtextItalic)),
                ],
                look: MdLook::Plain,
            },
        ]
    } else if uses_markdown(msg) {
        Seq::new(
            md.len(),
            |i: int|
                LineView {
                    runs: (if i == 0 {
                        seq![(dot(), MdLook::Ui(label_look(msg.role))), (seq![' '], MdLook::Plain)]
                    } else {
                        seq![(spaces(label_room()), MdLook::Plain)]
                    }) + md[i].runs,
                    look: MdLook::Plain,
                },
        )
    } else {
        ui_rows(
            labelled_view(
                dot(),
                label_look(msg.role),
                body_look(msg.role),
                shown_content(msg.role, msg.content@),
                usable,
            ),
        )
    }
}

/// A message's reasoning: in full (after a summary line) when expanded or
/// in transcript mode, else a one-line hint; nothing when there is none.
pub open spec fn reasoning_rows(msg: ChatMessage, transcript_mode: bool, width: u16) -> Seq<LineView> {
    let usable: nat = if width < 1 { 1 } else { width as nat };
    match msg.reasoning {
        Some(r) => if r@.len() == 0 {
            seq![]
        } else if transcript_mode || !msg.reasoning_collapsed {
            ui_rows(labelled_view(seq!['◌'], Look::ThinkingBold, Look::Thinking, expanded_summary(line_count(r@)), usable))
                + ui_rows(labelled_view(seq![' '], Look::ThinkingBold, Look::Thinking, r@, usable))
        } else {
            seq![
                LineView {
                    runs: seq![
                        (seq!['◌', ' '], MdLook::Ui(Look::ThinkingBold)),
                        (collapsed_hint(line_count(r@)), MdLook::Ui(Look::Thinking)),
                    ],
                    look: MdLook::Plain,
                },
            ]
        },
        None => seq![],
    }
}

pub open spec fn row_text(runs: Seq<(Seq<char>, MdLook)>) -> Seq<char>
    decreases runs.len(),
{
    if runs.len() == 0 {
        seq![]
    } else {
        row_text(runs.drop_last()) + runs.last().0
    }
}

/// A user's row padded with background to the full width.
pub open spec fn user_row(row: LineView, width: nat) -> LineView {
    let w = text_width(row_text(row.runs)) as nat;
    LineView {
        runs: if width > w {
            row.runs.push((spaces((width - w) as nat), MdLook::Ui(Look::UserBackground)))
        } else {
            row.runs
        },
        look: MdLook::Plain,
    }
}

/// A message's rows, ending in a blank row; a user's rows are padded to the
/// full width.  `md` is the message's markdown laid out at `md_width_of`,
/// `elapsed` a tool call's duration as shown.
pub open spec fn message_view(
    msg: ChatMessage,
    transcript_mode: bool,
    width: u16,
    md: Seq<LineView>,
    elapsed: Seq<char>,
) -> Seq<LineView> {
    let rows = body_rows(msg, width, md, elapsed) + reasoning_rows(msg, transcript_mode, width) + seq![blank_row()];
    if msg.role == Role::User {
        Seq::new(rows.len(), |i: int| LineView { runs: user_row(rows[i], width as nat).runs, look: MdLook::Plain })
    } else {
        Seq::new(rows.len(), |i: int| LineView { runs: rows[i].runs, look: MdLook::Plain })
    }
}

fn run_of(t: Vec<char>, look: MdLook) -> (r: MdRun)
    ensures
        r.deep_view() == (t@, look),
{
    MdRun { text: string_of(&t), look }
}

fn row_of(a: MdRun, b: MdRun) -> (r: MdLine)
    ensures
        r.deep_view() == (LineView { runs: seq![a.deep_view(), b.deep_view()], look: MdLook::Plain }),
{
    let mut runs: Vec<MdRun> = Vec::new();
    runs.push(a);
    runs.push(b);
    let r = MdLine { runs, look: MdLook::Plain };
    assert(r.runs.deep_view() =~= seq![a.deep_view(), b.deep_view()]);
    r
}

fn append_rows(out: &mut Vec<MdLine>, more: Vec<MdLine>)
    ensures
        final(out).deep_view() == old(out).deep_view() + more.deep_view(),
{
    let mut more = more;
    let ghost m = more.deep_view();
    out.append(&mut more);
    assert(out.deep_view() =~= old(out).deep_view() + m);
}

fn collapsed_tool_rows(msg: &ChatMessage, usable: usize) -> (r: Vec<MdLine>)
    requires
        msg.role == Role::Tool,
    ensures
        r.deep_view() == ({
            let c = shown_content(msg.role, msg.content@);
            let preview = join(first3(text_lines(c)), seq!['\n']);
            ui_rows(labelled_view(dot(), label_look(msg.role), body_look(msg.role), preview, usable as nat))
                + seq![
                LineView {
                    runs: seq![
                        (spaces(label_room()), MdLook::Plain),
                        (more_lines_text(sub0(line_count(c), 3)), MdLook::Ui(Look::SubtextItalic)),
                    ],
                    look: MdLook::Plain,
                },
            ]
        }),
{
    let (ll, bl) = role_looks(msg.role);
    let content = display_content(msg);
    let total = count_lines(content.as_str());
    let ls = lines_of(content.as_str());
    let mut first: Vec<Vec<char>> = Vec::new();
    let mut i: usize = 0;
    while i < ls.len() && i < 3
        invariant
            i <= ls.len(),
            i <= 3,
            vv(first@) == vv(ls@).take(i as int),
        decreases ls.len() - i,
    {
        let mut c: Vec<char> = Vec::new();
        extend_chars(&mut c, &ls[i]);
        let ghost f0 = vv(first@);
        first.push(c);
        assert(vv(first@) =~= f0.push(vv(ls@)[i as int]));
        i += 1;
        assert(vv(first@) =~= vv(ls@).take(i as int));
    }
    assert(vv(first@) =~= first3(vv(ls@)));
    let mut nl: Vec<char> = Vec::new();
    nl.push('\n');
    let preview = join_chars(&first, &nl);
    let d = dot_text();
    let labelled = labelled_lines(string_of(&d).as_str(), ll, bl, string_of(&preview).as_str(), usable);
    let mut out = ui_lines(&labelled);
    let rest: usize = if total > 3 {
        total - 3
    } else {
        0
    };
    let note = text3("... ", rest, " more lines · Ctrl+E to expand");
    proof {
        reveal_strlit("... ");
        assert("... "@ =~= seq!['.', '.', '.', ' ']);
    }
    let pad = space_chars(label_width());
    push_line(&mut out, row_of(run_of(pad, MdLook::Plain), run_of(note, MdLook::Ui(Look::SubtextItalic))));
    out
}

fn markdown_rows(msg: &ChatMessage, md: Vec<MdLine>) -> (r: Vec<MdLine>)
    ensures
        r.deep_view() == Seq::new(
            md.deep_view().len(),
            |i: int|
                LineView {
                    runs: (if i == 0 {
                        seq![(dot(), MdLook::Ui(label_look(msg.role))), (seq![' '], MdLook::Plain)]
                    } else {
                        seq![(spaces(label_room()), MdLook::Plain)]
                    }) + md.deep_view()[i].runs,
                    look: MdLook::Plain,
                },
        ),
{
    let ghost mv = md.deep_view();
    let (ll, _bl) = role_looks(msg.role);
    let pw = label_width();
    let mut out: Vec<MdLine> = Vec::new();
    let mut md = md;
    let mut rev: Vec<MdLine> = Vec::new();
    // Take the rows out in order: reverse first, then pop.
    let n = md.len();
    let mut k: usize = 0;
    while k < n
        invariant
            k <= n,
            n == mv.len(),
            md@.len() == n - k,
            forall|j: int| 0 <= j < n - k ==> (#[trigger] md@[j]).deep_view() == mv[j],
            rev@.len() == k,
            forall|j: int| 0 <= j < k ==> (#[trigger] rev@[j]).deep_view() == mv[n - 1 - j],
        decreases n - k,
    {
        let l = md.pop().unwrap();
        rev.push(l);
        k += 1;
    }
    let mut i: usize = 0;
    while i < n
        invariant
            i <= n,
            n == mv.len(),
            rev@.len() == n - i,
            forall|j: int| 0 <= j < n - i ==> (#[trigger] rev@[j]).deep_view() == mv[n - 1 - j],
            pw == label_room(),
            out.deep_view() == Seq::new(
                i as nat,
                |j: int|
                    LineView {
                        runs: (if j == 0 {
                            seq![(dot(), MdLook::Ui(label_look(msg.role))), (seq![' '], MdLook::Plain)]
                        } else {
                            seq![(spaces(label_room()), MdLook::Plain)]
                        }) + mv[j].runs,
                        look: MdLook::Plain,
                    },
            ),
            ll == label_look(msg.role),
        decreases n - i,
    {
        let l = rev.pop().unwrap();
        assert(l.deep_view() == mv[i as int]);
        let mut runs: Vec<MdRun> = Vec::new();
        if i == 0 {
            runs.push(run_of(dot_text(), MdLook::Ui(ll)));
            let mut sp: Vec<char> = Vec::new();
            sp.push(' ');
            runs.push(run_of(sp, MdLook::Plain));
        } else {
            runs.push(run_of(space_chars(pw), MdLook::Plain));
        }
        let ghost head = runs.deep_view();
        assert(head =~= if i == 0 {
            seq![(dot(), MdLook::Ui(label_look(msg.role))), (seq![' '], MdLook::Plain)]
        } else {
            seq![(spaces(label_room()), MdLook::Plain)]
        });
        let mut rest = l.runs;
        let ghost rv = rest.deep_view();
        runs.append(&mut rest);
        assert(runs.deep_view() =~= head + rv);
        let ghost o0 = out.deep_view();
        let row = MdLine { runs, look: MdLook::Plain };
        let ghost rowv = row.deep_view();
        push_line(&mut out, row);
        assert(out.deep_view() =~= o0.push(rowv));
        i += 1;
        assert(out.deep_view() =~= Seq::new(
            i as nat,
            |j: int|
                LineView {
                    runs: (if j == 0 {
                        seq![(dot(), MdLook::Ui(label_look(msg.role))), (seq![' '], MdLook::Plain)]
                    } else {
                        seq![(spaces(label_room()), MdLook::Plain)]
                    }) + mv[j].runs,
                    look: MdLook::Plain,
                },
        ));
    }
    out
}

fn reasoning_lines(msg: &ChatMessage, transcript_mode: bool, width: u16) -> (r: Vec<MdLine>)
    ensures
        r.deep_view() == reasoning_rows(*msg, transcript_mode, width),
{
    let usable: usize = if width < 1 {
        1
    } else {
        width as usize
    };
    let mut out: Vec<MdLine> = Vec::new();
    match &msg.reasoning {
        None => {},
        Some(r) => {
            if r.as_str().is_empty() {
                assert(out.deep_view() =~= Seq::<LineView>::empty());
                return out;
            }
            let n = count_lines(r.as_str());
            if transcript_mode || !msg.reasoning_collapsed {
                let summary = text3("thinking expanded · ", n, " lines · Ctrl+O to collapse");
                let a = labelled_lines("◌", Look::ThinkingBold, Look::Thinking, string_of(&summary).as_str(), usable);
                let b = labelled_lines(" ", Look::ThinkingBold, Look::Thinking, r.as_str(), usable);
                proof {
                    reveal_strlit("◌");
                    reveal_strlit(" ");
                    assert("◌"@ =~= seq!['◌']);
                    assert(" "@ =~= seq![' ']);
                }
                out = ui_lines(&a);
                append_rows(&mut out, ui_lines(&b));
            } else {
                let hint = text3("thought for ", n, " lines · Ctrl+O or /trace to expand");
                let mut mark: Vec<char> = Vec::new();
                mark.push('◌');
                mark.push(' ');
                assert(mark@ =~= seq!['◌', ' ']);
                push_line(
                    &mut out,
                    row_of(run_of(mark, MdLook::Ui(Look::ThinkingBold)), run_of(hint, MdLook::Ui(Look::Thinking))),
                );
                assert(out.deep_view() =~= reasoning_rows(*msg, transcript_mode, width));
            }
        },
    }
    out
}

fn row_width(runs: &Vec<MdRun>) -> (r: usize)
    ensures
        r == text_width(row_text(runs.deep_view())),
{
    let ghost rv = runs.deep_view();
    let mut all: Vec<char> = Vec::new();
    let mut i: usize = 0;
    while i < runs.len()
        invariant
            i <= runs.len(),
            rv == runs.deep_view(),
            all@ == row_text(rv.take(i as int)),
        decreases runs.len() - i,
    {
        assert(rv.take(i + 1).drop_last() =~= rv.take(i as int));
        extend_str(&mut all, runs[i].text.as_str());
        i += 1;
    }
    assert(rv.take(i as int) =~= rv);
    text_columns(string_of(&all).as_str())
}

/// A transcript message as terminal rows (see `message_view`).  `md` is the
/// message's markdown laid out at `md_width(width)`; it is read only for the
/// assistant's replies and tool output.
pub fn message_lines(
    msg: &ChatMessage,
    transcript_mode: bool,
    width: u16,
    md: Vec<MdLine>,
    elapsed: &str,
) -> (r: Vec<MdLine>)
    ensures
        r.deep_view() == message_view(*msg, transcript_mode, width, md.deep_view(), elapsed@),
{
    let usable: usize = if width < 1 {
        1
    } else {
        width as usize
    };
    let ghost mv = md.deep_view();
    let mut rows: Vec<MdLine>;
    if msg.tool.is_some() {
        rows = ui_lines(&tool_lines(msg, width, elapsed));
    } else if msg.role == Role::Tool && msg.collapsed {
        rows = collapsed_tool_rows(msg, usable);
    } else if (msg.role == Role::Assistant || msg.role == Role::Tool) && !msg.content.as_str().is_empty() {
        rows = markdown_rows(msg, md);
    } else {
        let (ll, bl) = role_looks(msg.role);
        let content = display_content(msg);
        let d = dot_text();
        rows = ui_lines(&labelled_lines(string_of(&d).as_str(), ll, bl, content.as_str(), usable));
    }
    assert(rows.deep_view() == body_rows(*msg, width, mv, elapsed@));
    append_rows(&mut rows, reasoning_lines(msg, transcript_mode, width));
    push_line(&mut rows, blank_line());
    let ghost all = rows.deep_view();
    let user = msg.role == Role::User;
    let mut out: Vec<MdLine> = Vec::new();
    let n = rows.len();
    let mut rev: Vec<MdLine> = Vec::new();
    let mut k: usize = 0;
    while k < n
        invariant
            k <= n,
            n == all.len(),
            rows@.len() == n - k,
            forall|j: int| 0 <= j < n - k ==> (#[trigger] rows@[j]).deep_view() == all[j],
            rev@.len() == k,
            forall|j: int| 0 <= j < k ==> (#[trigger] rev@[j]).deep_view() == all[n - 1 - j],
        decreases n - k,
    {
        let l = rows.pop().unwrap();
        rev.push(l);
        k += 1;
    }
    let mut i: usize = 0;
    while i < n
        invariant
            i <= n,
            n == all.len(),
            user == (msg.role == Role::User),
            rev@.len() == n - i,
            forall|j: int| 0 <= j < n - i ==> (#[trigger] rev@[j]).deep_view() == all[n - 1 - j],
            out.deep_view() == Seq::new(
                i as nat,
                |j: int|
                    LineView {
                        runs: if user {
                            user_row(all[j], width as nat).runs
                        } else {
                            all[j].runs
                        },
                        look: MdLook::Plain,
                    },
            ),
        decreases n - i,
    {
        let l = rev.pop().unwrap();
        assert(l.deep_view() == all[i as int]);
        let mut runs = l.runs;
        if user {
            let w = row_width(&runs);
            if (width as usize) > w {
                let pad = space_chars(width as usize - w);
                let ghost r0 = runs.deep_view();
                runs.push(run_of(pad, MdLook::Ui(Look::UserBackground)));
                assert(runs.deep_view() =~= r0.push((spaces((width - w) as nat), MdLook::Ui(Look::UserBackground))));
            }
        }
        let row = MdLine { runs, look: MdLook::Plain };
        let ghost rowv = row.deep_view();
        let ghost o0 = out.deep_view();
        push_line(&mut out, row);
        assert(out.deep_view() =~= o0.push(rowv));
        i += 1;
        assert(out.deep_view() =~= Seq::new(
            i as nat,
            |j: int|
                LineView {
                    runs: if user {
                        user_row(all[j], width as nat).runs
                    } else {
                        all[j].runs
                    },
                    look: MdLook::Plain,
                },
        ));
    }
    assert(all =~= body_rows(*msg, width, mv, elapsed@) + reasoning_rows(*msg, transcript_mode, width) + seq![blank_row()]);
    out
}

} // verus!
