//! Laying out transcript text for the terminal: display widths, wrapping
//! and truncation, and styled lines made of spans.

use crate::chat::{ChatMessage, ToolDisplay, ToolStatus};
use crate::session::opt_view;
use crate::text::{chars_of, extend_chars, extend_str, split_char, split_on, starts_with_str, string_of, vv};
use unicode_width::{UnicodeWidthChar, UnicodeWidthStr};
use vstd::prelude::*;

verus! {

// ---------------------------------------------------------------------------
// Display widths.
// ---------------------------------------------------------------------------

/// The columns a character takes on the terminal; none for a control
/// character.
pub uninterp spec fn char_width(c: char) -> Option<usize>;

/// unicode-width `UnicodeWidthChar::width`: the character's width in
/// columns, `None` for a control character.
#[verifier::external_body]
pub(crate) fn char_columns(c: char) -> (r: Option<usize>)
    ensures
        r == char_width(c),
{
    UnicodeWidthChar::width(c)
}

/// The columns a string takes on the terminal.
pub uninterp spec fn text_width(s: Seq<char>) -> usize;

/// unicode-width `UnicodeWidthStr::width`: the string's width in columns.
#[verifier::external_body]
pub(crate) fn text_columns(s: &str) -> (r: usize)
    ensures
        r == text_width(s@),
{
    UnicodeWidthStr::width(s)
}

/// A character's width, control characters counting as none.
pub open spec fn width0(c: char) -> nat {
    match char_width(c) {
        Some(w) => w as nat,
        None => 0,
    }
}

pub open spec fn sat(n: int) -> nat {
    if n > usize::MAX {
        usize::MAX as nat
    } else if n < 0 {
        0
    } else {
        n as nat
    }
}

/// `a.saturating_sub(b).max(1)`.
pub open spec fn room(a: nat, b: nat) -> nat {
    if a > b + 1 {
        (a - b) as nat
    } else {
        1
    }
}

// ---------------------------------------------------------------------------
// Wrapping and truncation.
// ---------------------------------------------------------------------------

/// Wrapping a line character by character: the chunks closed so far, the
/// chunk being filled and its width.
pub open spec fn wrap_state(s: Seq<char>, max: nat) -> (Seq<Seq<char>>, Seq<char>, nat)
    decreases s.len(),
{
    if s.len() == 0 {
        (seq![], seq![], 0)
    } else {
        let (done, cur, w) = wrap_state(s.drop_last(), max);
        let c = s.last();
        if w > 0 && sat(w + width0(c) as int) > max {
            (done.push(cur), seq![c], sat(width0(c) as int))
        } else {
            (done, cur.push(c), sat(w + width0(c) as int))
        }
    }
}

/// A line cut into chunks of at most `max` columns: a chunk closes before
/// the character that would overflow it (a chunk holds at least one
/// character, however wide); an empty line is one empty chunk.
pub open spec fn wrapped(s: Seq<char>, max: nat) -> Seq<Seq<char>> {
    if s.len() == 0 {
        seq![seq![]]
    } else {
        let (done, cur, _) = wrap_state(s, max);
        if cur.len() > 0 {
            done.push(cur)
        } else {
            done
        }
    }
}

proof fn lemma_wrap_state_cur(s: Seq<char>, max: nat)
    ensures
        s.len() > 0 ==> wrap_state(s, max).1.len() > 0,
        wrap_state(s, max).2 <= usize::MAX,
    decreases s.len(),
{
    if s.len() > 0 {
        lemma_wrap_state_cur(s.drop_last(), max);
    }
}

pub(crate) fn width_of(c: char) -> (r: usize)
    ensures
        r == width0(c),
{
    match char_columns(c) {
        Some(w) => w,
        None => 0,
    }
}

/// Cuts a line into chunks that fit `max_width` columns.
pub fn wrap_line(line: &str, max_width: usize) -> (r: Vec<Vec<char>>)
    ensures
        vv(r@) == wrapped(line@, max_width as nat),
{
    let s = chars_of(line);
    let mut out: Vec<Vec<char>> = Vec::new();
    if s.len() == 0 {
        out.push(Vec::new());
        assert(vv(out@) =~= wrapped(line@, max_width as nat));
        return out;
    }
    let mut cur: Vec<char> = Vec::new();
    let mut w: usize = 0;
    for i in 0..s.len()
        invariant
            s@ == line@,
            ({
                let st = wrap_state(s@.take(i as int), max_width as nat);
                vv(out@) == st.0 && cur@ == st.1 && w == st.2
            }),
    {
        let ghost t = s@.take(i + 1);
        assert(t.drop_last() =~= s@.take(i as int));
        assert(t.last() == s@[i as int]);
        let c = s[i];
        let cw = width_of(c);
        if w > 0 && w.saturating_add(cw) > max_width {
            let done = cur;
            out.push(done);
            cur = Vec::new();
            cur.push(c);
            w = 0usize.saturating_add(cw);
        } else {
            cur.push(c);
            w = w.saturating_add(cw);
        }
        proof {
            let st = wrap_state(t, max_width as nat);
            assert(vv(out@) =~= st.0);
            assert(cur@ =~= st.1);
        }
    }
    assert(s@.take(s.len() as int) =~= s@);
    if cur.len() > 0 {
        out.push(cur);
    }
    assert(vv(out@) =~= wrapped(line@, max_width as nat));
    out
}

/// How many leading characters fit in `max` columns after `used` columns;
/// and whether a character was left out for lack of room.
pub open spec fn fit(s: Seq<char>, max: nat, used: nat) -> (nat, bool)
    decreases s.len(),
{
    if s.len() == 0 {
        (0, false)
    } else if used + width0(s[0]) > max {
        (0, true)
    } else {
        let (k, over) = fit(s.drop_first(), max, used + width0(s[0]));
        (k + 1, over)
    }
}

/// A text cut to `max` columns; when something was cut, an ellipsis takes
/// the place of the rest (unless only one column is allowed).
pub open spec fn truncated(s: Seq<char>, max: nat) -> Seq<char> {
    if max == 0 {
        seq![]
    } else {
        let (k, over) = fit(s, max, 0);
        s.take(k as int) + if over && max > 1 {
            seq!['…']
        } else {
            seq![]
        }
    }
}

/// Cuts a text to `max_width` columns, marking a cut with `…`.
pub fn truncate_to_width(text: &str, max_width: usize) -> (r: String)
    ensures
        r@ == truncated(text@, max_width as nat),
{
    if max_width == 0 {
        return String::new();
    }
    let s = chars_of(text);
    let mut out: Vec<char> = Vec::new();
    let mut w: usize = 0;
    let mut i: usize = 0;
    assert(s@.skip(0) =~= s@);
    while i < s.len()
        invariant
            s@ == text@,
            max_width > 0,
            i <= s.len(),
            w <= max_width,
            out@ == s@.take(i as int),
            fit(text@, max_width as nat, 0) == ({
                let f = fit(s@.skip(i as int), max_width as nat, w as nat);
                ((i + f.0) as nat, f.1)
            }),
        decreases s.len() - i,
    {
        let c = s[i];
        let cw = width_of(c);
        assert(s@.skip(i as int)[0] == c);
        assert(s@.skip(i as int).drop_first() =~= s@.skip(i + 1));
        if cw > max_width - w {
            assert(fit(s@.skip(i as int), max_width as nat, w as nat) == (0nat, true));
            let ghost kept = out@;
            if max_width > 1 {
                out.push('…');
            }
            assert(out@ =~= kept + if max_width > 1 {
                seq!['…']
            } else {
                Seq::<char>::empty()
            });
            assert(fit(text@, max_width as nat, 0) == (i as nat, true));
            return string_of(&out);
        }
        out.push(c);
        w = w + cw;
        i += 1;
        assert(out@ =~= s@.take(i as int));
    }
    assert(s@.take(s.len() as int) =~= s@);
    assert(s@.skip(s.len() as int) =~= Seq::<char>::empty());
    assert(out@ + Seq::<char>::empty() =~= out@);
    string_of(&out)
}

// ---------------------------------------------------------------------------
// Styled lines.
// ---------------------------------------------------------------------------

/// The role a piece of text plays, which the UI paints in its theme's
/// colours.
#[derive(Clone, Copy, Debug, PartialEq, Eq, Structural)]
pub enum Look {
    Plain,
    Subtext,
    SubtextBold,
    SubtextItalic,
    Success,
    Error,
    ErrorBold,
    Text,
    TextBold,
    Border,
    Highlight,
    Tool,
    Thinking,
    ThinkingBold,
    UserLabel,
    UserBody,
    AssistantLabel,
    AssistantBody,
    SystemLabel,
    SystemBody,
    ToolLabel,
    /// The background that widens a user's message to the full row.
    UserBackground,
    /// The mode pill of the status line.
    Pill,
    /// The prompt marker before typed text.
    Accent,
    HighlightBold,
    /// A selected entry of a list, and its description.
    Selected,
    SelectedBody,
    /// The welcome banner, and the accent dot of its narrow form.
    Banner,
    AccentBold,
    /// The chosen entry of a menu, and the bar that widens it.
    Chosen,
    ChosenPad,
}

/// A run of text in one look.
#[derive(Debug)]
pub struct Span {
    pub text: String,
    pub look: Look,
}

/// A terminal row.
#[derive(Debug)]
pub struct Line {
    pub spans: Vec<Span>,
}

pub type SpanView = (Seq<char>, Look);

pub open spec fn span_view(s: Span) -> SpanView {
    (s.text@, s.look)
}

pub open spec fn line_view(l: Line) -> Seq<SpanView> {
    Seq::new(l.spans@.len(), |i: int| span_view(l.spans@[i]))
}

pub open spec fn lines_view(v: Seq<Line>) -> Seq<Seq<SpanView>> {
    Seq::new(v.len(), |i: int| line_view(v[i]))
}

pub(crate) fn span(text: Vec<char>, look: Look) -> (r: Span)
    ensures
        span_view(r) == (text@, look),
{
    Span { text: string_of(&text), look }
}

pub(crate) fn span_str(text: &str, look: Look) -> (r: Span)
    ensures
        span_view(r) == (text@, look),
{
    Span { text: text.to_owned(), look }
}

pub(crate) fn line2(a: Span, b: Span) -> (r: Line)
    ensures
        line_view(r) == seq![span_view(a), span_view(b)],
{
    let mut v: Vec<Span> = Vec::new();
    v.push(a);
    v.push(b);
    let r = Line { spans: v };
    assert(line_view(r) =~= seq![span_view(a), span_view(b)]);
    r
}

pub(crate) fn line3(a: Span, b: Span, c: Span) -> (r: Line)
    ensures
        line_view(r) == seq![span_view(a), span_view(b), span_view(c)],
{
    let mut v: Vec<Span> = Vec::new();
    v.push(a);
    v.push(b);
    v.push(c);
    let r = Line { spans: v };
    assert(line_view(r) =~= seq![span_view(a), span_view(b), span_view(c)]);
    r
}

pub(crate) fn push_lines(out: &mut Vec<Line>, more: Vec<Line>)
    ensures
        lines_view(final(out)@) == lines_view(old(out)@) + lines_view(more@),
{
    let mut more = more;
    let ghost a = lines_view(out@);
    let ghost b = lines_view(more@);
    out.append(&mut more);
    assert(lines_view(out@) =~= a + b);
}

pub open spec fn spaces(n: nat) -> Seq<char> {
    Seq::new(n, |i: int| ' ')
}

pub(crate) fn space_chars(n: usize) -> (r: Vec<char>)
    ensures
        r@ == spaces(n as nat),
{
    let mut v: Vec<char> = Vec::new();
    for i in 0..n
        invariant
            v@ == spaces(i as nat),
    {
        v.push(' ');
        assert(v@ =~= spaces((i + 1) as nat));
    }
    v
}

/// The logical lines of a text for layout: split at `\n`, an empty text
/// counting as one blank.
pub open spec fn layout_lines(content: Seq<char>) -> Seq<Seq<char>> {
    if content.len() == 0 {
        seq![seq![' ']]
    } else {
        split_on(content, '\n')
    }
}

pub fn normalized_lines(content: &str) -> (r: Vec<Vec<char>>)
    ensures
        vv(r@) == layout_lines(content@),
{
    let c = chars_of(content);
    if c.len() == 0 {
        let mut v: Vec<Vec<char>> = Vec::new();
        let mut b: Vec<char> = Vec::new();
        b.push(' ');
        v.push(b);
        assert(vv(v@) =~= layout_lines(content@));
        v
    } else {
        split_char(&c, '\n')
    }
}

/// The chunks of every line, in order.
pub open spec fn all_chunks(lines: Seq<Seq<char>>, width: nat) -> Seq<Seq<char>>
    decreases lines.len(),
{
    if lines.len() == 0 {
        seq![]
    } else {
        all_chunks(lines.drop_last(), width) + wrapped(lines.last(), width)
    }
}

/// Rows for chunks of text: the first after `first`, the others after an
/// indent.
pub open spec fn prefixed_rows(
    first: Seq<SpanView>,
    indent: Seq<char>,
    chunks: Seq<Seq<char>>,
    body: Look,
) -> Seq<Seq<SpanView>> {
    Seq::new(
        chunks.len(),
        |k: int|
            if k == 0 {
                first.push((chunks[0], body))
            } else {
                seq![(indent, Look::Plain), (chunks[k], body)]
            },
    )
}

fn chunks_of_lines(lines: &Vec<Vec<char>>, width: usize) -> (r: Vec<Vec<char>>)
    ensures
        vv(r@) == all_chunks(vv(lines@), width as nat),
{
    let mut out: Vec<Vec<char>> = Vec::new();
    for i in 0..lines.len()
        invariant
            vv(out@) == all_chunks(vv(lines@).take(i as int), width as nat),
    {
        assert(vv(lines@).take(i + 1).drop_last() =~= vv(lines@).take(i as int));
        let l = string_of(&lines[i]);
        let cs = wrap_line(l.as_str(), width);
        let ghost before = vv(out@);
        let mut cs = cs;
        let ghost cv = vv(cs@);
        out.append(&mut cs);
        assert(vv(out@) =~= before + cv);
    }
    assert(vv(lines@).take(lines.len() as int) =~= vv(lines@));
    out
}

fn rows_from_chunks(first: Vec<Span>, indent: &Vec<char>, chunks: &Vec<Vec<char>>, body: Look) -> (r: Vec<Line>)
    ensures
        lines_view(r@) == prefixed_rows(
            Seq::new(first@.len(), |i: int| span_view(first@[i])),
            indent@,
            vv(chunks@),
            body,
        ),
{
    let ghost fv = Seq::new(first@.len(), |i: int| span_view(first@[i]));
    let mut first = first;
    let mut out: Vec<Line> = Vec::new();
    for k in 0..chunks.len()
        invariant
            out@.len() == k,
            k == 0 ==> Seq::new(first@.len(), |i: int| span_view(first@[i])) == fv,
            forall|j: int|
                0 <= j < k ==> #[trigger] line_view(out@[j]) == prefixed_rows(fv, indent@, vv(chunks@), body)[j],
    {
        let ghost before = out@;
        if k == 0 {
            let mut spans: Vec<Span> = Vec::new();
            std::mem::swap(&mut spans, &mut first);
            spans.push(span(crate::text::slice_chars(&chunks[0], 0, chunks[0].len()), body));
            let l = Line { spans };
            assert(chunks@[0]@.subrange(0, chunks@[0]@.len() as int) =~= chunks@[0]@);
            assert(line_view(l) =~= fv.push((vv(chunks@)[0], body)));
            out.push(l);
        } else {
            let l = line2(
                span(crate::text::slice_chars(indent, 0, indent.len()), Look::Plain),
                span(crate::text::slice_chars(&chunks[k], 0, chunks[k].len()), body),
            );
            assert(indent@.subrange(0, indent@.len() as int) =~= indent@);
            assert(chunks@[k as int]@.subrange(0, chunks@[k as int]@.len() as int) =~= chunks@[k as int]@);
            out.push(l);
        }
        proof {
            assert forall|j: int| 0 <= j < k + 1 implies #[trigger] line_view(out@[j])
                == prefixed_rows(fv, indent@, vv(chunks@), body)[j] by {
                if j < k {
                    assert(out@[j] == before[j]);
                }
            }
        }
    }
    assert(lines_view(out@) =~= prefixed_rows(fv, indent@, vv(chunks@), body));
    out
}

/// A message's rows: the first after its label and a space, the others
/// indented under it; an empty text gives the label alone.
pub open spec fn labelled_view(label: Seq<char>, label_look: Look, body_look: Look, content: Seq<char>, width: nat) -> Seq<
    Seq<SpanView>,
> {
    let pw = sat(text_width(label) + 1);
    let cs = all_chunks(layout_lines(content), room(width, pw));
    if cs.len() == 0 {
        seq![seq![(label, label_look), (" "@, Look::Plain)]]
    } else {
        prefixed_rows(seq![(label, label_look), (" "@, Look::Plain)], spaces(pw), cs, body_look)
    }
}

fn room_of(a: usize, b: usize) -> (r: usize)
    ensures
        r == room(a as nat, b as nat),
{
    let d = a.saturating_sub(b);
    if d > 1 {
        d
    } else {
        1
    }
}

pub fn labelled_lines(label: &str, label_look: Look, body_look: Look, content: &str, usable_width: usize) -> (r:
    Vec<Line>)
    ensures
        lines_view(r@) == labelled_view(label@, label_look, body_look, content@, usable_width as nat),
{
    let pw = text_columns(label).saturating_add(1);
    let bw = room_of(usable_width, pw);
    let indent = space_chars(pw);
    let lines = normalized_lines(content);
    let chunks = chunks_of_lines(&lines, bw);
    if chunks.len() == 0 {
        let mut out: Vec<Line> = Vec::new();
        out.push(line2(span_str(label, label_look), span_str(" ", Look::Plain)));
        assert(lines_view(out@) =~= labelled_view(label@, label_look, body_look, content@, usable_width as nat));
        return out;
    }
    let mut first: Vec<Span> = Vec::new();
    first.push(span_str(label, label_look));
    first.push(span_str(" ", Look::Plain));
    assert(Seq::new(first@.len(), |i: int| span_view(first@[i])) =~= seq![(label@, label_look), (" "@, Look::Plain)]);
    rows_from_chunks(first, &indent, &chunks, body_look)
}

// ---------------------------------------------------------------------------
// Tool output rows.
// ---------------------------------------------------------------------------

/// The prefix of a tool's response rows.
pub open spec fn response_prefix() -> Seq<char> {
    "  ⎿  "@
}

/// One response row: the prefix, then the text cut to the room left.
pub open spec fn response_line_view(text: Seq<char>, look: Look, width: nat) -> Seq<SpanView> {
    seq![
        (response_prefix(), Look::Subtext),
        (truncated(text, room(width, text_width(response_prefix()) as nat)), look),
    ]
}

pub fn tool_response_line(text: &str, look: Look, usable_width: usize) -> (r: Line)
    ensures
        line_view(r) == response_line_view(text@, look, usable_width as nat),
{
    let prefix = "  ⎿  ";
    let bw = room_of(usable_width, text_columns(prefix));
    let body = truncate_to_width(text, bw);
    proof {
        reveal_strlit("  ⎿  ");
    }
    line2(span_str(prefix, Look::Subtext), Span { text: body, look })
}

/// A tool's response: its lines wrapped to the room after the prefix, the
/// first after the prefix, the others indented.
pub open spec fn response_lines_view(content: Seq<char>, look: Look, width: nat) -> Seq<Seq<SpanView>> {
    let pw = text_width(response_prefix()) as nat;
    prefixed_rows(
        seq![(response_prefix(), Look::Subtext)],
        spaces(pw),
        all_chunks(layout_lines(content), room(width, pw)),
        look,
    )
}

pub fn tool_response_lines(content: &str, look: Look, usable_width: usize) -> (r: Vec<Line>)
    ensures
        lines_view(r@) == response_lines_view(content@, look, usable_width as nat),
{
    let prefix = "  ⎿  ";
    let pw = text_columns(prefix);
    let bw = room_of(usable_width, pw);
    let indent = space_chars(pw);
    let lines = normalized_lines(content);
    let chunks = chunks_of_lines(&lines, bw);
    let mut first: Vec<Span> = Vec::new();
    first.push(span_str(prefix, Look::Subtext));
    proof {
        reveal_strlit("  ⎿  ");
    }
    assert(Seq::new(first@.len(), |i: int| span_view(first@[i])) =~= seq![(response_prefix(), Look::Subtext)]);
    rows_from_chunks(first, &indent, &chunks, look)
}

/// The look of a diff line: file headers, hunk headers, additions,
/// removals, context.
pub open spec fn diff_look(line: Seq<char>) -> Look {
    if crate::text::starts_with(line, "+++"@) || crate::text::starts_with(line, "---"@) {
        Look::SubtextBold
    } else if crate::text::starts_with(line, "@@"@) {
        Look::Highlight
    } else if crate::text::starts_with(line, "+"@) {
        Look::Success
    } else if crate::text::starts_with(line, "-"@) {
        Look::Error
    } else {
        Look::Text
    }
}

pub fn diff_line_style(line: &Vec<char>) -> (r: Look)
    ensures
        r == diff_look(line@),
{
    if starts_with_str(line, "+++") || starts_with_str(line, "---") {
        Look::SubtextBold
    } else if starts_with_str(line, "@@") {
        Look::Highlight
    } else if starts_with_str(line, "+") {
        Look::Success
    } else if starts_with_str(line, "-") {
        Look::Error
    } else {
        Look::Text
    }
}

/// The rows of one diff line: its chunks, the first after the gutter, the
/// others after spaces of the gutter's width.
pub open spec fn diff_line_rows(line: Seq<char>, body_width: nat, gutter_width: nat) -> Seq<Seq<SpanView>> {
    let cs = wrapped(line, body_width);
    Seq::new(
        cs.len(),
        |k: int|
            seq![
                (if k == 0 {
                    "  │  "@
                } else {
                    spaces(gutter_width)
                }, Look::Border),
                (cs[k], diff_look(line)),
            ],
    )
}

pub open spec fn diff_rows(lines: Seq<Seq<char>>, body_width: nat, gutter_width: nat) -> Seq<Seq<SpanView>>
    decreases lines.len(),
{
    if lines.len() == 0 {
        seq![]
    } else {
        diff_rows(lines.drop_last(), body_width, gutter_width) + diff_line_rows(
            lines.last(),
            body_width,
            gutter_width,
        )
    }
}

/// A diff in a box: a dashed border, the lines in their looks, a dashed
/// border.
pub open spec fn diff_block_view(content: Seq<char>, width: nat) -> Seq<Seq<SpanView>> {
    let gw = text_width("  │  "@) as nat;
    let bw = room(width, gw);
    let sw = sat(width - text_width("     "@));
    let border = seq![("     "@, Look::Plain), (truncated(Seq::new(sw, |i: int| '╌'), sw), Look::Border)];
    seq![border] + diff_rows(layout_lines(content), bw, gw) + seq![border]
}

fn dashes(n: usize) -> (r: String)
    ensures
        r@ == Seq::new(n as nat, |i: int| '╌'),
{
    let mut v: Vec<char> = Vec::new();
    for i in 0..n
        invariant
            v@ == Seq::new(i as nat, |j: int| '╌'),
    {
        v.push('╌');
        assert(v@ =~= Seq::new((i + 1) as nat, |j: int| '╌'));
    }
    string_of(&v)
}

fn diff_line_lines(line: &Vec<char>, bw: usize, gw: usize) -> (r: Vec<Line>)
    ensures
        lines_view(r@) == diff_line_rows(line@, bw as nat, gw as nat),
{
    let look = diff_line_style(line);
    let text = string_of(line);
    let chunks = wrap_line(text.as_str(), bw);
    let mut out: Vec<Line> = Vec::new();
    for k in 0..chunks.len()
        invariant
            out@.len() == k,
            vv(chunks@) == wrapped(line@, bw as nat),
            look == diff_look(line@),
            forall|j: int| 0 <= j < k ==> #[trigger] line_view(out@[j]) == diff_line_rows(line@, bw as nat, gw as nat)[j],
    {
        let ghost before = out@;
        let gutter = if k == 0 {
            chars_of("  │  ")
        } else {
            space_chars(gw)
        };
        let c = crate::text::slice_chars(&chunks[k], 0, chunks[k].len());
        assert(c@ =~= chunks@[k as int]@);
        out.push(line2(span(gutter, Look::Border), span(c, look)));
        proof {
            assert forall|j: int| 0 <= j < k + 1 implies #[trigger] line_view(out@[j])
                == diff_line_rows(line@, bw as nat, gw as nat)[j] by {
                if j < k {
                    assert(out@[j] == before[j]);
                }
            }
        }
    }
    assert(lines_view(out@) =~= diff_line_rows(line@, bw as nat, gw as nat));
    out
}

pub fn diff_block_lines(content: &str, usable_width: usize) -> (r: Vec<Line>)
    ensures
        lines_view(r@) == diff_block_view(content@, usable_width as nat),
{
    let gw = text_columns("  │  ");
    let bw = room_of(usable_width, gw);
    let sw = usable_width.saturating_sub(text_columns("     "));
    let d = dashes(sw);
    let sep = truncate_to_width(d.as_str(), sw);
    let mut out: Vec<Line> = Vec::new();
    out.push(line2(span_str("     ", Look::Plain), Span { text: sep.clone(), look: Look::Border }));
    let lines = normalized_lines(content);
    let ghost ls = vv(lines@);
    let mut body: Vec<Line> = Vec::new();
    for i in 0..lines.len()
        invariant
            ls == vv(lines@),
            lines_view(body@) == diff_rows(ls.take(i as int), bw as nat, gw as nat),
    {
        assert(ls.take(i + 1).drop_last() =~= ls.take(i as int));
        let more = diff_line_lines(&lines[i], bw, gw);
        push_lines(&mut body, more);
    }
    assert(ls.take(lines.len() as int) =~= ls);
    push_lines(&mut out, body);
    let mut tail: Vec<Line> = Vec::new();
    tail.push(line2(span_str("     ", Look::Plain), Span { text: sep, look: Look::Border }));
    push_lines(&mut out, tail);
    proof {
        reveal_strlit("     ");
    }
    assert(lines_view(out@) =~= diff_block_view(content@, usable_width as nat));
    out
}

/// The lines `str::lines` yields: split at `\n`, a `\r` before a `\n`
/// dropped, and no empty line after a final line ending.
pub open spec fn text_lines(s: Seq<char>) -> Seq<Seq<char>> {
    if s.len() == 0 {
        seq![]
    } else {
        let parts = split_on(s, '\n');
        let n = parts.len();
        let kept = if s.last() == '\n' {
            parts.drop_last()
        } else {
            parts
        };
        Seq::new(
            kept.len(),
            |i: int|
                if i < n - 1 && kept[i].len() > 0 && kept[i].last() == '\r' {
                    kept[i].drop_last()
                } else {
                    kept[i]
                },
        )
    }
}

pub fn lines_of(text: &str) -> (r: Vec<Vec<char>>)
    ensures
        vv(r@) == text_lines(text@),
{
    let s = chars_of(text);
    if s.len() == 0 {
        let r: Vec<Vec<char>> = Vec::new();
        assert(vv(r@) =~= text_lines(text@));
        return r;
    }
    let parts = split_char(&s, '\n');
    let n = parts.len();
    let keep = if s[s.len() - 1] == '\n' {
        n - 1
    } else {
        n
    };
    let ghost pv = vv(parts@);
    let ghost kept = if s@.last() == '\n' {
        pv.drop_last()
    } else {
        pv
    };
    assert(keep == kept.len());
    let mut out: Vec<Vec<char>> = Vec::new();
    for i in 0..keep
        invariant
            keep == kept.len(),
            n == pv.len(),
            pv == vv(parts@),
            text@.len() > 0,
            pv == split_on(text@, '\n'),
            kept == (if text@.last() == '\n' {
                pv.drop_last()
            } else {
                pv
            }),
            s@ == text@,
            out@.len() == i,
            keep <= n,
            forall|j: int| 0 <= j < i ==> #[trigger] vv(out@)[j] == text_lines(text@)[j],
    {
        let p = &parts[i];
        let ghost before = vv(out@);
        assert(kept[i as int] == pv[i as int]);
        let l = if i < n - 1 && p.len() > 0 && p[p.len() - 1] == '\r' {
            crate::text::slice_chars(p, 0, p.len() - 1)
        } else {
            crate::text::slice_chars(p, 0, p.len())
        };
        assert(pv[i as int].drop_last() =~= pv[i as int].subrange(0, pv[i as int].len() - 1));
        assert(pv[i as int] =~= pv[i as int].subrange(0, pv[i as int].len() as int));
        out.push(l);
        proof {
            assert forall|j: int| 0 <= j < i + 1 implies #[trigger] vv(out@)[j] == text_lines(text@)[j] by {
                if j < i {
                    assert(vv(out@)[j] == before[j]);
                }
            }
        }
    }
    assert(vv(out@) =~= text_lines(text@));
    out
}

/// The diff shown under a tool call: a title row, then the diff box (its
/// first twelve lines while collapsed, with a note of how many are hidden).
pub open spec fn tool_diff_view(path: Seq<char>, diff: Seq<char>, collapsed: bool, width: nat) -> Seq<
    Seq<SpanView>,
> {
    let dl = text_lines(diff);
    if dl.len() == 0 {
        seq![]
    } else {
        let vis = if collapsed && dl.len() > 12 {
            dl.take(12)
        } else {
            dl
        };
        seq![response_line_view("Diff "@ + path, Look::TextBold, width)] + diff_block_view(
            crate::text::join(vis, "\n"@),
            width,
        ) + if collapsed && dl.len() > vis.len() {
            seq![
                response_line_view(
                    "… "@ + crate::text::decimal((dl.len() - vis.len()) as nat)
                        + " more diff lines · Ctrl+E to expand"@,
                    Look::SubtextItalic,
                    width,
                ),
            ]
        } else {
            seq![]
        }
    }
}

fn take_lines(v: &Vec<Vec<char>>, n: usize) -> (r: Vec<Vec<char>>)
    requires
        n <= v@.len(),
    ensures
        vv(r@) == vv(v@).take(n as int),
{
    let mut out: Vec<Vec<char>> = Vec::new();
    for i in 0..n
        invariant
            n <= v@.len(),
            vv(out@) == vv(v@).take(i as int),
    {
        let c = crate::text::slice_chars(&v[i], 0, v[i].len());
        assert(c@ =~= v@[i as int]@);
        let ghost before = vv(out@);
        out.push(c);
        assert(vv(v@)[i as int] == v@[i as int]@);
        assert(vv(out@) =~= before.push(c@));
        assert(vv(out@) =~= vv(v@).take(i + 1));
    }
    out
}

pub fn tool_diff_lines(path: &str, diff: &str, collapsed: bool, usable_width: usize) -> (r: Vec<Line>)
    ensures
        lines_view(r@) == tool_diff_view(path@, diff@, collapsed, usable_width as nat),
{
    let dl = lines_of(diff);
    let mut out: Vec<Line> = Vec::new();
    if dl.len() == 0 {
        assert(lines_view(out@) =~= tool_diff_view(path@, diff@, collapsed, usable_width as nat));
        return out;
    }
    let mut title = chars_of("Diff ");
    extend_str(&mut title, path);
    let t = string_of(&title);
    out.push(tool_response_line(t.as_str(), Look::TextBold, usable_width));
    let vis = if collapsed && dl.len() > 12 {
        take_lines(&dl, 12)
    } else {
        take_lines(&dl, dl.len())
    };
    assert(vv(dl@).take(dl.len() as int) =~= vv(dl@));
    let sep = chars_of("\n");
    let body = crate::text::join_chars(&vis, &sep);
    let bs = string_of(&body);
    push_lines(&mut out, diff_block_lines(bs.as_str(), usable_width));
    if collapsed && dl.len() > vis.len() {
        let mut note = chars_of("… ");
        let d = crate::text::decimal_chars((dl.len() - vis.len()) as u128);
        extend_chars(&mut note, &d);
        extend_str(&mut note, " more diff lines · Ctrl+E to expand");
        let ns = string_of(&note);
        let mut tail: Vec<Line> = Vec::new();
        tail.push(tool_response_line(ns.as_str(), Look::SubtextItalic, usable_width));
        push_lines(&mut out, tail);
    }
    assert(lines_view(out@) =~= tool_diff_view(path@, diff@, collapsed, usable_width as nat));
    out
}

// ---------------------------------------------------------------------------
// Tool call headers.
// ---------------------------------------------------------------------------

/// A top-level value of a tool call's JSON arguments.
#[derive(Debug)]
pub enum ArgValue {
    /// A JSON string.
    Text(String),
    /// JSON `null`.
    Null,
    /// Any other value, in compact JSON.
    Other(String),
}

/// A tool call's arguments parsed as JSON: the fields of a top-level
/// object (none for any other value) and the whole value in compact JSON.
#[derive(Debug)]
pub struct ToolArgs {
    pub fields: Vec<(String, ArgValue)>,
    pub compact: String,
}

pub enum ArgValueView {
    Text(Seq<char>),
    Null,
    Other(Seq<char>),
}

pub type ArgsView = (Seq<(Seq<char>, ArgValueView)>, Seq<char>);

pub open spec fn arg_value_view(v: ArgValue) -> ArgValueView {
    match v {
        ArgValue::Text(s) => ArgValueView::Text(s@),
        ArgValue::Null => ArgValueView::Null,
        ArgValue::Other(s) => ArgValueView::Other(s@),
    }
}

pub open spec fn args_view(a: ToolArgs) -> ArgsView {
    (Seq::new(a.fields@.len(), |i: int| (a.fields@[i].0@, arg_value_view(a.fields@[i].1))), a.compact@)
}

pub open spec fn opt_args_view(a: Option<ToolArgs>) -> Option<ArgsView> {
    match a {
        Some(x) => Some(args_view(x)),
        None => None,
    }
}

/// How serde_json reads a text as tool arguments: `None` when it is not
/// JSON.
pub uninterp spec fn json_args(text: Seq<char>) -> Option<ArgsView>;

/// serde_json `from_str::<Value>`, then the fields of a top-level object
/// (strings, nulls, and other values in compact form via `to_string`) and
/// the compact form of the whole value; `None` when parsing fails.
#[verifier::external_body]
fn json_tool_args(text: &str) -> (r: Option<ToolArgs>)
    ensures
        opt_args_view(r) == json_args(text@),
{
    let value = serde_json::from_str::<serde_json::Value>(text).ok()?;
    let fields = match value.as_object() {
        Some(map) => map.iter().map(|(k, v)| (k.clone(), match v {
            serde_json::Value::String(s) => ArgValue::Text(s.clone()),
            serde_json::Value::Null => ArgValue::Null,
            other => ArgValue::Other(other.to_string()),
        })).collect(),
        None => Vec::new(),
    };
    Some(ToolArgs { fields, compact: value.to_string() })
}

/// A tool call's arguments, trimmed and read as JSON.
pub fn parse_tool_args(raw: &str) -> (r: Option<ToolArgs>)
    ensures
        opt_args_view(r) == json_args(crate::text::trim(raw@)),
{
    let t = crate::text::trim_chars(&chars_of(raw));
    let ts = string_of(&t);
    json_tool_args(ts.as_str())
}

/// The first field with the key.
pub open spec fn field_of(fields: Seq<(Seq<char>, ArgValueView)>, key: Seq<char>) -> Option<ArgValueView>
    decreases fields.len(),
{
    if fields.len() == 0 {
        None
    } else if fields[0].0 == key {
        Some(fields[0].1)
    } else {
        field_of(fields.drop_first(), key)
    }
}

/// A field as text: a string as it is, any other value in compact JSON,
/// `null` and a missing field as nothing.
pub open spec fn arg_text(args: Option<ArgsView>, key: Seq<char>) -> Option<Seq<char>> {
    match args {
        None => None,
        Some(a) => match field_of(a.0, key) {
            Some(ArgValueView::Text(s)) => Some(s),
            Some(ArgValueView::Other(s)) => Some(s),
            _ => None,
        },
    }
}

pub fn string_arg(args: Option<&ToolArgs>, key: &str) -> (r: Option<String>)
    ensures
        opt_view(r) == arg_text(
            match args {
                Some(a) => Some(args_view(*a)),
                None => None,
            },
            key@,
        ),
{
    let a = match args {
        Some(a) => a,
        None => {
            return None;
        },
    };
    let k = chars_of(key);
    let ghost fs = args_view(*a).0;
    let mut i: usize = 0;
    assert(fs.skip(0) =~= fs);
    while i < a.fields.len()
        invariant
            i <= a.fields@.len(),
            k@ == key@,
            args == Some(a),
            fs == args_view(*a).0,
            field_of(fs, key@) == field_of(fs.skip(i as int), key@),
        decreases a.fields.len() - i,
    {
        assert(fs.skip(i as int)[0] == fs[i as int]);
        assert(fs.skip(i as int).drop_first() =~= fs.skip(i + 1));
        assert(fs[i as int] == (a.fields@[i as int].0@, arg_value_view(a.fields@[i as int].1)));
        if crate::text::eq_str(&k, a.fields[i].0.as_str()) {
            assert(field_of(fs.skip(i as int), key@) == Some(arg_value_view(a.fields@[i as int].1)));
            let r = match &a.fields[i].1 {
                ArgValue::Text(s) => Some(s.clone()),
                ArgValue::Null => None,
                ArgValue::Other(s) => Some(s.clone()),
            };
            return r;
        }
        i += 1;
    }
    None
}

/// Whether a character separates the words of a tool's name.
pub open spec fn is_name_sep(c: char) -> bool {
    c == '_' || c == '-' || c == ':'
}

/// The words of a tool's name: the runs between `_`, `-` and `:`.
pub open spec fn name_words(s: Seq<char>) -> Seq<Seq<char>>
    decreases s.len(),
{
    if s.len() == 0 {
        seq![]
    } else {
        let p = s.drop_last();
        let c = s.last();
        let w = name_words(p);
        if is_name_sep(c) {
            w
        } else if p.len() > 0 && !is_name_sep(p.last()) {
            w.update(w.len() - 1, w.last().push(c))
        } else {
            w.push(seq![c])
        }
    }
}

proof fn lemma_name_words(s: Seq<char>)
    ensures
        s.len() > 0 && !is_name_sep(s.last()) ==> name_words(s).len() > 0,
        forall|k: int| 0 <= k < name_words(s).len() ==> #[trigger] name_words(s)[k].len() > 0,
    decreases s.len(),
{
    if s.len() > 0 {
        lemma_name_words(s.drop_last());
    }
}

/// The uppercase mapping of a character, one or more characters.
pub uninterp spec fn uppercase(c: char) -> Seq<char>;

/// std `char::to_uppercase`, collected.
#[verifier::external_body]
fn upper_chars(c: char) -> (r: Vec<char>)
    ensures
        r@ == uppercase(c),
{
    c.to_uppercase().collect()
}

/// A tool's name in title case: its words, each with an uppercase first
/// character, joined by spaces.
pub open spec fn title_case(name: Seq<char>) -> Seq<char> {
    let ws = name_words(name);
    crate::text::join(Seq::new(ws.len(), |i: int| uppercase(ws[i][0]) + ws[i].drop_first()), " "@)
}

pub fn title_case_tool_name(name: &str) -> (r: String)
    ensures
        r@ == title_case(name@),
{
    let s = chars_of(name);
    let mut words: Vec<Vec<char>> = Vec::new();
    for i in 0..s.len()
        invariant
            vv(words@) == name_words(s@.take(i as int)),
    {
        let ghost t = s@.take(i + 1);
        assert(t.drop_last() =~= s@.take(i as int));
        let c = s[i];
        if c == '_' || c == '-' || c == ':' {
        } else if i > 0 && !(s[i - 1] == '_' || s[i - 1] == '-' || s[i - 1] == ':') {
            let n = words.len();
            proof {
                lemma_name_words(s@.take(i as int));
                assert(s@.take(i as int).last() == s@[i - 1]);
            }
            let mut last = words.pop().unwrap();
            last.push(c);
            words.push(last);
            assert(vv(words@) =~= name_words(t));
        } else {
            let mut w: Vec<char> = Vec::new();
            w.push(c);
            words.push(w);
            assert(vv(words@) =~= name_words(t));
        }
    }
    assert(s@.take(s.len() as int) =~= s@);
    proof {
        lemma_name_words(s@);
    }
    let ghost ws = name_words(name@);
    let mut titled: Vec<Vec<char>> = Vec::new();
    for k in 0..words.len()
        invariant
            vv(words@) == ws,
            ws == name_words(name@),
            forall|j: int| 0 <= j < ws.len() ==> #[trigger] ws[j].len() > 0,
            titled@.len() == k,
            forall|j: int| 0 <= j < k ==> #[trigger] vv(titled@)[j] == uppercase(ws[j][0]) + ws[j].drop_first(),
    {
        let w = &words[k];
        assert(w@ == ws[k as int]);
        let mut t = upper_chars(w[0]);
        let rest = crate::text::slice_chars(w, 1, w.len());
        assert(rest@ =~= ws[k as int].drop_first());
        extend_chars(&mut t, &rest);
        let ghost before = vv(titled@);
        titled.push(t);
        proof {
            assert forall|j: int| 0 <= j < k + 1 implies #[trigger] vv(titled@)[j] == uppercase(ws[j][0]) + ws[j].drop_first() by {
                if j < k {
                    assert(vv(titled@)[j] == before[j]);
                }
            }
        }
    }
    assert(vv(titled@) =~= Seq::new(ws.len(), |i: int| uppercase(ws[i][0]) + ws[i].drop_first()));
    let sep = chars_of(" ");
    string_of(&crate::text::join_chars(&titled, &sep))
}

/// The verb a tool call is shown with.
pub open spec fn display_name(name: Seq<char>, raw_args: Seq<char>) -> Seq<char> {
    if name == "read_file"@ {
        "Read"@
    } else if name == "grep"@ {
        "Search"@
    } else if name == "write_file"@ {
        match arg_text(json_args(crate::text::trim(raw_args)), "content"@) {
            Some(c) => if c.len() == 0 {
                "Create"@
            } else {
                "Write"@
            },
            None => "Write"@,
        }
    } else if name == "list_directory"@ {
        "List"@
    } else if name == "bash"@ {
        "Bash"@
    } else if name == "patch"@ {
        "Edit"@
    } else if name == "web_search"@ {
        "Fetch"@
    } else if name == "bus:fetch"@ {
        "Fetch"@
    } else {
        title_case(name)
    }
}

pub fn tool_display_name(name: &str, raw_args: &str) -> (r: String)
    ensures
        r@ == display_name(name@, raw_args@),
{
    let args = parse_tool_args(raw_args);
    let n = chars_of(name);
    if crate::text::eq_str(&n, "read_file") {
        "Read".to_owned()
    } else if crate::text::eq_str(&n, "grep") {
        "Search".to_owned()
    } else if crate::text::eq_str(&n, "write_file") {
        let content = match &args {
            Some(a) => string_arg(Some(a), "content"),
            None => None,
        };
        match content {
            Some(c) => if c.as_str().is_empty() {
                "Create".to_owned()
            } else {
                "Write".to_owned()
            },
            None => "Write".to_owned(),
        }
    } else if crate::text::eq_str(&n, "list_directory") {
        "List".to_owned()
    } else if crate::text::eq_str(&n, "bash") {
        "Bash".to_owned()
    } else if crate::text::eq_str(&n, "patch") {
        "Edit".to_owned()
    } else if crate::text::eq_str(&n, "web_search") {
        "Fetch".to_owned()
    } else if crate::text::eq_str(&n, "bus:fetch") {
        "Fetch".to_owned()
    } else {
        title_case_tool_name(name)
    }
}

/// `pattern in path`, or the pattern alone, for a grep call.
pub open spec fn grep_text(args: Option<ArgsView>) -> Option<Seq<char>> {
    match arg_text(args, "pattern"@) {
        None => None,
        Some(p) => match arg_text(args, "path"@) {
            Some(path) => if path.len() > 0 {
                Some(p + " in "@ + path)
            } else {
                Some(p)
            },
            None => Some(p),
        },
    }
}

pub fn grep_summary(args: &ToolArgs) -> (r: Option<String>)
    ensures
        opt_view(r) == grep_text(Some(args_view(*args))),
{
    let pattern = match string_arg(Some(args), "pattern") {
        Some(p) => p,
        None => {
            return None;
        },
    };
    match string_arg(Some(args), "path") {
        Some(path) => if !path.as_str().is_empty() {
            let mut v = chars_of(pattern.as_str());
            extend_str(&mut v, " in ");
            extend_str(&mut v, path.as_str());
            Some(string_of(&v))
        } else {
            Some(pattern)
        },
        None => Some(pattern),
    }
}

/// The first non-empty field among the usual argument names.
pub open spec fn generic_text(args: Option<ArgsView>) -> Option<Seq<char>> {
    let keys = seq!["path"@, "file_path"@, "command"@, "query"@, "pattern"@, "url"@, "name"@];
    first_nonempty(args, keys)
}

pub open spec fn first_nonempty(args: Option<ArgsView>, keys: Seq<Seq<char>>) -> Option<Seq<char>>
    decreases keys.len(),
{
    if keys.len() == 0 {
        None
    } else {
        match arg_text(args, keys[0]) {
            Some(v) => if v.len() > 0 {
                Some(v)
            } else {
                first_nonempty(args, keys.drop_first())
            },
            None => first_nonempty(args, keys.drop_first()),
        }
    }
}

pub fn generic_tool_summary(args: &ToolArgs) -> (r: Option<String>)
    ensures
        opt_view(r) == generic_text(Some(args_view(*args))),
{
    proof {
        reveal_with_fuel(first_nonempty, 8);
    }
    let ghost a = Some(args_view(*args));
    let ghost keys = seq!["path"@, "file_path"@, "command"@, "query"@, "pattern"@, "url"@, "name"@];
    assert(keys.drop_first() =~= seq!["file_path"@, "command"@, "query"@, "pattern"@, "url"@, "name"@]);
    match string_arg(Some(args), "path") {
        Some(v) => if !v.as_str().is_empty() { return Some(v); },
        None => {},
    }
    let ghost k1 = keys.drop_first();
    assert(k1.drop_first() =~= seq!["command"@, "query"@, "pattern"@, "url"@, "name"@]);
    match string_arg(Some(args), "file_path") {
        Some(v) => if !v.as_str().is_empty() { return Some(v); },
        None => {},
    }
    let ghost k2 = k1.drop_first();
    assert(k2.drop_first() =~= seq!["query"@, "pattern"@, "url"@, "name"@]);
    match string_arg(Some(args), "command") {
        Some(v) => if !v.as_str().is_empty() { return Some(v); },
        None => {},
    }
    let ghost k3 = k2.drop_first();
    assert(k3.drop_first() =~= seq!["pattern"@, "url"@, "name"@]);
    match string_arg(Some(args), "query") {
        Some(v) => if !v.as_str().is_empty() { return Some(v); },
        None => {},
    }
    let ghost k4 = k3.drop_first();
    assert(k4.drop_first() =~= seq!["url"@, "name"@]);
    match string_arg(Some(args), "pattern") {
        Some(v) => if !v.as_str().is_empty() { return Some(v); },
        None => {},
    }
    let ghost k5 = k4.drop_first();
    assert(k5.drop_first() =~= seq!["name"@]);
    match string_arg(Some(args), "url") {
        Some(v) => if !v.as_str().is_empty() { return Some(v); },
        None => {},
    }
    let ghost k6 = k5.drop_first();
    assert(k6.drop_first() =~= Seq::<Seq<char>>::empty());
    match string_arg(Some(args), "name") {
        Some(v) => if !v.as_str().is_empty() { return Some(v); },
        None => {},
    }
    None
}

/// The summary shown after a tool's name: its key argument, or the whole
/// arguments (words re-joined when they are not JSON), cut to the room.
pub open spec fn argument_summary(name: Seq<char>, raw_args: Seq<char>, max_width: nat) -> Seq<char> {
    match json_args(crate::text::trim(raw_args)) {
        None => truncated(crate::text::join(crate::text::words(raw_args), " "@), max_width),
        Some(a) => {
            let args = Some(a);
            let summary = if name == "bash"@ {
                arg_text(args, "command"@)
            } else if name == "read_file"@ || name == "write_file"@ || name == "list_directory"@ {
                arg_text(args, "path"@)
            } else if name == "patch"@ {
                match arg_text(args, "file_path"@) {
                    Some(p) => Some(p),
                    None => arg_text(args, "path"@),
                }
            } else if name == "web_search"@ {
                arg_text(args, "url"@)
            } else if name == "bus:fetch"@ {
                arg_text(args, "key"@)
            } else if name == "grep"@ {
                grep_text(args)
            } else {
                generic_text(args)
            };
            truncated(
                match summary {
                    Some(s) => s,
                    None => a.1,
                },
                max_width,
            )
        },
    }
}

pub fn tool_argument_summary(name: &str, raw_args: &str, max_width: usize) -> (r: String)
    ensures
        r@ == argument_summary(name@, raw_args@, max_width as nat),
{
    let parsed = parse_tool_args(raw_args);
    let args = match parsed {
        Some(a) => a,
        None => {
            let c = chars_of(raw_args);
            let ws = crate::text::split_whitespace(&c);
            let sep = chars_of(" ");
            let joined = string_of(&crate::text::join_chars(&ws, &sep));
            return truncate_to_width(joined.as_str(), max_width);
        },
    };
    let n = chars_of(name);
    let summary = if crate::text::eq_str(&n, "bash") {
        string_arg(Some(&args), "command")
    } else if crate::text::eq_str(&n, "read_file") || crate::text::eq_str(&n, "write_file")
        || crate::text::eq_str(&n, "list_directory") {
        string_arg(Some(&args), "path")
    } else if crate::text::eq_str(&n, "patch") {
        match string_arg(Some(&args), "file_path") {
            Some(p) => Some(p),
            None => string_arg(Some(&args), "path"),
        }
    } else if crate::text::eq_str(&n, "web_search") {
        string_arg(Some(&args), "url")
    } else if crate::text::eq_str(&n, "bus:fetch") {
        string_arg(Some(&args), "key")
    } else if crate::text::eq_str(&n, "grep") {
        grep_summary(&args)
    } else {
        generic_tool_summary(&args)
    };
    let text = match summary {
        Some(s) => s,
        None => args.compact,
    };
    truncate_to_width(text.as_str(), max_width)
}

/// The rows under a tool call's header: its status while it runs or
/// returned nothing, else its result (the first four lines while
/// collapsed, with a note of the rest) and its diff.
pub open spec fn status_rows(t: ToolDisplay, collapsed: bool, u: nat, elapsed: Seq<char>) -> Seq<Seq<SpanView>> {
    match opt_view(t.result) {
        None => seq![response_line_view("Running..."@, Look::Thinking, u)],
        Some(r) => if crate::text::trim(r).len() == 0 {
            seq![
                match t.status {
                    ToolStatus::Running => response_line_view("Running..."@, Look::Thinking, u),
                    ToolStatus::Done => response_line_view("Done in "@ + elapsed, Look::Success, u),
                    ToolStatus::Error => response_line_view(
                        "Error after "@ + elapsed,
                        Look::ErrorBold,
                        u,
                    ),
                },
            ]
        } else {
            let rl = text_lines(r);
            let vis = if collapsed && rl.len() > 4 {
                rl.take(4)
            } else {
                rl
            };
            (if t.status == ToolStatus::Error {
                seq![response_line_view("Error after "@ + elapsed, Look::ErrorBold, u)]
            } else {
                seq![]
            }) + response_lines_view(
                crate::text::join(vis, "\n"@),
                if t.status == ToolStatus::Error {
                    Look::Error
                } else {
                    Look::Tool
                },
                u,
            ) + (if collapsed && rl.len() > vis.len() {
                seq![
                    response_line_view(
                        "… "@ + crate::text::decimal((rl.len() - vis.len()) as nat)
                            + " more lines · Ctrl+E to expand"@,
                        Look::SubtextItalic,
                        u,
                    ),
                ]
            } else {
                seq![]
            }) + match t.file_diff {
                Some(d) => tool_diff_view(d.path@, d.text@, collapsed, u),
                None => seq![],
            }
        },
    }
}

/// The rows of a tool call: a header with the call's verb and key
/// argument, then its status or its (possibly collapsed) result and diff.
/// `elapsed` is the call's duration as shown.
pub open spec fn tool_view(msg: ChatMessage, width: u16, elapsed: Seq<char>) -> Seq<Seq<SpanView>> {
    match msg.tool {
        None => seq![],
        Some(t) => {
            let u: nat = if width == 0 {
                1
            } else {
                width as nat
            };
            let dot = match t.status {
                ToolStatus::Running => Look::Subtext,
                ToolStatus::Done => Look::Success,
                ToolStatus::Error => Look::Error,
            };
            let name = display_name(t.name@, t.arguments@);
            let sw = sat(sat(u - text_width(name)) - 5);
            let summary = argument_summary(t.name@, t.arguments@, sw);
            let header = seq![("● "@, dot), (name, Look::TextBold)] + if summary.len() > 0 {
                seq![("("@, Look::Text), (summary, Look::Text), (")"@, Look::Text)]
            } else {
                seq![]
            };
            seq![header] + status_rows(t, msg.collapsed, u, elapsed)
        },
    }
}

fn one_line(l: Line) -> (r: Vec<Line>)
    ensures
        lines_view(r@) == seq![line_view(l)],
{
    let mut v: Vec<Line> = Vec::new();
    v.push(l);
    assert(lines_view(v@) =~= seq![line_view(l)]);
    v
}

fn with_elapsed(head: &str, elapsed: &str) -> (r: String)
    ensures
        r@ == head@ + elapsed@,
{
    let mut v = chars_of(head);
    extend_str(&mut v, elapsed);
    string_of(&v)
}

fn status_lines(tool: &ToolDisplay, collapsed: bool, u: usize, elapsed: &str) -> (r: Vec<Line>)
    ensures
        lines_view(r@) == status_rows(*tool, collapsed, u as nat, elapsed@),
{
    match &tool.result {
        None => one_line(tool_response_line("Running...", Look::Thinking, u)),
        Some(r) => {
            let rc = chars_of(r.as_str());
            if crate::text::trim_chars(&rc).len() == 0 {
                match tool.status {
                    ToolStatus::Running => one_line(tool_response_line("Running...", Look::Thinking, u)),
                    ToolStatus::Done => {
                        let t = with_elapsed("Done in ", elapsed);
                        one_line(tool_response_line(t.as_str(), Look::Success, u))
                    },
                    ToolStatus::Error => {
                        let t = with_elapsed("Error after ", elapsed);
                        one_line(tool_response_line(t.as_str(), Look::ErrorBold, u))
                    },
                }
            } else {
                let mut out: Vec<Line> = Vec::new();
                if tool.status == ToolStatus::Error {
                    let t = with_elapsed("Error after ", elapsed);
                    out.push(tool_response_line(t.as_str(), Look::ErrorBold, u));
                }
                let ghost o1 = lines_view(out@);
                let body_look = if tool.status == ToolStatus::Error {
                    Look::Error
                } else {
                    Look::Tool
                };
                let rl = lines_of(r.as_str());
                let vis = if collapsed && rl.len() > 4 {
                    take_lines(&rl, 4)
                } else {
                    take_lines(&rl, rl.len())
                };
                assert(vv(rl@).take(rl.len() as int) =~= vv(rl@));
                let sep = chars_of("\n");
                let body = string_of(&crate::text::join_chars(&vis, &sep));
                push_lines(&mut out, tool_response_lines(body.as_str(), body_look, u));
                let mut note: Vec<Line> = Vec::new();
                if collapsed && rl.len() > vis.len() {
                    let mut t = chars_of("… ");
                    extend_chars(&mut t, &crate::text::decimal_chars((rl.len() - vis.len()) as u128));
                    extend_str(&mut t, " more lines · Ctrl+E to expand");
                    let ts = string_of(&t);
                    note.push(tool_response_line(ts.as_str(), Look::SubtextItalic, u));
                }
                let ghost nv = lines_view(note@);
                push_lines(&mut out, note);
                let dl = match &tool.file_diff {
                    Some(d) => tool_diff_lines(d.path.as_str(), d.text.as_str(), collapsed, u),
                    None => Vec::new(),
                };
                let ghost dv = lines_view(dl@);
                push_lines(&mut out, dl);
                proof {
                    if tool.status == ToolStatus::Error {
                        assert(o1 =~= seq![response_line_view("Error after "@ + elapsed@, Look::ErrorBold, u as nat)]);
                    } else {
                        assert(o1 =~= Seq::<Seq<SpanView>>::empty());
                    }
                    if !(collapsed && rl.len() > vis.len()) {
                        assert(nv =~= Seq::<Seq<SpanView>>::empty());
                    }
                    if tool.file_diff is None {
                        assert(dv =~= Seq::<Seq<SpanView>>::empty());
                    }
                }
                out
            }
        },
    }
}

pub fn tool_lines(msg: &ChatMessage, width: u16, elapsed: &str) -> (r: Vec<Line>)
    ensures
        lines_view(r@) == tool_view(*msg, width, elapsed@),
{
    let tool = match &msg.tool {
        Some(t) => t,
        None => {
            let r: Vec<Line> = Vec::new();
            assert(lines_view(r@) =~= tool_view(*msg, width, elapsed@));
            return r;
        },
    };
    let u: usize = if width == 0 {
        1
    } else {
        width as usize
    };
    let dot = match tool.status {
        ToolStatus::Running => Look::Subtext,
        ToolStatus::Done => Look::Success,
        ToolStatus::Error => Look::Error,
    };
    let name = tool_display_name(tool.name.as_str(), tool.arguments.as_str());
    let sw = u.saturating_sub(text_columns(name.as_str())).saturating_sub(5);
    let summary = tool_argument_summary(tool.name.as_str(), tool.arguments.as_str(), sw);
    let mut header: Vec<Span> = Vec::new();
    header.push(span_str("● ", dot));
    header.push(Span { text: name, look: Look::TextBold });
    if !summary.as_str().is_empty() {
        header.push(span_str("(", Look::Text));
        header.push(Span { text: summary, look: Look::Text });
        header.push(span_str(")", Look::Text));
    }
    let ghost hv = Seq::new(header@.len(), |i: int| span_view(header@[i]));
    let mut rows: Vec<Line> = Vec::new();
    rows.push(Line { spans: header });
    let more = status_lines(tool, msg.collapsed, u, elapsed);
    push_lines(&mut rows, more);
    proof {
        assert(hv =~= tool_view(*msg, width, elapsed@)[0]) by {
            if summary@.len() > 0 {
            }
        }
    }
    assert(lines_view(rows@) =~= tool_view(*msg, width, elapsed@));
    rows
}

} // verus!
