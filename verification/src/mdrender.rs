//! Laying markdown out on terminal rows: the plain-text fallback, word
//! wrapping of styled spans, list markers, code blocks, math, rules and
//! tables, each row a run of texts with the role each text plays.

use crate::layout::{
    Look, fit, lines_of, sat, space_chars, spaces, text_columns, text_lines, text_width, width0, width_of,
};
use crate::markdown::{ListMarker, MdSpan, SpanView};
use crate::session::opt_view;
use syntect::easy::HighlightLines;
use syntect::highlighting::{FontStyle, ThemeSet};
use syntect::parsing::SyntaxSet;
use crate::text::{
    join, squash_ws, chars_of, contains, contains_str, decimal, decimal_chars,
    extend_chars, is_ascii_digit_spec, slice_chars, split_char, split_on, split_whitespace,
    starts_with, starts_with_str, string_of, trim, trim_chars, vv, words,
};
use vstd::prelude::*;

verus! {

/// The role a run of markdown text plays; the UI paints each in its theme.
#[derive(Clone, Copy, Debug, PartialEq, Eq, Structural)]
pub enum MdLook {
    /// No style of its own.
    Plain,
    /// Body text of the plain-text fallback.
    Text,
    /// Inline text with the styles markdown gave it.
    Inline { bold: bool, italic: bool, strikethrough: bool, code: bool, link: bool },
    /// The bar before a quoted line.
    Quote,
    /// A list item's marker.
    ListMarker,
    /// The frame of a code block or a math block.
    CodeBorder,
    /// A code line.
    CodeText,
    /// An added, a removed and a hunk-header line of a diff block.
    CodeAdded,
    CodeRemoved,
    CodeHunk,
    /// Highlighted code in a syntax colour.
    Syntax { r: u8, g: u8, b: u8, bold: bool, italic: bool, underline: bool },
    /// Highlighted code whose syntax colour is too dark: body text colour.
    SyntaxText { bold: bool, italic: bool, underline: bool },
    TableHeader,
    TableCell,
    TableBorder,
    /// A horizontal rule and the separators of a narrow table.
    Border,
    Math,
    /// A run of the transcript's own styling.
    Ui(Look),
}

/// A run of text in one look.
#[derive(Debug)]
pub struct MdRun {
    pub text: String,
    pub look: MdLook,
}

/// A row: its runs, and a look laid under all of them.
#[derive(Debug)]
pub struct MdLine {
    pub runs: Vec<MdRun>,
    pub look: MdLook,
}

impl DeepView for MdRun {
    type V = (Seq<char>, MdLook);

    open spec fn deep_view(&self) -> (Seq<char>, MdLook) {
        (self.text@, self.look)
    }
}

pub struct LineView {
    pub runs: Seq<(Seq<char>, MdLook)>,
    pub look: MdLook,
}

impl DeepView for MdLine {
    type V = LineView;

    open spec fn deep_view(&self) -> LineView {
        LineView { runs: self.runs.deep_view(), look: self.look }
    }
}

/// A row of one text in a look laid under it; an empty text gives a row
/// with no runs.
pub open spec fn styled_row(text: Seq<char>, look: MdLook) -> LineView {
    LineView { runs: plain_runs(text_lines(text)), look }
}

/// Texts as runs of no style of their own.
pub open spec fn plain_runs(ts: Seq<Seq<char>>) -> Seq<(Seq<char>, MdLook)> {
    Seq::new(ts.len(), |i: int| (ts[i], MdLook::Plain))
}

/// An empty row.
pub open spec fn blank_row() -> LineView {
    LineView { runs: seq![], look: MdLook::Plain }
}

/// A row of one text in a look laid under it (ratatui `Line::styled`): the
/// text's lines become runs.
pub(crate) fn styled_line(text: Vec<char>, look: MdLook) -> (r: MdLine)
    ensures
        r.deep_view() == styled_row(text@, look),
{
    let parts = lines_of(string_of(&text).as_str());
    let ghost ps = vv(parts@);
    let mut runs: Vec<MdRun> = Vec::new();
    let mut i: usize = 0;
    while i < parts.len()
        invariant
            i <= parts.len(),
            ps == vv(parts@),
            ps == text_lines(text@),
            runs.deep_view() == plain_runs(ps.take(i as int)),
        decreases parts.len() - i,
    {
        let ghost before = runs.deep_view();
        let t = string_of(&parts[i]);
        assert(t@ == ps[i as int]);
        runs.push(MdRun { text: t, look: MdLook::Plain });
        assert(runs.deep_view() =~= before.push((ps[i as int], MdLook::Plain)));
        i += 1;
        assert(runs.deep_view() =~= plain_runs(ps.take(i as int)));
    }
    assert(ps.take(i as int) =~= ps);
    MdLine { runs, look }
}

pub(crate) fn blank_line() -> (r: MdLine)
    ensures
        r.deep_view() == blank_row(),
{
    let r = MdLine { runs: Vec::new(), look: MdLook::Plain };
    assert(r.runs.deep_view() =~= Seq::<(Seq<char>, MdLook)>::empty());
    r
}

pub(crate) fn push_line(out: &mut Vec<MdLine>, l: MdLine)
    ensures
        final(out).deep_view() == old(out).deep_view().push(l.deep_view()),
{
    out.push(l);
    assert(out.deep_view() =~= old(out).deep_view().push(l.deep_view()));
}

pub(crate) fn append_lines(out: &mut Vec<MdLine>, more: Vec<MdLine>)
    ensures
        final(out).deep_view() == old(out).deep_view() + more.deep_view(),
{
    let mut more = more;
    let ghost m = more.deep_view();
    out.append(&mut more);
    assert(out.deep_view() =~= old(out).deep_view() + m);
}

// ---------------------------------------------------------------------------
// Plain text or markdown.
// ---------------------------------------------------------------------------

/// Characters that mark markdown syntax wherever they stand.
pub open spec fn is_md_marker(c: char) -> bool {
    c == '#' || c == '*' || c == '`' || c == '>' || c == '\\' || c == '_' || c == '~' || c == '-'
        || c == '|'
}

/// What is looked at: the first 500 characters of the text.
pub open spec fn md_sample(s: Seq<char>) -> Seq<char> {
    if s.len() <= 500 {
        s
    } else {
        s.take(500)
    }
}

/// A line break followed by a digit, with ". " somewhere after the break.
pub open spec fn numbered_line_at(t: Seq<char>, i: int) -> bool {
    &&& t[i] == '\n'
    &&& i + 1 < t.len()
    &&& is_ascii_digit_spec(t[i + 1])
    &&& contains(t.subrange(i + 1, t.len() as int), seq!['.', ' '])
}

/// A sample looks like markdown when it holds a marker character, a blank
/// line, or the start of a numbered list.
pub open spec fn looks_like_markdown(t: Seq<char>) -> bool {
    ||| exists|i: int| 0 <= i < t.len() && is_md_marker(#[trigger] t[i])
    ||| exists|i: int| 0 <= i < t.len() - 1 && #[trigger] t[i] == '\n' && t[i + 1] == '\n'
    ||| exists|i: int| 0 <= i < t.len() && #[trigger] numbered_line_at(t, i)
    ||| t.len() > 0 && is_ascii_digit_spec(t[0]) && contains(t, seq!['.', ' '])
}

fn is_marker_char(c: char) -> (r: bool)
    ensures
        r == is_md_marker(c),
{
    c == '#' || c == '*' || c == '`' || c == '>' || c == '\\' || c == '_' || c == '~' || c == '-'
        || c == '|'
}

fn is_digit_char(c: char) -> (r: bool)
    ensures
        r == is_ascii_digit_spec(c),
{
    '0' <= c && c <= '9'
}

/// Whether a message's text should be parsed as markdown: its first 500
/// characters hold a markdown marker, a blank line, or a numbered list.
pub fn has_markdown_syntax(s: &str) -> (r: bool)
    ensures
        r == looks_like_markdown(md_sample(s@)),
{
    let all = chars_of(s);
    let t = if all.len() > 500 {
        slice_chars(&all, 0, 500)
    } else {
        all
    };
    let ghost ts = md_sample(s@);
    assert(t@ =~= ts);
    let n = t.len();
    let mut i: usize = 0;
    while i < n
        invariant
            n == t.len(),
            t@ == ts,
            ts == md_sample(s@),
            i <= n,
            forall|k: int| 0 <= k < i ==> !is_md_marker(#[trigger] t@[k]),
            forall|k: int| 0 <= k < i && k < n - 1 ==> !(#[trigger] t@[k] == '\n' && t@[k + 1] == '\n'),
        decreases n - i,
    {
        let c = t[i];
        if is_marker_char(c) {
            assert(is_md_marker(ts[i as int]));
            return true;
        }
        if c == '\n' && i + 1 < n && t[i + 1] == '\n' {
            assert(ts[i as int] == '\n' && ts[i + 1] == '\n');
            return true;
        }
        i += 1;
    }
    proof {
        reveal_strlit(". ");
        assert(". "@ =~= seq!['.', ' ']);
    }
    let mut j: usize = 0;
    while j < n
        invariant
            n == t.len(),
            t@ == ts,
            ts == md_sample(s@),
            j <= n,
            ". "@ =~= seq!['.', ' '],
            forall|k: int| 0 <= k < n ==> !is_md_marker(#[trigger] ts[k]),
            forall|k: int| 0 <= k < n - 1 ==> !(#[trigger] ts[k] == '\n' && ts[k + 1] == '\n'),
            forall|k: int| 0 <= k < j ==> !#[trigger] numbered_line_at(ts, k),
        decreases n - j,
    {
        if t[j] == '\n' && j + 1 < n && is_digit_char(t[j + 1]) {
            let rest = slice_chars(&t, j + 1, n);
            if contains_str(&rest, ". ") {
                assert(numbered_line_at(ts, j as int));
                return true;
            }
        }
        j += 1;
    }
    if n > 0 && is_digit_char(t[0]) && contains_str(&t, ". ") {
        return true;
    }
    false
}

// ---------------------------------------------------------------------------
// Word wrapping and truncation.
// ---------------------------------------------------------------------------

/// Filling chunks word by word: the chunks closed so far, the chunk being
/// filled and its width.  A word that would overflow a non-empty chunk opens
/// a new one; words in a chunk are joined by one space.
pub open spec fn word_wrap_state(ws: Seq<Seq<char>>, max: nat) -> (Seq<Seq<char>>, Seq<char>, nat)
    decreases ws.len(),
{
    if ws.len() == 0 {
        (seq![], seq![], 0)
    } else {
        let (done, cur, w) = word_wrap_state(ws.drop_last(), max);
        let word = ws.last();
        let ww = text_width(word) as nat;
        let broke = w > 0 && w + 1 + ww > max;
        let done2 = if broke {
            done.push(cur)
        } else {
            done
        };
        let cur2 = if broke {
            seq![]
        } else {
            cur
        };
        let w2: nat = if broke {
            0
        } else {
            w
        };
        let cur3 = if cur2.len() > 0 {
            cur2.push(' ')
        } else {
            cur2
        };
        let w3: nat = if cur2.len() > 0 {
            sat(w2 + 1int)
        } else {
            w2
        };
        (done2, cur3 + word, sat(w3 + ww as int))
    }
}

/// A line's words packed into chunks of at most `max` columns (a chunk
/// holds at least one word); a line without words gives one empty chunk.
pub open spec fn word_wrapped(line: Seq<char>, max: nat) -> Seq<Seq<char>> {
    let all = soft_chunks(line, max);
    if all.len() == 0 {
        seq![seq![]]
    } else {
        all
    }
}

/// The chunks a line's words fill; none for a line without words.
pub open spec fn soft_chunks(line: Seq<char>, max: nat) -> Seq<Seq<char>> {
    let (done, cur, _) = word_wrap_state(words(line), max);
    if cur.len() > 0 {
        done.push(cur)
    } else {
        done
    }
}

/// Packs a line's words into chunks that fit `max_width` columns.
pub fn wrap_line_text(line: &str, max_width: usize) -> (r: Vec<Vec<char>>)
    ensures
        vv(r@) == word_wrapped(line@, max_width as nat),
{
    let mut done = word_chunks(line, max_width);
    if done.len() == 0 {
        done.push(Vec::new());
    }
    assert(vv(done@) =~= word_wrapped(line@, max_width as nat));
    done
}

/// The chunks of at most `max_width` columns a line's words fill.
pub fn word_chunks(line: &str, max_width: usize) -> (r: Vec<Vec<char>>)
    ensures
        vv(r@) == soft_chunks(line@, max_width as nat),
{
    let cs = chars_of(line);
    let ws = split_whitespace(&cs);
    let ghost wsv = vv(ws@);
    let mut done: Vec<Vec<char>> = Vec::new();
    let mut cur: Vec<char> = Vec::new();
    let mut w: usize = 0;
    let mut i: usize = 0;
    assert(wsv.take(0) =~= Seq::<Seq<char>>::empty());
    assert(vv(done@) =~= Seq::<Seq<char>>::empty());
    while i < ws.len()
        invariant
            i <= ws.len(),
            wsv == vv(ws@),
            wsv == words(line@),
            (vv(done@), cur@, w as nat) == word_wrap_state(wsv.take(i as int), max_width as nat),
        decreases ws.len() - i,
    {
        assert(wsv.take(i + 1).drop_last() =~= wsv.take(i as int));
        let word = &ws[i];
        let ww = text_columns(string_of(word).as_str());
        assert(wsv.take(i + 1).last() == word@);
        if w > 0 && (ww >= max_width || w >= max_width - ww) {
            let mut fresh: Vec<char> = Vec::new();
            std::mem::swap(&mut fresh, &mut cur);
            done.push(fresh);
            w = 0;
        }
        if cur.len() > 0 {
            cur.push(' ');
            w = w.saturating_add(1);
        }
        extend_chars(&mut cur, word);
        w = w.saturating_add(ww);
        i += 1;
        assert(vv(done@) =~= word_wrap_state(wsv.take(i as int), max_width as nat).0);
    }
    assert(wsv.take(i as int) =~= wsv);
    if cur.len() > 0 {
        done.push(cur);
    }
    assert(vv(done@) =~= soft_chunks(line@, max_width as nat));
    done
}

/// The columns of a text, character by character.
pub open spec fn cols(s: Seq<char>) -> nat
    decreases s.len(),
{
    if s.len() == 0 {
        0
    } else {
        cols(s.drop_last()) + width0(s.last())
    }
}

/// The characters that fit in `max` columns, and an ellipsis when the text
/// is wider than what was kept.
pub open spec fn clipped(s: Seq<char>, max: nat) -> Seq<char> {
    let kept = s.take(fit(s, max, 0).0 as int);
    kept + if cols(kept) < text_width(s) {
        seq!['…']
    } else {
        seq![]
    }
}

/// Cuts a text to `max_width` columns, with an ellipsis where it is wider.
pub fn truncate_str(text: &str, max_width: usize) -> (r: String)
    ensures
        r@ == clipped(text@, max_width as nat),
{
    let s = chars_of(text);
    let mut out: Vec<char> = Vec::new();
    let mut w: usize = 0;
    let mut i: usize = 0;
    assert(s@.skip(0) =~= s@);
    while i < s.len()
        invariant
            s@ == text@,
            i <= s.len(),
            w <= max_width,
            w == cols(s@.take(i as int)),
            out@ == s@.take(i as int),
            fit(text@, max_width as nat, 0) == ({
                let f = fit(s@.skip(i as int), max_width as nat, w as nat);
                ((i + f.0) as nat, f.1)
            }),
        ensures
            i == s.len() || fit(s@.skip(i as int), max_width as nat, w as nat).0 == 0,
            w == cols(s@.take(i as int)),
            out@ == s@.take(i as int),
            fit(text@, max_width as nat, 0) == ({
                let f = fit(s@.skip(i as int), max_width as nat, w as nat);
                ((i + f.0) as nat, f.1)
            }),
        decreases s.len() - i,
    {
        let c = s[i];
        let cw = width_of(c);
        assert(s@.skip(i as int)[0] == c);
        assert(s@.skip(i as int).drop_first() =~= s@.skip(i + 1));
        if cw > max_width - w {
            assert(fit(s@.skip(i as int), max_width as nat, w as nat) == (0nat, true));
            break;
        }
        out.push(c);
        assert(s@.take(i + 1).drop_last() =~= s@.take(i as int));
        w = w + cw;
        i += 1;
        assert(out@ =~= s@.take(i as int));
    }
    proof {
        if i == s.len() {
            assert(s@.skip(i as int) =~= Seq::<char>::empty());
        }
    }
    let ghost kept = out@;
    if w < text_columns(text) {
        out.push('…');
    }
    assert(out@ =~= clipped(text@, max_width as nat));
    string_of(&out)
}

// ---------------------------------------------------------------------------
// The plain-text fallback.
// ---------------------------------------------------------------------------

/// Rows of chunks, each a row in one look.
pub open spec fn chunk_rows(chunks: Seq<Seq<char>>, look: MdLook) -> Seq<LineView> {
    Seq::new(chunks.len(), |i: int| styled_row(chunks[i], look))
}

pub open spec fn plain_rows(lines: Seq<Seq<char>>, usable: nat) -> Seq<LineView>
    decreases lines.len(),
{
    if lines.len() == 0 {
        seq![]
    } else {
        let l = lines.last();
        plain_rows(lines.drop_last(), usable) + if l.len() == 0 {
            seq![blank_row()]
        } else {
            chunk_rows(word_wrapped(l, usable), MdLook::Text)
        }
    }
}

/// Text without markdown: each line word-wrapped to the width (at least
/// 20 columns), an empty line kept as a blank row, and one blank row for
/// an empty text.
pub open spec fn plain_text_view(content: Seq<char>, width: nat) -> Seq<LineView> {
    let usable = if width < 20 {
        20
    } else {
        width
    };
    let rows = plain_rows(text_lines(content), usable);
    if rows.len() == 0 {
        seq![blank_row()]
    } else {
        rows
    }
}

fn chunk_lines(chunks: Vec<Vec<char>>, look: MdLook) -> (r: Vec<MdLine>)
    ensures
        r.deep_view() == chunk_rows(vv(chunks@), look),
{
    let mut out: Vec<MdLine> = Vec::new();
    let mut i: usize = 0;
    while i < chunks.len()
        invariant
            i <= chunks.len(),
            out.deep_view() == chunk_rows(vv(chunks@).take(i as int), look),
        decreases chunks.len() - i,
    {
        let l = styled_line(chunks[i].clone(), look);
        push_line(&mut out, l);
        i += 1;
        assert(out.deep_view() =~= chunk_rows(vv(chunks@).take(i as int), look));
    }
    assert(vv(chunks@).take(i as int) =~= vv(chunks@));
    out
}

pub fn render_plain_text(content: &str, width: u16) -> (r: Vec<MdLine>)
    ensures
        r.deep_view() == plain_text_view(content@, width as nat),
{
    let usable: usize = if width < 20 {
        20
    } else {
        width as usize
    };
    let lines = lines_of(content);
    let ghost ls = vv(lines@);
    let mut out: Vec<MdLine> = Vec::new();
    let mut i: usize = 0;
    while i < lines.len()
        invariant
            i <= lines.len(),
            ls == vv(lines@),
            out.deep_view() == plain_rows(ls.take(i as int), usable as nat),
        decreases lines.len() - i,
    {
        assert(ls.take(i + 1).drop_last() =~= ls.take(i as int));
        let line = &lines[i];
        if line.len() == 0 {
            push_line(&mut out, blank_line());
        } else {
            let text = string_of(line);
            let chunks = wrap_line_text(text.as_str(), usable);
            append_lines(&mut out, chunk_lines(chunks, MdLook::Text));
        }
        i += 1;
    }
    assert(ls.take(i as int) =~= ls);
    if out.len() == 0 {
        push_line(&mut out, blank_line());
    }
    out
}

/// The marker before a list item: two spaces for each enclosing list,
/// then a bullet, the item's number and a dot, or a check box.
pub open spec fn list_prefix_of(marker: ListMarker, depth: nat) -> Seq<char> {
    spaces(2 * (if depth > 0 {
        (depth - 1) as nat
    } else {
        0
    })) + match marker {
        ListMarker::Bullet => seq!['•', ' '],
        ListMarker::Numbered(n) => decimal(n as nat) + seq!['.', ' '],
        ListMarker::Task { checked } => seq![
            if checked {
                '☑'
            } else {
                '☐'
            },
            ' ',
        ],
    }
}

pub fn list_prefix(marker: ListMarker, depth: usize) -> (r: Vec<char>)
    requires
        depth <= usize::MAX / 2,
    ensures
        r@ == list_prefix_of(marker, depth as nat),
{
    let levels: usize = if depth > 0 {
        depth - 1
    } else {
        0
    };
    let mut r = space_chars(2 * levels);
    match marker {
        ListMarker::Bullet => {
            r.push('•');
            r.push(' ');
        },
        ListMarker::Numbered(n) => {
            let d = decimal_chars(n as u128);
            extend_chars(&mut r, &d);
            r.push('.');
            r.push(' ');
        },
        ListMarker::Task { checked } => {
            r.push(
                if checked {
                    '☑'
                } else {
                    '☐'
                },
            );
            r.push(' ');
        },
    }
    assert(r@ =~= list_prefix_of(marker, depth as nat));
    r
}

// ---------------------------------------------------------------------------
// Wrapping styled spans.
// ---------------------------------------------------------------------------

/// The look of an inline span: the styles markdown gave it.
pub open spec fn inline_look(s: SpanView) -> MdLook {
    MdLook::Inline {
        bold: s.bold,
        italic: s.italic,
        strikethrough: s.strikethrough,
        code: s.code,
        link: s.link_url is Some,
    }
}

/// What the wrapper is fed: texts to pack, and forced line breaks.
pub enum Piece {
    Word(Seq<char>, MdLook),
    Break,
}

/// The pieces of a text cut at line breaks: a break between parts, and
/// each non-empty part.
pub open spec fn split_pieces(parts: Seq<Seq<char>>, look: MdLook) -> Seq<Piece>
    decreases parts.len(),
{
    if parts.len() == 0 {
        seq![]
    } else {
        let prev = split_pieces(parts.drop_last(), look);
        let p = parts.last();
        let with_break = if parts.len() > 1 {
            prev.push(Piece::Break)
        } else {
            prev
        };
        if p.len() > 0 {
            with_break.push(Piece::Word(p, look))
        } else {
            with_break
        }
    }
}

/// A span is one piece, or its parts and breaks when it holds line breaks.
pub open spec fn span_pieces(s: SpanView) -> Seq<Piece> {
    if s.text.contains('\n') {
        split_pieces(split_on(s.text, '\n'), inline_look(s))
    } else {
        seq![Piece::Word(s.text, inline_look(s))]
    }
}

pub open spec fn all_pieces(spans: Seq<SpanView>) -> Seq<Piece>
    decreases spans.len(),
{
    if spans.len() == 0 {
        seq![]
    } else {
        all_pieces(spans.drop_last()) + span_pieces(spans.last())
    }
}

/// The prefix a wrapped block puts before its rows.
pub struct Prefix {
    pub text: Seq<char>,
    pub width: nat,
    pub look: MdLook,
}

/// The rows made so far, the runs of the row being filled, its width, and
/// whether it is the block's first row.
pub struct WrapState {
    pub lines: Seq<LineView>,
    pub cur: Seq<(Seq<char>, MdLook)>,
    pub w: nat,
    pub first: bool,
}

/// A finished row: the prefix on the first row, spaces as wide as the
/// prefix on the others.
pub open spec fn built(p: Prefix, runs: Seq<(Seq<char>, MdLook)>, show: bool) -> LineView {
    LineView {
        runs: if show && p.text.len() > 0 {
            seq![(p.text, p.look)] + runs
        } else if !show && p.text.len() > 0 {
            seq![(spaces(p.width), MdLook::Plain)] + runs
        } else {
            runs
        },
        look: MdLook::Plain,
    }
}

/// A text of whitespace only (other than a line break itself).
pub open spec fn is_blank_text(t: Seq<char>) -> bool {
    trim(t).len() == 0 && t != seq!['\n']
}

/// Packs one text: blank text at the start of a row is dropped; a text that
/// would overflow a non-empty row closes the row first.
pub open spec fn packed(st: WrapState, t: Seq<char>, look: MdLook, max: nat, p: Prefix) -> WrapState {
    let ww = text_width(t) as nat;
    let blank = is_blank_text(t);
    if st.w == 0 && blank {
        st
    } else {
        let st1 = if st.w > 0 && st.w + ww > max && !blank {
            WrapState { lines: st.lines.push(built(p, st.cur, st.first)), cur: seq![], w: 0, first: false }
        } else {
            st
        };
        WrapState {
            cur: st1.cur.push((t, look)),
            w: if st1.w > 0 || !blank {
                sat(st1.w + ww as int)
            } else {
                ww
            },
            ..st1
        }
    }
}

/// A forced break closes the row; the next row starts as wide as the prefix.
pub open spec fn piece_step(st: WrapState, piece: Piece, max: nat, p: Prefix) -> WrapState {
    match piece {
        Piece::Break => WrapState {
            lines: st.lines.push(built(p, st.cur, st.first)),
            cur: seq![],
            w: p.width,
            first: false,
        },
        Piece::Word(t, look) => packed(st, t, look, max, p),
    }
}

pub open spec fn wrap_from(st: WrapState, ps: Seq<Piece>, max: nat, p: Prefix) -> WrapState
    decreases ps.len(),
{
    if ps.len() == 0 {
        st
    } else {
        piece_step(wrap_from(st, ps.drop_last(), max, p), ps.last(), max, p)
    }
}

pub open spec fn wrap_start() -> WrapState {
    WrapState { lines: seq![], cur: seq![], w: 0, first: true }
}

/// Spans wrapped into rows behind a prefix: the body is as wide as the
/// width less the prefix, at least 10 columns; an empty result is one blank
/// row.
pub open spec fn wrapped_spans(spans: Seq<SpanView>, p: Prefix, max_width: nat) -> Seq<LineView> {
    let body: nat = if max_width >= p.width + 10 {
        (max_width - p.width) as nat
    } else {
        10
    };
    let st = wrap_from(wrap_start(), all_pieces(spans), body, p);
    let lines = if st.cur.len() > 0 {
        st.lines.push(built(p, st.cur, st.first))
    } else {
        st.lines
    };
    if lines.len() == 0 {
        seq![blank_row()]
    } else {
        lines
    }
}

pub proof fn lemma_wrap_from_append(st: WrapState, a: Seq<Piece>, b: Seq<Piece>, max: nat, p: Prefix)
    ensures
        wrap_from(st, a + b, max, p) == wrap_from(wrap_from(st, a, max, p), b, max, p),
    decreases b.len(),
{
    if b.len() == 0 {
        assert(a + b =~= a);
    } else {
        assert((a + b).drop_last() =~= a + b.drop_last());
        lemma_wrap_from_append(st, a, b.drop_last(), max, p);
    }
}

struct Wrapper {
    lines: Vec<MdLine>,
    cur: Vec<MdRun>,
    w: usize,
    first: bool,
}

impl View for Wrapper {
    type V = WrapState;

    closed spec fn view(&self) -> WrapState {
        WrapState {
            lines: self.lines.deep_view(),
            cur: self.cur.deep_view(),
            w: self.w as nat,
            first: self.first,
        }
    }
}

fn build_line(prefix: &Vec<char>, pw: usize, plook: MdLook, runs: Vec<MdRun>, show: bool) -> (r: MdLine)
    ensures
        r.deep_view() == built(Prefix { text: prefix@, width: pw as nat, look: plook }, runs.deep_view(), show),
{
    let ghost rv = runs.deep_view();
    let mut runs = runs;
    let mut all: Vec<MdRun> = Vec::new();
    if show && prefix.len() > 0 {
        all.push(MdRun { text: string_of(prefix), look: plook });
        assert(all.deep_view() =~= seq![(prefix@, plook)]);
    } else if !show && prefix.len() > 0 {
        let sp = space_chars(pw);
        all.push(MdRun { text: string_of(&sp), look: MdLook::Plain });
        assert(all.deep_view() =~= seq![(spaces(pw as nat), MdLook::Plain)]);
    } else {
        assert(all.deep_view() =~= Seq::<(Seq<char>, MdLook)>::empty());
    }
    let ghost head = all.deep_view();
    all.append(&mut runs);
    assert(all.deep_view() =~= head + rv);
    MdLine { runs: all, look: MdLook::Plain }
}

impl Wrapper {
    fn close_row(&mut self, prefix: &Vec<char>, pw: usize, plook: MdLook)
        ensures
            final(self)@ == (WrapState {
                lines: old(self)@.lines.push(
                    built(Prefix { text: prefix@, width: pw as nat, look: plook }, old(self)@.cur, old(self)@.first),
                ),
                cur: seq![],
                w: 0,
                first: false,
            }),
    {
        let mut runs: Vec<MdRun> = Vec::new();
        std::mem::swap(&mut runs, &mut self.cur);
        let l = build_line(prefix, pw, plook, runs, self.first);
        push_line(&mut self.lines, l);
        self.w = 0;
        self.first = false;
        assert(self.cur.deep_view() =~= Seq::<(Seq<char>, MdLook)>::empty());
    }

    fn pack(&mut self, t: Vec<char>, look: MdLook, max: usize, prefix: &Vec<char>, pw: usize, plook: MdLook)
        ensures
            final(self)@ == packed(old(self)@, t@, look, max as nat, Prefix { text: prefix@, width: pw as nat, look: plook }),
    {
        let text = string_of(&t);
        let ww = text_columns(text.as_str());
        let trimmed = trim_chars(&t);
        let blank = trimmed.len() == 0 && !(t.len() == 1 && t[0] == '\n');
        proof {
            if t@ == seq!['\n'] {
                assert(t.len() == 1 && t@[0] == '\n');
            }
            if t.len() == 1 && t@[0] == '\n' {
                assert(t@ =~= seq!['\n']);
            }
        }
        if self.w == 0 && blank {
            return;
        }
        if self.w > 0 && (ww > max || self.w > max - ww) && !blank {
            self.close_row(prefix, pw, plook);
        }
        let ghost mid = self@;
        self.cur.push(MdRun { text, look });
        assert(self.cur.deep_view() =~= mid.cur.push((t@, look)));
        if self.w > 0 || !blank {
            self.w = self.w.saturating_add(ww);
        } else {
            self.w = ww;
        }
    }

    fn piece_break(&mut self, prefix: &Vec<char>, pw: usize, plook: MdLook)
        ensures
            final(self)@ == piece_step(old(self)@, Piece::Break, 0, Prefix { text: prefix@, width: pw as nat, look: plook }),
    {
        self.close_row(prefix, pw, plook);
        self.w = pw;
    }
}

fn span_look(s: &MdSpan) -> (r: MdLook)
    ensures
        r == inline_look(s.deep_view()),
{
    MdLook::Inline {
        bold: s.bold,
        italic: s.italic,
        strikethrough: s.strikethrough,
        code: s.code,
        link: s.link_url.is_some(),
    }
}

fn has_newline(t: &Vec<char>) -> (r: bool)
    ensures
        r == t@.contains('\n'),
{
    let mut i: usize = 0;
    while i < t.len()
        invariant
            i <= t.len(),
            forall|k: int| 0 <= k < i ==> t@[k] != '\n',
        decreases t.len() - i,
    {
        if t[i] == '\n' {
            assert(t@[i as int] == '\n');
            return true;
        }
        i += 1;
    }
    false
}

impl Wrapper {
    fn feed_span(&mut self, s: &MdSpan, max: usize, prefix: &Vec<char>, pw: usize, plook: MdLook)
        ensures
            final(self)@ == wrap_from(
                old(self)@,
                span_pieces(s.deep_view()),
                max as nat,
                Prefix { text: prefix@, width: pw as nat, look: plook },
            ),
    {
        let ghost p = Prefix { text: prefix@, width: pw as nat, look: plook };
        let look = span_look(s);
        let t = chars_of(s.text.as_str());
        assert(t@ == s.text@);
        if !has_newline(&t) {
            let ghost st0 = self@;
            self.pack(t, look, max, prefix, pw, plook);
            let ghost one = seq![Piece::Word(s.text@, look)];
            assert(one.drop_last() =~= Seq::<Piece>::empty());
            assert(one.last() == Piece::Word(s.text@, look));
            assert(wrap_from(st0, one.drop_last(), max as nat, p) == st0);
            assert(span_pieces(s.deep_view()) == one);
            return;
        }
        let parts = split_char(&t, '\n');
        let ghost ps = vv(parts@);
        let ghost st0 = self@;
        let mut j: usize = 0;
        assert(ps.take(0) =~= Seq::<Seq<char>>::empty());
        while j < parts.len()
            invariant
                j <= parts.len(),
                ps == vv(parts@),
                ps == split_on(s.text@, '\n'),
                look == inline_look(s.deep_view()),
                p == (Prefix { text: prefix@, width: pw as nat, look: plook }),
                self@ == wrap_from(st0, split_pieces(ps.take(j as int), look), max as nat, p),
            decreases parts.len() - j,
        {
            let ghost before = self@;
            let ghost prev = split_pieces(ps.take(j as int), look);
            assert(ps.take(j + 1).drop_last() =~= ps.take(j as int));
            if j > 0 {
                self.piece_break(prefix, pw, plook);
            }
            let ghost after_break = if j > 0 { prev.push(Piece::Break) } else { prev };
            assert(self@ == wrap_from(st0, after_break, max as nat, p)) by {
                if j > 0 {
                    assert(after_break.drop_last() =~= prev);
                }
            }
            let part = parts[j].clone();
            if part.len() > 0 {
                self.pack(part, look, max, prefix, pw, plook);
                assert(after_break.push(Piece::Word(ps[j as int], look)).drop_last() =~= after_break);
            }
            j += 1;
        }
        assert(ps.take(j as int) =~= ps);
    }
}

/// Wraps spans into rows of at most `max_width` columns behind a prefix of
/// `prefix_width` columns.
pub fn wrap_spans_with_custom_prefix(
    spans: &Vec<MdSpan>,
    prefix: &Vec<char>,
    prefix_width: usize,
    prefix_look: MdLook,
    max_width: usize,
) -> (r: Vec<MdLine>)
    ensures
        r.deep_view() == wrapped_spans(
            spans.deep_view(),
            Prefix { text: prefix@, width: prefix_width as nat, look: prefix_look },
            max_width as nat,
        ),
{
    let ghost p = Prefix { text: prefix@, width: prefix_width as nat, look: prefix_look };
    let body: usize = if max_width >= prefix_width && max_width - prefix_width >= 10 {
        max_width - prefix_width
    } else {
        10
    };
    let ghost sv = spans.deep_view();
    let mut wr = Wrapper { lines: Vec::new(), cur: Vec::new(), w: 0, first: true };
    assert(wr@ =~= wrap_start()) by {
        assert(wr.lines.deep_view() =~= Seq::<LineView>::empty());
        assert(wr.cur.deep_view() =~= Seq::<(Seq<char>, MdLook)>::empty());
    }
    let mut i: usize = 0;
    while i < spans.len()
        invariant
            i <= spans.len(),
            sv == spans.deep_view(),
            p == (Prefix { text: prefix@, width: prefix_width as nat, look: prefix_look }),
            wr@ == wrap_from(wrap_start(), all_pieces(sv.take(i as int)), body as nat, p),
        decreases spans.len() - i,
    {
        assert(sv.take(i + 1).drop_last() =~= sv.take(i as int));
        let ghost before = all_pieces(sv.take(i as int));
        wr.feed_span(&spans[i], body, prefix, prefix_width, prefix_look);
        proof {
            lemma_wrap_from_append(wrap_start(), before, span_pieces(sv[i as int]), body as nat, p);
        }
        i += 1;
    }
    assert(sv.take(i as int) =~= sv);
    let mut lines = wr.lines;
    if wr.cur.len() > 0 {
        let l = build_line(prefix, prefix_width, prefix_look, wr.cur, wr.first);
        push_line(&mut lines, l);
    }
    if lines.len() == 0 {
        push_line(&mut lines, blank_line());
    }
    lines
}

// ---------------------------------------------------------------------------
// Code blocks.
// ---------------------------------------------------------------------------

/// The colour and font style syntect gives a stretch of code.
#[derive(Clone, Copy, Debug, PartialEq, Eq, Structural)]
pub struct Highlight {
    pub r: u8,
    pub g: u8,
    pub b: u8,
    pub bold: bool,
    pub italic: bool,
    pub underline: bool,
}

pub open spec fn ranges_view(v: Seq<(Highlight, String)>) -> Seq<(Highlight, Seq<char>)> {
    Seq::new(v.len(), |i: int| (v[i].0, v[i].1@))
}

pub open spec fn opt_ranges_view(o: Option<Vec<(Highlight, String)>>) -> Option<Seq<(Highlight, Seq<char>)>> {
    match o {
        Some(v) => Some(ranges_view(v@)),
        None => None,
    }
}

/// The stretches syntect's default syntaxes and its "base16-ocean.dark"
/// theme highlight a code text into, for the syntax a language token names;
/// none when no syntax has that token or highlighting fails.
pub uninterp spec fn syntax_ranges(lang: Seq<char>, text: Seq<char>) -> Option<Seq<(Highlight, Seq<char>)>>;

/// syntect: `HighlightLines::highlight_line` over the whole text, with the
/// syntax `SyntaxSet::find_syntax_by_token` finds in the default syntaxes
/// and the theme "base16-ocean.dark" of the default themes; each stretch's
/// foreground colour and font style, converted one for one.
#[verifier::external_body]
fn highlight_ranges(lang: &str, text: &str) -> (r: Option<Vec<(Highlight, String)>>)
    ensures
        opt_ranges_view(r) == syntax_ranges(lang@, text@),
{
    let ss = SyntaxSet::load_defaults_newlines();
    let ts = ThemeSet::load_defaults();
    let syntax = ss.find_syntax_by_token(lang)?;
    let mut h = HighlightLines::new(syntax, &ts.themes["base16-ocean.dark"]);
    let ranges = h.highlight_line(text, &ss).ok()?;
    Some(ranges.into_iter().map(|(st, t)| (Highlight {
        r: st.foreground.r,
        g: st.foreground.g,
        b: st.foreground.b,
        bold: st.font_style.contains(FontStyle::BOLD),
        italic: st.font_style.contains(FontStyle::ITALIC),
        underline: st.font_style.contains(FontStyle::UNDERLINE),
    }, t.to_string())).collect())
}

/// The look of highlighted code: its colour, unless that colour is too dark
/// to read (perceived brightness under 30 of 255), then the body colour.
pub open spec fn syntax_look(h: Highlight) -> MdLook {
    if (h.r as int * 299 + h.g as int * 587 + h.b as int * 114) / 1000 < 30 {
        MdLook::SyntaxText { bold: h.bold, italic: h.italic, underline: h.underline }
    } else {
        MdLook::Syntax { r: h.r, g: h.g, b: h.b, bold: h.bold, italic: h.italic, underline: h.underline }
    }
}

pub fn syntax_style(h: Highlight) -> (r: MdLook)
    ensures
        r == syntax_look(h),
{
    let lum = (h.r as u32 * 299 + h.g as u32 * 587 + h.b as u32 * 114) / 1000;
    if lum < 30 {
        MdLook::SyntaxText { bold: h.bold, italic: h.italic, underline: h.underline }
    } else {
        MdLook::Syntax { r: h.r, g: h.g, b: h.b, bold: h.bold, italic: h.italic, underline: h.underline }
    }
}

pub type Rows = (Seq<Seq<(Seq<char>, MdLook)>>, Seq<(Seq<char>, MdLook)>);

/// Adds the parts of a stretch cut at line breaks: a break closes the row,
/// a non-empty part joins it.
pub open spec fn parts_fold(st: Rows, parts: Seq<Seq<char>>, look: MdLook) -> Rows
    decreases parts.len(),
{
    if parts.len() == 0 {
        st
    } else {
        let (d, c) = parts_fold(st, parts.drop_last(), look);
        let (d1, c1) = if parts.len() > 1 {
            (d.push(c), seq![])
        } else {
            (d, c)
        };
        let p = parts.last();
        (d1, if p.len() > 0 {
            c1.push((p, look))
        } else {
            c1
        })
    }
}

pub open spec fn ranges_fold(rs: Seq<(Highlight, Seq<char>)>) -> Rows
    decreases rs.len(),
{
    if rs.len() == 0 {
        (seq![], seq![])
    } else {
        parts_fold(ranges_fold(rs.drop_last()), split_on(rs.last().1, '\n'), syntax_look(rs.last().0))
    }
}

/// Highlighted stretches as rows of runs, cut at line breaks.
pub open spec fn highlighted_rows(rs: Seq<(Highlight, Seq<char>)>) -> Seq<Seq<(Seq<char>, MdLook)>> {
    let (d, c) = ranges_fold(rs);
    if c.len() > 0 || d.len() == 0 {
        d.push(c)
    } else {
        d
    }
}

pub proof fn lemma_parts_fold_take(st: Rows, parts: Seq<Seq<char>>, look: MdLook, j: int)
    requires
        0 <= j < parts.len(),
    ensures
        parts_fold(st, parts.take(j + 1), look) == ({
            let (d, c) = parts_fold(st, parts.take(j), look);
            let (d1, c1) = if j > 0 {
                (d.push(c), seq![])
            } else {
                (d, c)
            };
            let p = parts[j];
            (d1, if p.len() > 0 {
                c1.push((p, look))
            } else {
                c1
            })
        }),
{
    assert(parts.take(j + 1).drop_last() =~= parts.take(j));
}

struct RowBuilder {
    done: Vec<Vec<MdRun>>,
    cur: Vec<MdRun>,
}

impl View for RowBuilder {
    type V = Rows;

    closed spec fn view(&self) -> Rows {
        (self.done.deep_view(), self.cur.deep_view())
    }
}

impl RowBuilder {
    fn add_stretch(&mut self, h: Highlight, t: &String)
        ensures
            final(self)@ == parts_fold(old(self)@, split_on(t@, '\n'), syntax_look(h)),
    {
        let look = syntax_style(h);
        let cs = chars_of(t.as_str());
        let parts = split_char(&cs, '\n');
        let ghost ps = vv(parts@);
        let ghost st0 = self@;
        let mut j: usize = 0;
        assert(ps.take(0) =~= Seq::<Seq<char>>::empty());
        while j < parts.len()
            invariant
                j <= parts.len(),
                ps == vv(parts@),
                ps == split_on(t@, '\n'),
                look == syntax_look(h),
                self@ == parts_fold(st0, ps.take(j as int), look),
            decreases parts.len() - j,
        {
            proof {
                lemma_parts_fold_take(st0, ps, look, j as int);
            }
            if j > 0 {
                let mut row: Vec<MdRun> = Vec::new();
                std::mem::swap(&mut row, &mut self.cur);
                let ghost d0 = self.done.deep_view();
                self.done.push(row);
                assert(self.done.deep_view() =~= d0.push(row.deep_view()));
                assert(self.cur.deep_view() =~= Seq::<(Seq<char>, MdLook)>::empty());
            }
            if parts[j].len() > 0 {
                let ghost c0 = self.cur.deep_view();
                let run = MdRun { text: string_of(&parts[j]), look };
                self.cur.push(run);
                assert(self.cur.deep_view() =~= c0.push((ps[j as int], look)));
            }
            j += 1;
        }
        assert(ps.take(j as int) =~= ps);
    }
}

/// Rows of runs from highlighted stretches.
pub fn highlight_lines(ranges: &Vec<(Highlight, String)>) -> (r: Vec<Vec<MdRun>>)
    ensures
        r.deep_view() == highlighted_rows(ranges_view(ranges@)),
{
    let ghost rv = ranges_view(ranges@);
    let mut b = RowBuilder { done: Vec::new(), cur: Vec::new() };
    assert(b@ == ranges_fold(rv.take(0))) by {
        assert(b.done.deep_view() =~= Seq::<Seq<(Seq<char>, MdLook)>>::empty());
        assert(b.cur.deep_view() =~= Seq::<(Seq<char>, MdLook)>::empty());
    }
    let mut i: usize = 0;
    while i < ranges.len()
        invariant
            i <= ranges.len(),
            rv == ranges_view(ranges@),
            b@ == ranges_fold(rv.take(i as int)),
        decreases ranges.len() - i,
    {
        assert(rv.take(i + 1).drop_last() =~= rv.take(i as int));
        let h = ranges[i].0;
        b.add_stretch(h, &ranges[i].1);
        i += 1;
    }
    assert(rv.take(i as int) =~= rv);
    let mut done = b.done;
    if b.cur.len() > 0 || done.len() == 0 {
        let ghost d0 = done.deep_view();
        done.push(b.cur);
        assert(done.deep_view() =~= d0.push(b.cur.deep_view()));
    }
    done
}

pub open spec fn opt_rows_view(o: Option<Vec<Vec<MdRun>>>) -> Option<Seq<Seq<(Seq<char>, MdLook)>>> {
    match o {
        Some(v) => Some(v.deep_view()),
        None => None,
    }
}

/// The rows of a code text as the syntax a language token names highlights
/// it; none when there is no such syntax.
pub open spec fn highlighted(lang: Seq<char>, text: Seq<char>) -> Option<Seq<Seq<(Seq<char>, MdLook)>>> {
    match syntax_ranges(lang, text) {
        Some(rs) => Some(highlighted_rows(rs)),
        None => None,
    }
}

pub fn highlight_syntax(lang: &str, text: &str) -> (r: Option<Vec<Vec<MdRun>>>)
    ensures
        opt_rows_view(r) == highlighted(lang@, text@),
{
    match highlight_ranges(lang, text) {
        Some(ranges) => Some(highlight_lines(&ranges)),
        None => None,
    }
}

/// Highlighted segments cut to `max` columns: a segment is skipped once the
/// row is full, and keeps the characters that fit.
pub open spec fn segments_fit(segs: Seq<(Seq<char>, MdLook)>, max: nat) -> (Seq<(Seq<char>, MdLook)>, nat)
    decreases segs.len(),
{
    if segs.len() == 0 {
        (seq![], 0)
    } else {
        let (res, w) = segments_fit(segs.drop_last(), max);
        if w >= max {
            (res, w)
        } else {
            let (t, look) = segs.last();
            let vis = t.take(fit(t, max, w).0 as int);
            (if vis.len() > 0 {
                res.push((vis, look))
            } else {
                res
            }, w + cols(vis))
        }
    }
}

pub proof fn lemma_fit_cols(t: Seq<char>, max: nat, w: nat)
    requires
        w <= max,
    ensures
        fit(t, max, w).0 <= t.len(),
        w + cols(t.take(fit(t, max, w).0 as int)) <= max,
    decreases t.len(),
{
    if t.len() > 0 && w + width0(t[0]) <= max {
        lemma_fit_cols(t.drop_first(), max, w + width0(t[0]));
        let k = fit(t.drop_first(), max, w + width0(t[0])).0;
        lemma_cols_cons(t, (k + 1) as int);
    }
}

/// The columns of a non-empty prefix: its first character's and the rest's.
pub proof fn lemma_cols_cons(t: Seq<char>, n: int)
    requires
        1 <= n <= t.len(),
    ensures
        cols(t.take(n)) == width0(t[0]) + cols(t.drop_first().take(n - 1)),
    decreases n,
{
    if n == 1 {
        assert(t.take(1).drop_last() =~= Seq::<char>::empty());
        assert(t.drop_first().take(0) =~= Seq::<char>::empty());
    } else {
        lemma_cols_cons(t, n - 1);
        assert(t.take(n).drop_last() =~= t.take(n - 1));
        assert(t.drop_first().take(n - 1).drop_last() =~= t.drop_first().take(n - 2));
    }
}

/// The characters of a text that fit in `max` columns after `w` columns.
fn fitting_chars(t: &Vec<char>, max: usize, w: usize) -> (r: (Vec<char>, usize))
    requires
        w <= max,
    ensures
        r.0@ == t@.take(fit(t@, max as nat, w as nat).0 as int),
        r.1 == w + cols(r.0@),
        r.1 <= max,
{
    let mut out: Vec<char> = Vec::new();
    let mut cw: usize = w;
    let mut i: usize = 0;
    assert(t@.skip(0) =~= t@);
    while i < t.len()
        invariant
            i <= t.len(),
            w <= cw <= max,
            cw == w + cols(t@.take(i as int)),
            out@ == t@.take(i as int),
            fit(t@, max as nat, w as nat).0 == i + fit(t@.skip(i as int), max as nat, cw as nat).0,
        ensures
            cw == w + cols(t@.take(i as int)),
            out@ == t@.take(i as int),
            cw <= max,
            fit(t@, max as nat, w as nat).0 == i,
        decreases t.len() - i,
    {
        let c = t[i];
        let x = width_of(c);
        assert(t@.skip(i as int)[0] == c);
        assert(t@.skip(i as int).drop_first() =~= t@.skip(i + 1));
        if x > max - cw {
            break;
        }
        out.push(c);
        assert(t@.take(i + 1).drop_last() =~= t@.take(i as int));
        cw = cw + x;
        i += 1;
        assert(out@ =~= t@.take(i as int));
        if i == t.len() {
            assert(t@.skip(i as int) =~= Seq::<char>::empty());
        }
    }
    (out, cw)
}

/// Cuts highlighted segments to `max_width` columns, keeping their looks.
pub fn truncate_line_to_width(segments: &Vec<MdRun>, max_width: usize) -> (r: Vec<MdRun>)
    ensures
        r.deep_view() == segments_fit(segments.deep_view(), max_width as nat).0,
{
    let ghost sv = segments.deep_view();
    let mut result: Vec<MdRun> = Vec::new();
    let mut w: usize = 0;
    let mut i: usize = 0;
    assert(result.deep_view() =~= Seq::<(Seq<char>, MdLook)>::empty());
    while i < segments.len()
        invariant
            i <= segments.len(),
            sv == segments.deep_view(),
            (result.deep_view(), w as nat) == segments_fit(sv.take(i as int), max_width as nat),
            w <= max_width || sv.take(i as int).len() == 0,
        decreases segments.len() - i,
    {
        assert(sv.take(i + 1).drop_last() =~= sv.take(i as int));
        if w < max_width {
            let t = chars_of(segments[i].text.as_str());
            let (vis, nw) = fitting_chars(&t, max_width, w);
            if vis.len() > 0 {
                let ghost r0 = result.deep_view();
                let look = segments[i].look;
                result.push(MdRun { text: string_of(&vis), look });
                assert(result.deep_view() =~= r0.push((vis@, look)));
            }
            w = nw;
        }
        i += 1;
    }
    assert(sv.take(i as int) =~= sv);
    result
}

/// `a.saturating_sub(b)`.
pub open spec fn sub0(a: nat, b: nat) -> nat {
    if a > b {
        (a - b) as nat
    } else {
        0
    }
}

pub open spec fn is_diff_lang(lang: Option<Seq<char>>) -> bool {
    lang == Some(seq!['d', 'i', 'f', 'f'])
}

/// Code that draws its own box (a table of box-drawing characters) gets no
/// frame of ours.
pub open spec fn is_art_table(text: Seq<char>) -> bool {
    text.contains('╭') || text.contains('╔') || text.contains('┏')
}

pub open spec fn code_top(lang: Option<Seq<char>>) -> Seq<char> {
    match lang {
        Some(l) => seq!['┌', '─', ' '] + l + seq![' '],
        None => seq!['┌', '─', '─', '─', '─'],
    }
}

pub open spec fn code_bottom() -> Seq<char> {
    seq!['└', '─', '─', '─', '─']
}

/// The look of a line of a diff block.
pub open spec fn diff_code_look(line: Seq<char>) -> MdLook {
    if starts_with(line, seq!['+']) && !starts_with(line, seq!['+', '+', '+']) {
        MdLook::CodeAdded
    } else if starts_with(line, seq!['-']) && !starts_with(line, seq!['-', '-', '-']) {
        MdLook::CodeRemoved
    } else if starts_with(line, seq!['@', '@']) {
        MdLook::CodeHunk
    } else {
        MdLook::CodeText
    }
}

/// A number right-aligned in three columns.
pub open spec fn right3(n: nat) -> Seq<char> {
    let d = decimal(n);
    if d.len() < 3 {
        spaces((3 - d.len()) as nat) + d
    } else {
        d
    }
}

/// A line of an unhighlighted code block: an empty line shows as a space,
/// the line is cut to the frame, a diff line is numbered and coloured.
pub open spec fn code_row(li: nat, line: Seq<char>, max: nat, diff: bool, art: bool) -> LineView {
    let display = if line.len() == 0 {
        seq![' ']
    } else {
        line
    };
    let visible = clipped(display, sub0(max, if art { 0 } else { 2 }));
    let look = if diff {
        diff_code_look(display)
    } else {
        MdLook::CodeText
    };
    let content = if diff {
        seq!['│'] + right3(li + 1) + seq![' '] + visible
    } else if art {
        visible
    } else {
        seq!['│', ' '] + visible
    };
    styled_row(content, look)
}

pub open spec fn code_rows(lines: Seq<Seq<char>>, max: nat, diff: bool, art: bool) -> Seq<LineView> {
    Seq::new(lines.len(), |i: int| code_row(i as nat, lines[i], max, diff, art))
}

/// A highlighted row behind the frame's bar, cut to the frame.
pub open spec fn hl_row(segs: Seq<(Seq<char>, MdLook)>, max: nat, art: bool) -> LineView {
    LineView {
        runs: (if art {
            seq![]
        } else {
            seq![(seq!['│', ' '], MdLook::CodeBorder)]
        }) + segments_fit(segs, sub0(max, if art { 0 } else { 2 })).0,
        look: MdLook::Plain,
    }
}

pub open spec fn hl_rows(hl: Seq<Seq<(Seq<char>, MdLook)>>, max: nat, art: bool) -> Seq<LineView> {
    Seq::new(hl.len(), |i: int| hl_row(hl[i], max, art))
}

/// A code block: a frame naming the language, then the highlighted rows, or
/// the plain lines where there is no highlighting.
pub open spec fn code_block_rows(
    lang: Option<Seq<char>>,
    text: Seq<char>,
    max: nat,
    hl: Option<Seq<Seq<(Seq<char>, MdLook)>>>,
) -> Seq<LineView> {
    let art = is_art_table(text);
    let top = if art {
        seq![]
    } else {
        seq![styled_row(code_top(lang), MdLook::CodeBorder)]
    };
    let body = match hl {
        Some(h) => hl_rows(h, max, art),
        None => code_rows(text_lines(text), max, is_diff_lang(lang), art),
    };
    let bottom = if art {
        seq![]
    } else {
        seq![styled_row(code_bottom(), MdLook::CodeBorder)]
    };
    top + body + bottom
}

/// Highlighting is tried for every block but diffs and drawn tables.
pub open spec fn code_highlight(lang: Option<Seq<char>>, text: Seq<char>) -> Option<Seq<Seq<(Seq<char>, MdLook)>>> {
    if !is_diff_lang(lang) && !is_art_table(text) {
        highlighted(
            match lang {
                Some(l) => l,
                None => seq![],
            },
            text,
        )
    } else {
        None
    }
}

fn contains_char(t: &Vec<char>, c: char) -> (r: bool)
    ensures
        r == t@.contains(c),
{
    let mut i: usize = 0;
    while i < t.len()
        invariant
            i <= t.len(),
            forall|k: int| 0 <= k < i ==> t@[k] != c,
        decreases t.len() - i,
    {
        if t[i] == c {
            assert(t@[i as int] == c);
            return true;
        }
        i += 1;
    }
    false
}

fn is_diff(lang: &Option<String>) -> (r: bool)
    ensures
        r == is_diff_lang(opt_view(*lang)),
{
    match lang {
        Some(l) => {
            let cs = chars_of(l.as_str());
            proof {
                reveal_strlit("diff");
                assert("diff"@ =~= seq!['d', 'i', 'f', 'f']);
            }
            crate::text::eq_str(&cs, "diff")
        },
        None => false,
    }
}

fn right_aligned3(n: usize) -> (r: Vec<char>)
    ensures
        r@ == right3(n as nat),
{
    let d = decimal_chars(n as u128);
    if d.len() < 3 {
        let mut r = space_chars(3 - d.len());
        extend_chars(&mut r, &d);
        r
    } else {
        d
    }
}

fn code_line(li: usize, line: &Vec<char>, max: usize, diff: bool, art: bool) -> (r: MdLine)
    requires
        li < usize::MAX,
    ensures
        r.deep_view() == code_row(li as nat, line@, max as nat, diff, art),
{
    let mut display: Vec<char> = Vec::new();
    if line.len() == 0 {
        display.push(' ');
    } else {
        display = line.clone();
    }
    let border: usize = if art {
        0
    } else {
        2
    };
    let room: usize = if max > border {
        max - border
    } else {
        0
    };
    let visible = chars_of(truncate_str(string_of(&display).as_str(), room).as_str());
    let look = if diff {
        proof {
            reveal_strlit("+");
            reveal_strlit("+++");
            reveal_strlit("-");
            reveal_strlit("---");
            reveal_strlit("@@");
            assert("+"@ =~= seq!['+']);
            assert("+++"@ =~= seq!['+', '+', '+']);
            assert("-"@ =~= seq!['-']);
            assert("---"@ =~= seq!['-', '-', '-']);
            assert("@@"@ =~= seq!['@', '@']);
        }
        if starts_with_str(&display, "+") && !starts_with_str(&display, "+++") {
            MdLook::CodeAdded
        } else if starts_with_str(&display, "-") && !starts_with_str(&display, "---") {
            MdLook::CodeRemoved
        } else if starts_with_str(&display, "@@") {
            MdLook::CodeHunk
        } else {
            MdLook::CodeText
        }
    } else {
        MdLook::CodeText
    };
    let mut content: Vec<char> = Vec::new();
    if diff {
        content.push('│');
        let num = right_aligned3(li + 1);
        extend_chars(&mut content, &num);
        content.push(' ');
        extend_chars(&mut content, &visible);
        assert(content@ =~= seq!['│'] + right3(li as nat + 1) + seq![' '] + visible@);
    } else if art {
        content = visible;
    } else {
        content.push('│');
        content.push(' ');
        extend_chars(&mut content, &visible);
        assert(content@ =~= seq!['│', ' '] + visible@);
    }
    styled_line(content, look)
}

fn framed_row(segs: &Vec<MdRun>, max: usize, art: bool) -> (r: MdLine)
    ensures
        r.deep_view() == hl_row(segs.deep_view(), max as nat, art),
{
    let border: usize = if art {
        0
    } else {
        2
    };
    let room: usize = if max > border {
        max - border
    } else {
        0
    };
    let visible = truncate_line_to_width(segs, room);
    let mut parts: Vec<MdRun> = Vec::new();
    if !art {
        let mut bar: Vec<char> = Vec::new();
        bar.push('│');
        bar.push(' ');
        assert(bar@ =~= seq!['│', ' ']);
        parts.push(MdRun { text: string_of(&bar), look: MdLook::CodeBorder });
    }
    let ghost head = parts.deep_view();
    assert(head =~= if art {
        Seq::<(Seq<char>, MdLook)>::empty()
    } else {
        seq![(seq!['│', ' '], MdLook::CodeBorder)]
    });
    let mut visible = visible;
    let ghost vv0 = visible.deep_view();
    parts.append(&mut visible);
    assert(parts.deep_view() =~= head + vv0);
    MdLine { runs: parts, look: MdLook::Plain }
}

fn literal_line(text: &str, look: MdLook) -> (r: MdLine)
    ensures
        r.deep_view() == styled_row(text@, look),
{
    styled_line(chars_of(text), look)
}

/// A code block's rows, given what highlighting made of it.
pub fn code_block_lines(
    lang: &Option<String>,
    text: &str,
    max_width: usize,
    highlighted: Option<Vec<Vec<MdRun>>>,
) -> (r: Vec<MdLine>)
    ensures
        r.deep_view() == code_block_rows(opt_view(*lang), text@, max_width as nat, opt_rows_view(highlighted)),
{
    let diff = is_diff(lang);
    let tc = chars_of(text);
    let art = contains_char(&tc, '╭') || contains_char(&tc, '╔') || contains_char(&tc, '┏');
    let mut lines: Vec<MdLine> = Vec::new();
    if !art {
        let mut top: Vec<char> = Vec::new();
        match lang {
            Some(l) => {
                top.push('┌');
                top.push('─');
                top.push(' ');
                crate::text::extend_str(&mut top, l.as_str());
                top.push(' ');
            },
            None => {
                top.push('┌');
                top.push('─');
                top.push('─');
                top.push('─');
                top.push('─');
            },
        }
        assert(top@ =~= code_top(opt_view(*lang)));
        push_line(&mut lines, styled_line(top, MdLook::CodeBorder));
    }
    let mut body: Vec<MdLine> = Vec::new();
    match highlighted {
        Some(rows) => {
            let mut i: usize = 0;
            while i < rows.len()
                invariant
                    i <= rows.len(),
                    body.deep_view() == hl_rows(rows.deep_view().take(i as int), max_width as nat, art),
                decreases rows.len() - i,
            {
                push_line(&mut body, framed_row(&rows[i], max_width, art));
                i += 1;
                assert(body.deep_view() =~= hl_rows(rows.deep_view().take(i as int), max_width as nat, art));
            }
            assert(rows.deep_view().take(i as int) =~= rows.deep_view());
        },
        None => {
            let ls = lines_of(text);
            let mut i: usize = 0;
            while i < ls.len()
                invariant
                    i <= ls.len(),
                    body.deep_view() == code_rows(vv(ls@).take(i as int), max_width as nat, diff, art),
                decreases ls.len() - i,
            {
                push_line(&mut body, code_line(i, &ls[i], max_width, diff, art));
                i += 1;
                assert(body.deep_view() =~= code_rows(vv(ls@).take(i as int), max_width as nat, diff, art));
            }
            assert(vv(ls@).take(i as int) =~= vv(ls@));
        },
    }
    append_lines(&mut lines, body);
    if !art {
        proof {
            reveal_strlit("└────");
            assert("└────"@ =~= code_bottom());
        }
        push_line(&mut lines, literal_line("└────", MdLook::CodeBorder));
    }
    lines
}

/// A code block: its frame, and its lines highlighted where syntect knows
/// the language, else plain (numbered and coloured for a diff).
pub fn render_code_block(lang: &Option<String>, text: &str, max_width: usize) -> (r: Vec<MdLine>)
    ensures
        r.deep_view() == code_block_rows(
            opt_view(*lang),
            text@,
            max_width as nat,
            code_highlight(opt_view(*lang), text@),
        ),
{
    let diff = is_diff(lang);
    let tc = chars_of(text);
    let art = contains_char(&tc, '╭') || contains_char(&tc, '╔') || contains_char(&tc, '┏');
    let hl = if !diff && !art {
        let empty = String::new();
        let l: &str = match lang {
            Some(l) => l.as_str(),
            None => empty.as_str(),
        };
        highlight_syntax(l, text)
    } else {
        None
    };
    code_block_lines(lang, text, max_width, hl)
}

// ---------------------------------------------------------------------------
// Laws of hard wrapping.
// ---------------------------------------------------------------------------

/// The chunks of a wrapped line, joined back together.
pub open spec fn concat(list: Seq<Seq<char>>) -> Seq<char>
    decreases list.len(),
{
    if list.len() == 0 {
        seq![]
    } else {
        concat(list.drop_last()) + list.last()
    }
}

/// A chunk fits the row, or is too wide only because of one character that
/// is wider than the row by itself (everything before it takes no column).
pub open spec fn fits_or_one_wide(chunk: Seq<char>, max: nat) -> bool {
    cols(chunk) <= max || (chunk.len() > 0 && cols(chunk.drop_last()) == 0)
}

proof fn lemma_cols_append(a: Seq<char>, b: Seq<char>)
    ensures
        cols(a + b) == cols(a) + cols(b),
    decreases b.len(),
{
    if b.len() > 0 {
        lemma_cols_append(a, b.drop_last());
        assert((a + b).drop_last() =~= a + b.drop_last());
    }
}

proof fn lemma_sat_sat(x: nat, y: nat)
    ensures
        sat((sat(x as int) + y) as int) == sat((x + y) as int),
{
}

proof fn lemma_wrap_state_pieces(s: Seq<char>, max: nat)
    ensures
        concat(crate::layout::wrap_state(s, max).0) + crate::layout::wrap_state(s, max).1 == s,
        crate::layout::wrap_state(s, max).2 == sat(cols(crate::layout::wrap_state(s, max).1) as int),
    decreases s.len(),
{
    if s.len() > 0 {
        lemma_wrap_state_pieces(s.drop_last(), max);
        let (done, cur, w) = crate::layout::wrap_state(s.drop_last(), max);
        let c = s.last();
        assert(s =~= s.drop_last().push(c));
        if w > 0 && sat(w + width0(c) as int) > max {
            assert(done.push(cur).drop_last() =~= done);
            assert(seq![c].drop_last() =~= Seq::<char>::empty());
            assert(cols(Seq::<char>::empty()) == 0);
            assert(seq![c].last() == c);
            assert(cols(seq![c]) == cols(seq![c].drop_last()) + width0(seq![c].last()));
        } else {
            assert(cur.push(c).drop_last() =~= cur);
            assert(cols(cur.push(c)) == cols(cur) + width0(c));
            lemma_sat_sat(cols(cur), width0(c));
        }
    }
}

/// Law: hard wrapping loses, adds and reorders no character: the chunks,
/// joined, give the line back.
pub proof fn law_wrap_keeps_every_character(s: Seq<char>, max: nat)
    ensures
        concat(crate::layout::wrapped(s, max)) == s,
{
    if s.len() > 0 {
        lemma_wrap_state_pieces(s, max);
        let (done, cur, _) = crate::layout::wrap_state(s, max);
        if cur.len() > 0 {
            assert(done.push(cur).drop_last() =~= done);
        } else {
            assert(concat(done) + cur =~= concat(done));
        }
    } else {
        let one = seq![Seq::<char>::empty()];
        assert(one.drop_last() =~= Seq::<Seq<char>>::empty());
        assert(concat(one) == concat(one.drop_last()) + one.last());
        assert(concat(one) =~= s);
    }
}

proof fn lemma_wrap_state_fits(s: Seq<char>, max: nat)
    requires
        max < usize::MAX || cols(s) <= usize::MAX,
    ensures
        forall|i: int|
            0 <= i < crate::layout::wrap_state(s, max).0.len() ==> fits_or_one_wide(
                #[trigger] crate::layout::wrap_state(s, max).0[i],
                max,
            ),
        fits_or_one_wide(crate::layout::wrap_state(s, max).1, max),
    decreases s.len(),
{
    if s.len() > 0 {
        let t = s.drop_last();
        let c = s.last();
        assert(cols(t) <= cols(s));
        lemma_wrap_state_fits(t, max);
        lemma_wrap_state_pieces(t, max);
        let (done, cur, w) = crate::layout::wrap_state(t, max);
        if w > 0 && sat(w + width0(c) as int) > max {
            assert(seq![c].drop_last() =~= Seq::<char>::empty());
            assert(forall|i: int| 0 <= i < done.len() ==> done.push(cur)[i] == done[i]);
        } else if w == 0 {
            assert(cur.push(c).drop_last() =~= cur);
        } else {
            assert(cur.push(c).drop_last() =~= cur);
            lemma_cols_append(concat(done), cur);
            assert(cols(cur) <= cols(t));
        }
    }
}

/// Law: every chunk of a hard-wrapped line fits the row, unless one
/// character is wider than the row by itself (it then stands alone after
/// characters of no width). The columns are counted exactly while the line
/// fits in a `usize` or the row is narrower than the largest `usize`.
pub proof fn law_wrapped_chunks_fit(s: Seq<char>, max: nat)
    requires
        max < usize::MAX || cols(s) <= usize::MAX,
    ensures
        forall|i: int|
            0 <= i < crate::layout::wrapped(s, max).len() ==> fits_or_one_wide(
                #[trigger] crate::layout::wrapped(s, max)[i],
                max,
            ),
{
    if s.len() > 0 {
        lemma_wrap_state_fits(s, max);
    }
}

// ---------------------------------------------------------------------------
// Laws of word wrapping.
// ---------------------------------------------------------------------------

proof fn lemma_join_push(list: Seq<Seq<char>>, x: Seq<char>, sep: Seq<char>)
    ensures
        join(list.push(x), sep) == if list.len() == 0 {
            x
        } else {
            join(list, sep) + sep + x
        },
{
    assert(list.push(x).drop_last() =~= list);
}

proof fn lemma_word_wrap_state_joins(ws: Seq<Seq<char>>, max: nat)
    requires
        forall|k: int| 0 <= k < ws.len() ==> #[trigger] ws[k].len() > 0,
    ensures
        ws.len() == 0 ==> word_wrap_state(ws, max).0.len() == 0 && word_wrap_state(ws, max).1.len() == 0,
        ws.len() > 0 ==> word_wrap_state(ws, max).1.len() > 0 && join(
            word_wrap_state(ws, max).0.push(word_wrap_state(ws, max).1),
            seq![' '],
        ) == join(ws, seq![' ']),
    decreases ws.len(),
{
    if ws.len() > 0 {
        let p = ws.drop_last();
        let word = ws.last();
        assert(word == ws[ws.len() - 1]);
        lemma_word_wrap_state_joins(p, max);
        let (done, cur, w) = word_wrap_state(p, max);
        let sp = seq![' '];
        let (done2, cur2, _) = word_wrap_state(ws, max);
        lemma_join_push(p, word, sp);
        assert(ws =~= p.push(word));
        if p.len() == 0 {
            assert(cur2 =~= word);
            lemma_join_push(done2, cur2, sp);
        } else {
            lemma_join_push(done, cur, sp);
            if w > 0 && w + 1 + text_width(word) > max {
                assert(done2 == done.push(cur));
                assert(cur2 =~= word);
                lemma_join_push(done2, cur2, sp);
            } else {
                assert(cur2 =~= cur + sp + word);
                lemma_join_push(done, cur2, sp);
            }
        }
    }
}

/// Law: soft wrapping keeps every word, in order: the chunks joined by one
/// space give the line's words joined by one space.
pub proof fn law_soft_wrap_keeps_words(line: Seq<char>, max: nat)
    ensures
        join(soft_chunks(line, max), seq![' ']) == squash_ws(line),
{
    crate::text::lemma_words_shape(line);
    let ws = words(line);
    lemma_word_wrap_state_joins(ws, max);
    let (done, cur, _) = word_wrap_state(ws, max);
    if ws.len() == 0 {
        assert(soft_chunks(line, max) =~= Seq::<Seq<char>>::empty());
    }
}

} // verus!
